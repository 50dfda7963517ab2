//! A schema validator: compiles a compact YAML-shaped schema definition into a
//! tree of validator nodes, and checks a decoded JSON-like document against it,
//! reporting the first violation together with the breadcrumb path to it.

pub mod canonical;
pub mod cli;
pub mod compile;
pub mod data;
pub mod decimal;
pub mod engine;
pub mod error;
pub mod laws;
pub mod regex_link;
pub mod schema;
pub mod text;
pub mod validator;
