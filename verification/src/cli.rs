//! The decision behind the command line's path arguments, separated from
//! the file-system queries that feed it.

use vstd::prelude::*;

verus! {

/// What the path check decides, given what the file system answered: the path
/// itself when it names an existing file, else the fitting complaint.
pub open spec fn check_file_path_spec(path: Seq<char>, exists: bool, is_file: bool) -> Result<
    Seq<char>,
    Seq<char>,
> {
    if exists && is_file {
        Ok(path)
    } else if !is_file {
        Err("The specified path \""@ + path + "\" is a folder and not a file"@)
    } else {
        Err("The specified path \""@ + path + "\" doesn't exists"@)
    }
}

/// Decides whether a command-line path argument may be used, from the path
/// text and the file system's two answers about it (queried by the caller).
pub fn check_file_path(path: &str, exists: bool, is_file: bool) -> (r: Result<String, String>)
    ensures
        (match r {
            Ok(p) => check_file_path_spec(path@, exists, is_file) == Ok::<Seq<char>, Seq<char>>(
                p@,
            ),
            Err(m) => check_file_path_spec(path@, exists, is_file) == Err::<Seq<char>, Seq<char>>(
                m@,
            ),
        }),
{
    match (exists, is_file) {
        (true, true) => Ok(path.to_owned()),
        (_, false) => {
            let mut m = String::new();
            m.append("The specified path \"");
            m.append(path);
            m.append("\" is a folder and not a file");
            Err(m)
        },
        _ => {
            let mut m = String::new();
            m.append("The specified path \"");
            m.append(path);
            m.append("\" doesn't exists");
            Err(m)
        },
    }
}

} // verus!
