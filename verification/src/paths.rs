//! Where the program keeps its files: the database and the log live in the
//! application directory.
use vstd::prelude::*;
use crate::text::{chars_of, string_of};

verus! {

/// `name` inside directory `dir`, separated by `/` unless `dir` is empty or
/// already ends with one (every supported platform accepts `/`).
pub open spec fn joined_path(dir: Seq<char>, name: Seq<char>) -> Seq<char> {
    if dir.len() == 0 || dir[dir.len() - 1] == '/' {
        dir + name
    } else {
        dir + seq!['/'] + name
    }
}

fn join_path(dir: &str, name: &str) -> (r: String)
    ensures
        r@ == joined_path(dir@, name@),
{
    let mut v = chars_of(dir);
    if v.len() > 0 && v[v.len() - 1] != '/' {
        v.push('/');
    }
    let n = chars_of(name);
    v.extend_from_slice(n.as_slice());
    assert(v@ =~= joined_path(dir@, name@));
    string_of(v.as_slice())
}

/// The database file inside application directory `app_dir`.
pub fn get_db_path(app_dir: &str) -> (r: String)
    ensures
        r@ == joined_path(app_dir@, "flow.db"@),
{
    join_path(app_dir, "flow.db")
}

/// The log file inside application directory `app_dir`.
pub fn get_log_path(app_dir: &str) -> (r: String)
    ensures
        r@ == joined_path(app_dir@, "flow.log"@),
{
    join_path(app_dir, "flow.log")
}

/// The application directory inside home directory `home`, or `.flow` in
/// the working directory when there is no home.
pub fn app_dir_in(home: Option<&str>) -> (r: String)
    ensures
        match home {
            Some(h) => r@ == joined_path(h@, ".flow"@),
            None => r@ == ".flow"@,
        },
{
    match home {
        Some(h) => join_path(h, ".flow"),
        None => crate::text::copy_string_of_str(".flow"),
    }
}

} // verus!
