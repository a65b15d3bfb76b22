//! Locations that the application derives from the directories its host
//! supplies.

use vstd::prelude::*;

verus! {

/// A directory path joined with a relative name, as a path join does on a
/// platform with `/` as separator.
pub open spec fn joined(dir: Seq<char>, name: Seq<char>) -> Seq<char> {
    if dir.len() == 0 {
        name
    } else if dir.last() == '/' {
        dir + name
    } else {
        dir + seq!['/'] + name
    }
}

/// The installed helper server under the application-data directory.
pub open spec fn server_path_of(app_data_dir: Seq<char>) -> Seq<char> {
    joined(app_data_dir, "server.cjs"@)
}

/// The helper server as bundled under the resources directory.
pub open spec fn bundled_server_of(resource_dir: Seq<char>) -> Seq<char> {
    joined(joined(joined(resource_dir, "_up_"@), "dist-mcp"@), "server.cjs"@)
}

/// The bookmark database under the application-data directory.
pub open spec fn database_path_of(app_data_dir: Seq<char>) -> Seq<char> {
    joined(app_data_dir, "bookmarks.db"@)
}

/// Joins `name` to the directory `dir`.
pub fn join_path(dir: &str, name: &str) -> (r: String)
    ensures
        r@ == joined(dir@, name@),
{
    let n = dir.unicode_len();
    if n == 0 {
        String::from_str(name)
    } else if dir.get_char(n - 1) == '/' {
        let mut s = String::from_str(dir);
        s.append(name);
        s
    } else {
        let mut s = String::from_str(dir);
        s.append("/");
        s.append(name);
        proof {
            reveal_strlit("/");
        }
        s
    }
}

/// Where the helper server is installed.
pub fn server_path(app_data_dir: &str) -> (r: String)
    ensures
        r@ == server_path_of(app_data_dir@),
{
    join_path(app_data_dir, "server.cjs")
}

/// Where the helper server is bundled.
pub fn bundled_server_path(resource_dir: &str) -> (r: String)
    ensures
        r@ == bundled_server_of(resource_dir@),
{
    let up = join_path(resource_dir, "_up_");
    let dist = join_path(up.as_str(), "dist-mcp");
    join_path(dist.as_str(), "server.cjs")
}

/// Where the bookmark database lives.
pub fn database_path(app_data_dir: &str) -> (r: String)
    ensures
        r@ == database_path_of(app_data_dir@),
{
    join_path(app_data_dir, "bookmarks.db")
}

/// The message for a directory that the host could not supply.
pub open spec fn dir_failure_of(what: Seq<char>, cause: Seq<char>) -> Seq<char> {
    "Failed to get "@ + what + " dir: "@ + cause
}

/// Builds the message reported when the host cannot supply a directory.
pub fn dir_failure(what: &str, cause: &str) -> (r: String)
    ensures
        r@ == dir_failure_of(what@, cause@),
{
    let mut s = String::from_str("Failed to get ");
    s.append(what);
    s.append(" dir: ");
    s.append(cause);
    s
}

/// The installed helper server's path, or the reason the application-data
/// directory could not be had.
pub fn get_server_path(app_data_dir: Result<String, String>) -> (r: Result<String, String>)
    ensures
        match (app_data_dir, r) {
            (Ok(d), Ok(p)) => p@ == server_path_of(d@),
            (Err(e), Err(m)) => m@ == dir_failure_of("app data"@, e@),
            _ => false,
        },
{
    match app_data_dir {
        Ok(d) => Ok(server_path(d.as_str())),
        Err(e) => Err(dir_failure("app data", e.as_str())),
    }
}

} // verus!
