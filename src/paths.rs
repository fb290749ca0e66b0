use vstd::prelude::*;

verus! {

/// The name of the per-user directory that holds the store.
pub const DATA_DIR_NAME: &'static str = ".rainbow";

/// The name of the store file inside that directory.
pub const DB_FILE_NAME: &'static str = "rainbow.db";

/// The per-user directory that holds the store: the home directory joined
/// with the data directory's name.
pub fn data_dir(home: &str, sep: &str) -> (r: String)
    ensures
        r@ == home@ + sep@ + DATA_DIR_NAME@,
{
    let mut r = String::from_str(home);
    r.append(sep);
    r.append(DATA_DIR_NAME);
    r
}

/// The path of the store file under a home directory.
pub fn db_file(home: &str, sep: &str) -> (r: String)
    ensures
        r@ == home@ + sep@ + DATA_DIR_NAME@ + sep@ + DB_FILE_NAME@,
{
    let mut r = data_dir(home, sep);
    r.append(sep);
    r.append(DB_FILE_NAME);
    r
}

} // verus!
