use vstd::prelude::*;

verus! {

/// The per-user data directory slug this application stores state
/// under.
pub fn app_data_slug() -> (r: &'static str)
    ensures
        r@ == "com.aiterm.app"@,
{
    "com.aiterm.app"
}

/// The file the persisted application state lives in, inside the slug
/// directory.
pub fn state_file_name() -> (r: &'static str)
    ensures
        r@ == "aiterm-state.json"@,
{
    "aiterm-state.json"
}

/// The backup written beside the state file before each save.
pub fn backup_file_name() -> (r: &'static str)
    ensures
        r@ == "aiterm-state.bak.json"@,
{
    "aiterm-state.bak.json"
}

/// The temporary file a save writes first, renamed into place so a
/// crash mid-write never corrupts the state file.
pub fn temp_file_name() -> (r: &'static str)
    ensures
        r@ == "aiterm-state.tmp.json"@,
{
    "aiterm-state.tmp.json"
}

} // verus!
