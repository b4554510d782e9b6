//! Where the per-user app state lives inside its configuration
//! directory. Reading, locking and writing the files is the caller's.
use vstd::prelude::*;
use crate::paths::{join_path, utf8_join};

verus! {

/// `state.json` in `config_dir`.
pub fn state_path(config_dir: &str) -> (r: String)
    ensures
        r@ == utf8_join(config_dir@, "state.json"@),
{
    join_path(config_dir, "state.json")
}

/// `state.json.lock` in `config_dir`: the file whose lock serialises
/// writers.
pub fn lock_path(config_dir: &str) -> (r: String)
    ensures
        r@ == utf8_join(config_dir@, "state.json.lock"@),
{
    join_path(config_dir, "state.json.lock")
}

/// `state.json.tmp` in `config_dir`: written, then renamed over the
/// state.
pub fn tmp_path(config_dir: &str) -> (r: String)
    ensures
        r@ == utf8_join(config_dir@, "state.json.tmp"@),
{
    join_path(config_dir, "state.json.tmp")
}

} // verus!
