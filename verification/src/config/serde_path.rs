use vstd::prelude::*;
use crate::text::opt_view;

verus! {

/// The word that stands for "find this path automatically" in the settings file.
pub const AUTO: &'static str = "auto";

/// What a path setting means: the words `auto` and the empty string ask for
/// automatic detection, anything else is the path itself.
pub open spec fn spec_path_setting(stored: Option<Seq<char>>) -> Option<Seq<char>> {
    match stored {
        Some(s) => if s == "auto"@ || s.len() == 0 {
            None
        } else {
            Some(s)
        },
        None => None,
    }
}

/// The string that a path setting is stored as.
pub open spec fn spec_stored_path(path: Option<Seq<char>>) -> Seq<char> {
    match path {
        Some(p) => p,
        None => "auto"@,
    }
}

/// Reads a path setting from the string stored in the settings file (absent or
/// `null` stored as `None`).
pub fn deserialize(stored: Option<String>) -> (path: Option<String>)
    ensures
        opt_view(path) == spec_path_setting(opt_view(stored)),
{
    match stored {
        Some(s) => {
            let auto = String::from_str(AUTO);
            let empty = String::new();
            if s == auto || s == empty {
                None
            } else {
                assert(s@.len() != 0) by {
                    if s@.len() == 0 {
                        assert(s@ =~= empty@);
                    }
                }
                Some(s)
            }
        },
        None => None,
    }
}

/// The string that a path setting is written as: the path itself, or `auto`.
pub fn serialize(path: &Option<String>) -> (stored: String)
    ensures
        stored@ == spec_stored_path(opt_view(*path)),
{
    match path {
        Some(p) => p.clone(),
        None => String::from_str(AUTO),
    }
}

/// A path written with `serialize` reads back with `deserialize` as the same
/// setting, for every setting but an explicit path spelled `auto` or empty
/// (those read back as "find automatically").
pub proof fn lemma_path_round_trip(path: Option<Seq<char>>)
    requires
        path matches Some(p) ==> p != "auto"@ && p.len() != 0,
    ensures
        spec_path_setting(Some(spec_stored_path(path))) == path,
{
}

/// A setting that has been read once reads the same after it is written back
/// and read again.
pub proof fn lemma_read_write_read(stored: Option<Seq<char>>)
    ensures
        spec_path_setting(Some(spec_stored_path(spec_path_setting(stored))))
            == spec_path_setting(stored),
{
}

/// A path left to detection is written as `auto`, and `auto` reads back as
/// detection: the default configuration survives being written and read.
pub proof fn lemma_detection_round_trip()
    ensures
        spec_stored_path(None) == "auto"@,
        spec_path_setting(Some(spec_stored_path(None))) is None,
{
}

} // verus!
