//! Where the two data files live: beside the program, in the directory the
//! caller names.

use vstd::prelude::*;

verus! {

/// The path that joining `file_name` onto the directory `dir` gives.
pub uninterp spec fn path_join(dir: Seq<char>, file_name: Seq<char>) -> Seq<char>;

/// Whether `s` ends with `suffix`.
pub open spec fn ends_with(s: Seq<char>, suffix: Seq<char>) -> bool {
    suffix.len() <= s.len() && s.subrange(s.len() - suffix.len(), s.len() as int) == suffix
}

/// A single relative file name: not empty, not `.` or `..`, and without a
/// path separator or a drive colon.
pub open spec fn plain_file_name(name: Seq<char>) -> bool {
    &&& name.len() > 0
    &&& name != seq!['.']
    &&& name != seq!['.', '.']
    &&& forall|i: int| 0 <= i < name.len() ==> #[trigger] name[i] != '/' && name[i] != '\\'
        && name[i] != ':'
}

/// Trusted: calls `Path::join` (std) and turns the result back into text.
/// The joined path depends only on the two texts (and the platform's path
/// rules, which are fixed for a build); what it is is left as the name
/// `path_join`. Both inputs are UTF-8, so the conversion back loses nothing.
/// The one fact stated beside the name: joining a single relative file name
/// appends it, so the result ends with it (std documents `join` as adjoining
/// the path to `self`; such a name has no root or prefix that would replace
/// `self`, and no `.` or `..` component that normalization would drop).
#[verifier::external_body]
fn join_path(dir: &str, file_name: &str) -> (res: String)
    ensures
        res@ == path_join(dir@, file_name@),
        plain_file_name(file_name@) ==> ends_with(res@, file_name@),
{
    std::path::Path::new(dir).join(file_name).to_string_lossy().into_owned()
}

/// The playtime ledger's file in the directory `dir`: `playtime.json`.
pub fn save_file_path(dir: &str) -> (path: String)
    ensures
        path@ == path_join(dir@, "playtime.json"@),
        ends_with(path@, "playtime.json"@),
{
    proof {
        reveal_strlit("playtime.json");
    }
    join_path(dir, "playtime.json")
}

/// The settings file in the directory `dir`: `config.json`.
pub fn config_file_path(dir: &str) -> (path: String)
    ensures
        path@ == path_join(dir@, "config.json"@),
        ends_with(path@, "config.json"@),
{
    proof {
        reveal_strlit("config.json");
    }
    join_path(dir, "config.json")
}

} // verus!
