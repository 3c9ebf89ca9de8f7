//! What is done with one file of a project: whether it is looked at, and
//! what is shown for it.
use vstd::prelude::*;
use vstd::string::*;
use crate::engine::all_matches;
use crate::pattern::Pattern;
use crate::report::{report, report_text};
use crate::tree::SyntaxNode;

verus! {

/// The extension of the files that are looked at.
pub open spec fn target_extension() -> Seq<char> {
    seq!['e', 'r', 'l']
}

/// Whether a file with this extension is looked at. The extension is what
/// follows the last dot of the file's name, without the dot.
pub fn is_target_extension(extension: &str) -> (r: bool)
    ensures
        r == (extension@ == target_extension()),
{
    proof {
        reveal_strlit("erl");
        assert("erl"@ =~= target_extension());
    }
    let given = extension.to_owned();
    let wanted = "erl".to_owned();
    given == wanted
}

/// What is shown for the file `name` with the text `source` and the syntax
/// tree `tree`: the lines of all matches of `query` in the tree, under the
/// file's name, and nothing at all where the query matches nowhere.
pub fn query_file(query: &Pattern, name: &str, tree: &SyntaxNode, source: &[u8]) -> (text: String)
    ensures
        text@ == report_text(name@, all_matches(query@, tree@), source@),
        all_matches(query@, tree@).len() == 0 ==> text@.len() == 0,
{
    let found = crate::engine::matches(query, tree);
    report(name, &found, source)
}

} // verus!
