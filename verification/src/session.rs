//! The decisions of an interactive query session: what the daemon does
//! with each line a client sends.

use vstd::prelude::*;
use crate::text::{chars_of, same_text, trim_chars, trimmed};

verus! {

broadcast use vstd::string::group_string_axioms;

/// What the session does with a query line.
#[derive(Debug, PartialEq, Eq)]
pub enum SessionAction {
    /// A blank line: prompt again.
    Prompt,
    /// `exit` or `quit`: say goodbye and end the session.
    Close,
    /// Anything else: run it as a search.
    Search(String),
}

/// Decides what to do with a query line: a blank one prompts again, `exit`
/// or `quit` ends the session, anything else is searched for.
pub fn session_action(query: &str) -> (a: SessionAction)
    ensures
        trimmed(query@).len() == 0 ==> a == SessionAction::Prompt,
        trimmed(query@).len() != 0 && (query@ == "exit"@ || query@ == "quit"@) ==> a == SessionAction::Close,
        trimmed(query@).len() != 0 && query@ != "exit"@ && query@ != "quit"@
            ==> (a matches SessionAction::Search(s) && s@ == query@),
{
    let qc = chars_of(query);
    let t = trim_chars(qc.as_slice());
    if t.len() == 0 {
        SessionAction::Prompt
    } else if same_text(query, "exit") || same_text(query, "quit") {
        SessionAction::Close
    } else {
        SessionAction::Search(query.to_string())
    }
}

} // verus!
