//! What the wizard makes of the answers that are typed in. Asking the
//! questions and reading the answers is left to the caller.

use vstd::prelude::*;
use vstd::string::StrSliceExecFns;

use crate::status_backend::lastfm::Config;
use crate::text::{eq_ignore_ascii_case, eq_ignoring_ascii_case, same_text, trim, trimmed};

verus! {

/// Whether `text` is one of `one_of`, but for the case of its ASCII letters.
pub open spec fn loosely_matches(text: Seq<char>, one_of: Seq<&str>) -> bool {
    exists|i: int| 0 <= i < one_of.len() && eq_ignoring_ascii_case(text, (#[trigger] one_of[i])@)
}

/// Computes [`loosely_matches`].
pub fn loose_matches(str: &str, one_of: &[&str]) -> (matches: bool)
    ensures
        matches == loosely_matches(str@, one_of@),
{
    let mut i: usize = 0;
    while i < one_of.len()
        invariant
            i <= one_of@.len(),
            forall|j: int| 0 <= j < i ==> !eq_ignoring_ascii_case(str@, (#[trigger] one_of@[j])@),
        decreases one_of@.len() - i,
    {
        if eq_ignore_ascii_case(str, one_of[i]) {
            return true;
        }
        i += 1;
    }
    false
}

/// Whether `text` reads as a yes.
pub open spec fn says_yes(text: Seq<char>) -> bool {
    eq_ignoring_ascii_case(text, "y"@) || eq_ignoring_ascii_case(text, "yes"@)
        || eq_ignoring_ascii_case(text, "true"@)
}

/// Whether `text` reads as a no.
pub open spec fn says_no(text: Seq<char>) -> bool {
    eq_ignoring_ascii_case(text, "n"@) || eq_ignoring_ascii_case(text, "no"@)
        || eq_ignoring_ascii_case(text, "false"@)
}

/// The yes or no that `text` reads as once the white space around it is
/// taken off, if it reads as either.
pub open spec fn boolish(text: Seq<char>) -> Option<bool> {
    if says_yes(trimmed(text)) {
        Some(true)
    } else if says_no(trimmed(text)) {
        Some(false)
    } else {
        None
    }
}

/// Computes [`boolish`].
pub fn str_to_boolish(str: &str) -> (answer: Option<bool>)
    ensures
        answer == boolish(str@),
{
    let str = trim(str);
    let yes = ["y", "yes", "true"];
    let no = ["n", "no", "false"];
    proof {
        assert(loosely_matches(str@, yes@) == says_yes(str@)) by {
            if says_yes(str@) {
                assert(yes@[0] == "y" && yes@[1] == "yes" && yes@[2] == "true");
            }
        }
        assert(loosely_matches(str@, no@) == says_no(str@)) by {
            if says_no(str@) {
                assert(no@[0] == "n" && no@[1] == "no" && no@[2] == "false");
            }
        }
    }
    if loose_matches(str, yes.as_slice()) {
        return Some(true);
    }
    if loose_matches(str, no.as_slice()) {
        return Some(false);
    }
    None
}

/// What an answer to a question that may be skipped says.
#[derive(Clone, Copy, Debug, PartialEq, Eq, Structural)]
pub enum Answer {
    /// Nothing but white space was typed: the question is skipped.
    Skipped,
    /// A yes or a no.
    Given(bool),
    /// Neither: the question has to be asked again.
    Invalid,
}

/// What `text` says in answer to a question that may be skipped.
pub open spec fn optional_answer(text: Seq<char>) -> Answer {
    if trimmed(text).len() == 0 {
        Answer::Skipped
    } else {
        match boolish(text) {
            Some(b) => Answer::Given(b),
            None => Answer::Invalid,
        }
    }
}

/// Computes [`optional_answer`].
pub fn read_optional_answer(answer: &str) -> (read: Answer)
    ensures
        read == optional_answer(answer@),
{
    if trim(answer).unicode_len() == 0 {
        return Answer::Skipped;
    }
    match str_to_boolish(answer) {
        Some(b) => Answer::Given(b),
        None => Answer::Invalid,
    }
}

/// What is to be done about a destination after the user said whether they
/// want it.
#[derive(Clone, Copy, Debug, PartialEq, Eq, Structural)]
pub enum Choice {
    /// The configuration is as the user wants it.
    Settled,
    /// The user wants the destination and there is no configuration for it
    /// yet: authorization has to be run to make one.
    Authorize,
}

/// Switches the destination of `config` on or off as the user said. A
/// destination that was never set up cannot be switched on: it has to be
/// authorized, and nothing is changed here.
pub fn choose_lastfm(config: &mut Option<Config>, enable: bool) -> (choice: Choice)
    ensures
        *old(config) matches Some(before) ==> (*final(config) matches Some(after) && after.enabled
            == enable && after.identity == before.identity && after.session_key
            == before.session_key && choice == Choice::Settled),
        *old(config) is None ==> *final(config) == *old(config) && choice == (if enable {
            Choice::Authorize
        } else {
            Choice::Settled
        }),
{
    match config {
        Some(existing) => {
            existing.enabled = enable;
            Choice::Settled
        },
        None => if enable {
            Choice::Authorize
        } else {
            Choice::Settled
        },
    }
}

/// What a line that was typed in place of an access token says.
#[derive(Debug)]
pub enum TokenEntry<'a> {
    /// The user gave up.
    Cancel,
    /// The token to try.
    Token(&'a str),
}

/// `line` without its last character, the end of the line.
pub open spec fn without_line_end(line: Seq<char>) -> Seq<char> {
    if line.len() == 0 {
        line
    } else {
        line.drop_last()
    }
}

/// Reads a line that was typed in place of an access token: the end of the
/// line is taken off, and `cancel` means giving up.
pub fn read_token_entry<'a>(line: &'a str) -> (entry: TokenEntry<'a>)
    ensures
        without_line_end(line@) == "cancel"@ ==> entry is Cancel,
        without_line_end(line@) != "cancel"@ ==> (entry matches TokenEntry::Token(token) && token@
            == without_line_end(line@)),
{
    let length = line.unicode_len();
    let token = if length == 0 {
        line
    } else {
        line.substring_char(0, length - 1)
    };
    if same_text(token, "cancel") {
        TokenEntry::Cancel
    } else {
        TokenEntry::Token(token)
    }
}

} // verus!
