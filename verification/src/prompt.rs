//! The answer to the question whether the watcher should exit.

use vstd::prelude::*;
use vstd::string::*;

verus! {

/// The lower-case form of a text, as the standard library computes it.
pub uninterp spec fn lowercase_of(text: Seq<char>) -> Seq<char>;

/// `str::to_lowercase`.  Trusted: the result is the lower-case form of the
/// text and depends on nothing else.
#[verifier::external_body]
fn lowercase(text: &str) -> (lowered: String)
    ensures
        lowered@ == lowercase_of(text@),
{
    text.to_lowercase()
}

/// What the user typed: the line as it was read, without the line break at
/// its end and without a carriage return before that line break.  A line
/// that does not end in a line break is taken whole.
pub open spec fn response_of(line: Seq<char>) -> Seq<char> {
    if line.len() > 0 && line.last() == '\n' {
        let body = line.drop_last();
        if body.len() > 0 && body.last() == '\r' {
            body.drop_last()
        } else {
            body
        }
    } else {
        line
    }
}

/// A response confirms when it is empty, or when its lower-case form begins
/// with the letter y.
pub open spec fn affirmative(response: Seq<char>, lowered: Seq<char>) -> bool {
    response.len() == 0 || (lowered.len() > 0 && lowered[0] == 'y')
}

/// Whether the line read in reply to the exit question confirms the exit:
/// whether what the user typed is empty or begins with y or Y.  Enter alone
/// confirms, and so does the end of the input.
pub open spec fn confirms(line: Seq<char>) -> bool {
    affirmative(response_of(line), lowercase_of(response_of(line)))
}

/// What the user typed on the line.
pub fn response<'a>(line: &'a str) -> (typed: &'a str)
    ensures
        typed@ == response_of(line@),
{
    let mut end: usize = line.unicode_len();
    if end > 0 && line.get_char(end - 1) == '\n' {
        end = end - 1;
        if end > 0 && line.get_char(end - 1) == '\r' {
            end = end - 1;
        }
    }
    let typed = line.substring_char(0, end);
    assert(typed@ =~= response_of(line@));
    typed
}

/// Decides on a line as it was read, `lowered` being the lower-case form of
/// what the user typed on it.
pub fn is_affirmative(line: &str, lowered: &str) -> (r: bool)
    ensures
        r == affirmative(response_of(line@), lowered@),
{
    if response(line).unicode_len() == 0 {
        true
    } else {
        lowered.unicode_len() > 0 && lowered.get_char(0) == 'y'
    }
}

/// Whether the line read in reply to the exit question confirms the exit.
/// The line is handed over as it was read, with its line break if it has
/// one.
pub fn confirms_exit(line: &str) -> (r: bool)
    ensures
        r == confirms(line@),
{
    let lowered = lowercase(response(line));
    is_affirmative(line, lowered.as_str())
}

/// Enter alone confirms: a line that holds nothing but its line break, with
/// or without a carriage return, is an empty response.  So is the end of the
/// input.
pub proof fn lemma_enter_confirms()
    ensures
        confirms(seq!['\n']),
        confirms(seq!['\r', '\n']),
        confirms(Seq::empty()),
{
    assert(seq!['\n'].drop_last() =~= Seq::<char>::empty());
    assert(seq!['\r', '\n'].drop_last() =~= seq!['\r']);
    assert(seq!['\r'].drop_last() =~= Seq::<char>::empty());
    assert(response_of(seq!['\n']).len() == 0);
    assert(response_of(seq!['\r', '\n']).len() == 0);
}

} // verus!
