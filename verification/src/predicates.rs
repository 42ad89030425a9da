//! Ready-made predicates for the dispatch registry.

use crate::client::SlackEnvelope;
use vstd::prelude::*;
use vstd::std_specs::iter::IteratorSpec;

verus! {

/// The user id that `contains_spaces` takes for the bot's own.
pub open spec fn bot_id() -> Seq<char> {
    "alpha-numeric"@
}

/// Whether `wanted` occurs in `text`.
pub fn contains_char(text: &str, wanted: char) -> (r: bool)
    ensures
        r == text@.contains(wanted),
{
    broadcast use vstd::string::group_string_axioms;

    let mut rest = text.chars();
    let ghost mut seen: int = 0;
    loop
        invariant
            0 <= seen <= text@.len(),
            rest.remaining() == text@.skip(seen),
            forall|j: int| 0 <= j < seen ==> text@[j] != wanted,
        decreases text@.len() - seen,
    {
        match rest.next() {
            Some(c) => {
                assert(c == text@[seen]);
                if c == wanted {
                    return true;
                }
                proof {
                    assert(text@.skip(seen).drop_first() =~= text@.skip(seen + 1));
                    seen = seen + 1;
                }
            },
            None => {
                return false;
            },
        }
    }
}

/// Accepts a message that holds a space, unless the bot itself wrote it: a
/// bot that answered its own messages would never stop.
pub fn contains_spaces(event: &SlackEnvelope) -> (r: bool)
    ensures
        r == (event@.payload.event.user != bot_id() && event@.payload.event.text.contains(' ')),
{
    let message = event.payload().event();
    let bot = "alpha-numeric".to_owned();
    if message.user != bot {
        return contains_char(message.text.as_str(), ' ');
    }
    false
}

} // verus!
