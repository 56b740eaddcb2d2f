//! The text a user receives when a reminder falls due.

use vstd::prelude::*;

verus! {

/// Sent in place of a reminder that holds no message.
pub const FALLBACK: &'static str = "Hello! You asked me to remind you of something at this time,\nbut you didn't specify what!";

/// Precedes the message of a reminder.
pub const REMINDER_PREFIX: &'static str = "Hello! You asked me to remind you of the following: ";

/// The text sent for a reminder with message `m`.
pub open spec fn reminder_text_of(m: Seq<char>) -> Seq<char> {
    if m.len() == 0 {
        FALLBACK@
    } else {
        REMINDER_PREFIX@ + m
    }
}

/// The text sent for a reminder with message `message`: the fixed fallback
/// when it is empty, else the message verbatim after a fixed greeting.
pub fn reminder_text(message: &str) -> (r: String)
    ensures
        r@ == reminder_text_of(message@),
{
    if message.is_empty() {
        String::from_str(FALLBACK)
    } else {
        String::from_str(REMINDER_PREFIX).concat(message)
    }
}

/// A non-empty message appears whole, and unchanged, in the text sent for it.
pub proof fn lemma_text_holds_message(m: Seq<char>)
    requires
        m.len() > 0,
    ensures
        reminder_text_of(m).subrange(
            REMINDER_PREFIX@.len() as int,
            reminder_text_of(m).len() as int,
        ) == m,
{
    assert(reminder_text_of(m).subrange(
        REMINDER_PREFIX@.len() as int,
        reminder_text_of(m).len() as int,
    ) =~= m);
}

/// A message to send: to whom, and what.
#[derive(Debug)]
pub struct Delivery {
    pub user_id: String,
    pub text: String,
}

impl View for Delivery {
    type V = (Seq<char>, Seq<char>);

    open spec fn view(&self) -> (Seq<char>, Seq<char>) {
        (self.user_id@, self.text@)
    }
}

} // verus!
