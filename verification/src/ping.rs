//! The `ping` command: an owner of the bot is answered with the time that
//! a message takes to be sent.

use crate::text::{decimal, to_decimal};
use vstd::prelude::*;
use vstd::string::StringExecFns;

verus! {

/// What the command is told of.
pub enum PingEvent {
    /// `author` has given the command; `owners` are the owners of the bot.
    Asked { owners: Vec<u64>, author: u64 },
    /// The first answer went out, or failed to; sending it took `millis`
    /// milliseconds.
    Said { sent: bool, millis: u64 },
}

/// What the command wants done.
#[derive(Debug, PartialEq, Eq)]
pub enum PingAction {
    /// Nothing.
    Nothing,
    /// Send a message with this text, and take the time it needs.
    Say(String),
    /// Replace the text of the message that was sent by this one.
    Edit(String),
}

/// Whether `author` is one of `owners`.
pub fn owner_check(owners: &Vec<u64>, author: u64) -> (owner: bool)
    ensures
        owner == owners@.contains(author),
{
    let mut i: usize = 0;
    while i < owners.len()
        invariant
            i <= owners.len(),
            forall|k: int| 0 <= k < i ==> owners@[k] != author,
        decreases owners.len() - i,
    {
        if owners[i] == author {
            return true;
        }
        i += 1;
    }
    false
}

/// The answer that tells how long the first one took.
pub open spec fn pong_text(millis: u64) -> Seq<char> {
    "Pong, "@ + decimal(millis as nat) + " milliseconds"@
}

/// What the command wants done after an event.
pub open spec fn ping_action(event: PingEvent) -> PingActionView {
    match event {
        PingEvent::Asked { owners, author } => if owners@.contains(author) {
            PingActionView::Say("0"@)
        } else {
            PingActionView::Nothing
        },
        PingEvent::Said { sent, millis } => if sent {
            PingActionView::Edit(pong_text(millis))
        } else {
            PingActionView::Nothing
        },
    }
}

/// What an action stands for.
pub enum PingActionView {
    Nothing,
    Say(Seq<char>),
    Edit(Seq<char>),
}

impl View for PingAction {
    type V = PingActionView;

    open spec fn view(&self) -> PingActionView {
        match self {
            PingAction::Nothing => PingActionView::Nothing,
            PingAction::Say(text) => PingActionView::Say(text@),
            PingAction::Edit(text) => PingActionView::Edit(text@),
        }
    }
}

/// The `ping` command, step by step. Asked by an owner, it has a first
/// message sent; once that is out, it has the message say how long the
/// sending took. Anyone else gets no answer.
pub fn handler(event: PingEvent) -> (action: PingAction)
    ensures
        action@ == ping_action(event),
{
    match event {
        PingEvent::Asked { owners, author } => {
            if owner_check(&owners, author) {
                PingAction::Say("0".to_owned())
            } else {
                PingAction::Nothing
            }
        },
        PingEvent::Said { sent, millis } => {
            if sent {
                let mut text = "Pong, ".to_owned();
                text.append(to_decimal(millis).as_str());
                text.append(" milliseconds");
                PingAction::Edit(text)
            } else {
                PingAction::Nothing
            }
        },
    }
}

} // verus!
