//! The message protocol and the key binding table.
//!
//! Messages are immutable once constructed and carry everything their
//! consumer needs; no consumer reaches back into the sender's state.

use vstd::prelude::*;

verus! {

/// Direction of a selection movement.
#[derive(PartialEq, Debug, Clone, Copy)]
pub enum MoveDirection {
    Up,
    Down,
}

/// A decoded key symbol, as the input layer hands it to the core.
#[derive(PartialEq, Debug, Clone, Copy)]
pub enum Key {
    Char(char),
    Up,
    Down,
}

/// The closed set of messages exchanged between the three contexts.
///
/// `Move`, `Enter`, `Fetch` and `Shutdown` are issued by the input
/// listener; `Checkout` and `FetchRequested` by the reactor for the
/// worker; `Progress` and `Error` by the worker back to the reactor.
#[derive(PartialEq, Debug)]
pub enum Message {
    /// Move the selection one step.
    Move { direction: MoveDirection },
    /// Check the selected branch out.
    Enter,
    /// Fetch the selected branch from the remote.
    Fetch,
    /// End the session.
    Shutdown,
    /// Worker request: check out the branch at this index of a fresh listing.
    Checkout { selected: usize },
    /// Worker request: fetch the branch at this index of a fresh listing.
    FetchRequested { selected: usize },
    /// Progress of the running checkout, as a percentage and a path label.
    Progress { percent: u16, label: String },
    /// A repository operation failed; the text is shown to the operator.
    Error { message: String },
}

/// The value placed on a channel; carries exactly one message.
#[derive(PartialEq, Debug)]
pub struct Envelope {
    pub s: Message,
}

/// The command bound to a key symbol; `None` for an unbound key.
pub open spec fn key_command(evt: Key) -> Option<Message> {
    match evt {
        Key::Char(c) => if c == 'j' {
            Some(Message::Move { direction: MoveDirection::Down })
        } else if c == 'k' {
            Some(Message::Move { direction: MoveDirection::Up })
        } else if c == '\n' {
            Some(Message::Enter)
        } else if c == 'f' {
            Some(Message::Fetch)
        } else if c == 'q' {
            Some(Message::Shutdown)
        } else {
            None
        },
        Key::Down => Some(Message::Move { direction: MoveDirection::Down }),
        Key::Up => Some(Message::Move { direction: MoveDirection::Up }),
    }
}

/// Translates one key symbol into at most one command envelope.
///
/// Total over all key symbols: every bound key yields exactly its bound
/// command, every unbound key yields nothing and is silently dropped.
pub fn handle_event(evt: Key) -> (r: Option<Envelope>)
    ensures
        r is Some <==> key_command(evt) is Some,
        r matches Some(e) ==> key_command(evt) == Some(e.s),
{
    match evt {
        Key::Char('j') | Key::Down => Some(
            Envelope { s: Message::Move { direction: MoveDirection::Down } },
        ),
        Key::Char('k') | Key::Up => Some(
            Envelope { s: Message::Move { direction: MoveDirection::Up } },
        ),
        Key::Char('\n') => Some(Envelope { s: Message::Enter }),
        Key::Char('f') => Some(Envelope { s: Message::Fetch }),
        Key::Char('q') => Some(Envelope { s: Message::Shutdown }),
        _ => None,
    }
}

} // verus!
