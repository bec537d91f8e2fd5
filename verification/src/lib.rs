//! Coordination core of an interactive branch switcher.
//!
//! The library holds the verified logic of the switcher: the message
//! protocol exchanged between the input listener, the worker and the UI
//! reactor; the key binding table; the reactor's state machine; the
//! worker's decisions; and the ordering of the branch listing. Terminal
//! I/O and the calls into the repository are made by the surrounding
//! application, which hands the core plain values and carries its
//! decisions out.

pub mod branches;
pub mod protocol;
pub mod reactor;
pub mod worker;
