//! Decisions of the worker context.
//!
//! The worker is the single consumer of the work channel and the sole
//! owner of the repository handle, so at most one repository operation is
//! ever in flight. The functions here are its pure part: resolving a
//! request against a fresh branch listing, and turning the checkout's
//! progress reports into the messages sent back to the reactor.

use vstd::prelude::*;
use crate::protocol::Message;

verus! {

/// What the worker does for one request from the work channel.
#[derive(PartialEq, Debug)]
pub enum WorkAction {
    /// Check this branch out, reporting progress.
    DoCheckout { branch: String },
    /// Fetch this ref from the remote named "origin".
    DoFetch { refspec: String },
    /// The selected index is not in the fresh listing: report a failure
    /// instead of touching the repository.
    Reject,
    /// Not a worker request; do nothing.
    Ignore,
}

/// Resolves one request against a fresh branch listing, at the moment the
/// worker takes the request up. The branch name is fixed here: later
/// moves of the selection cannot change what is checked out or fetched.
///
/// A request whose index is outside the listing is rejected; any other
/// message is ignored.
pub fn plan_work(msg: &Message, branches: &Vec<String>) -> (a: WorkAction)
    ensures
        (match msg {
            Message::Checkout { selected } => if (selected as int) < branches@.len() {
                a == (WorkAction::DoCheckout { branch: branches@[selected as int] })
            } else {
                a == WorkAction::Reject
            },
            Message::FetchRequested { selected } => if (selected as int) < branches@.len() {
                a == (WorkAction::DoFetch { refspec: branches@[selected as int] })
            } else {
                a == WorkAction::Reject
            },
            _ => a == WorkAction::Ignore,
        }),
{
    match msg {
        Message::Checkout { selected } => {
            if *selected < branches.len() {
                WorkAction::DoCheckout { branch: branches[*selected].clone() }
            } else {
                WorkAction::Reject
            }
        },
        Message::FetchRequested { selected } => {
            if *selected < branches.len() {
                WorkAction::DoFetch { refspec: branches[*selected].clone() }
            } else {
                WorkAction::Reject
            }
        },
        _ => WorkAction::Ignore,
    }
}

/// Percentage, rounded to the nearest unit, that `completed` is of
/// `total`, clamped to one hundred.
///
/// A report with no total yields zero: such a report measures nothing,
/// and completion is announced separately by the terminal report.
pub open spec fn percent_spec(completed: nat, total: nat) -> nat {
    if total == 0 {
        0
    } else {
        let rounded = (completed * 100 + total / 2) / total;
        if rounded > 100 {
            100
        } else {
            rounded
        }
    }
}

/// Percentage shown for a progress report of `completed` steps out of
/// `total`.
pub fn progress_percent(completed: usize, total: usize) -> (p: u16)
    ensures
        p == percent_spec(completed as nat, total as nat),
        p <= 100,
{
    if total == 0 {
        0
    } else {
        let c: u128 = completed as u128;
        let t: u128 = total as u128;
        let rounded: u128 = (c * 100 + t / 2) / t;
        if rounded > 100 {
            100
        } else {
            rounded as u16
        }
    }
}

/// The message the worker sends for one progress report of the running
/// checkout. A report that names no path is labelled "No Path".
pub fn progress_message(path: Option<String>, completed: usize, total: usize) -> (m: Message)
    ensures
        m matches Message::Progress { percent, label }
            && percent == percent_spec(completed as nat, total as nat)
            && (match path {
            Some(p) => label == p,
            None => label@ == "No Path"@,
        }),
{
    let percent = progress_percent(completed, total);
    let label = match path {
        Some(p) => p,
        None => "No Path".to_owned(),
    };
    Message::Progress { percent, label }
}

/// The terminal message the worker sends after the checkout call returns,
/// whether or not the call reported any progress of its own: the reactor
/// is guaranteed to see completion.
pub fn completion_message() -> (m: Message)
    ensures
        m matches Message::Progress { percent, label } && percent == 100 && label@
            == Seq::<char>::empty(),
{
    Message::Progress { percent: 100, label: String::new() }
}

} // verus!
