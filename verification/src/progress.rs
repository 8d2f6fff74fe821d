//! The progress hand-off: a bounded, non-blocking channel carrying
//! `(completed, total)` signals from the ingestion worker to whichever
//! consumer polls it. Delivery is best-effort on both ends: a full slot drops
//! the signal, an empty channel returns nothing, and neither side ever blocks.

use vstd::prelude::*;

verus! {

/// A transient progress signal: how many paths of the batch have been
/// processed so far, out of how many in total.
#[derive(Clone, Copy, Debug, PartialEq, Eq)]
pub struct ProgressSignal {
    pub completed: usize,
    pub total: usize,
}

/// Declares futures::channel::mpsc::Sender, the channel's producing end,
/// which the worker holds; its values are opaque here.
#[verifier::external_type_specification]
#[verifier::external_body]
#[verifier::reject_recursive_types(T)]
pub struct ExSender<T>(futures::channel::mpsc::Sender<T>);

/// Declares futures::channel::mpsc::Receiver, the channel's consuming end,
/// which the session owns; its values are opaque here.
#[verifier::external_type_specification]
#[verifier::external_body]
#[verifier::reject_recursive_types(T)]
pub struct ExReceiver<T>(futures::channel::mpsc::Receiver<T>);

/// Relies on futures::channel::mpsc::channel: a bounded channel whose
/// capacity is one buffered slot plus one slot per sender.
#[verifier::external_body]
pub(crate) fn progress_channel() -> (futures::channel::mpsc::Sender<ProgressSignal>, futures::channel::mpsc::Receiver<ProgressSignal>) {
    futures::channel::mpsc::channel(1)
}

/// Relies on Sender::try_send: places the signal if a slot is free and fails
/// immediately otherwise; it never blocks. Which of the two happens depends
/// on the receiving end, so nothing is assumed of the outcome.
#[verifier::external_body]
pub(crate) fn try_send_progress(
    tx: &mut futures::channel::mpsc::Sender<ProgressSignal>,
    signal: ProgressSignal,
) -> (delivered: bool) {
    tx.try_send(signal).is_ok()
}

/// Relies on Receiver::try_recv: returns a pending signal, or nothing when
/// the channel is empty or closed; it never blocks. What arrives depends on
/// the sending side, so nothing is assumed of the value.
#[verifier::external_body]
pub(crate) fn try_recv_progress(
    rx: &mut futures::channel::mpsc::Receiver<ProgressSignal>,
) -> (r: Option<ProgressSignal>) {
    match rx.try_recv() {
        Ok(signal) => Some(signal),
        Err(_) => None,
    }
}

} // verus!
