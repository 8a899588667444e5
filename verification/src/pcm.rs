//! PCM output: S16LE encoding of interleaved samples and the non-blocking
//! queue that hands decoded frames to the writer thread.

use vstd::prelude::*;
use std::sync::mpsc::{SyncSender, Receiver, TrySendError};

verus! {

/// Capacity of the PCM output queue in frames (about 4 s of HE-AAC v2).
pub const PCM_QUEUE_CAPACITY: usize = 100;

/// Little-endian bytes of a sample: low byte first.
pub open spec fn le_byte(s: i16, k: int) -> u8 {
    if k == 0 { ((s as u16) % 256) as u8 } else { ((s as u16) / 256) as u8 }
}

/// Raw S16LE bytes of interleaved samples: two bytes per sample, low byte
/// first.
pub fn encode_s16le(samples: &[i16]) -> (bytes: Vec<u8>)
    requires samples@.len() * 2 <= usize::MAX,
    ensures
        bytes@.len() == 2 * samples@.len(),
        forall|i: int| 0 <= i < samples@.len() ==> #[trigger] bytes@[2 * i] == le_byte(samples@[i], 0) && bytes@[2 * i + 1] == le_byte(samples@[i], 1),
{
    let mut bytes: Vec<u8> = Vec::new();
    let mut i: usize = 0;
    while i < samples.len()
        invariant
            i <= samples@.len(),
            bytes@.len() == 2 * i,
            forall|t: int| 0 <= t < i ==> #[trigger] bytes@[2 * t] == le_byte(samples@[t], 0) && bytes@[2 * t + 1] == le_byte(samples@[t], 1),
        decreases samples@.len() - i,
    {
        let u = samples[i] as u16;
        let lo = (u & 0xFF) as u8;
        let hi = (u >> 8) as u8;
        assert(lo == ((u as u16) % 256) as u8) by (bit_vector) requires lo == (u & 0xFFu16) as u8;
        assert(hi == ((u as u16) / 256) as u8) by (bit_vector) requires hi == (u >> 8u16) as u8;
        let ghost before = bytes@;
        bytes.push(lo);
        bytes.push(hi);
        assert forall|t: int| 0 <= t < i + 1 implies #[trigger] bytes@[2 * t] == le_byte(samples@[t], 0) && bytes@[2 * t + 1] == le_byte(samples@[t], 1) by {
            if t < i {
                assert(bytes@[2 * t] == before[2 * t]);
                assert(bytes@[2 * t + 1] == before[2 * t + 1]);
            } else {
                assert(bytes@[2 * t] == lo);
                assert(bytes@[2 * t + 1] == hi);
            }
        }
        i = i + 1;
    }
    bytes
}

#[verifier::external_type_specification]
#[verifier::external_body]
#[verifier::reject_recursive_types(T)]
pub struct ExSyncSender<T>(SyncSender<T>);

#[verifier::external_type_specification]
#[verifier::external_body]
#[verifier::reject_recursive_types(T)]
pub struct ExReceiver<T>(Receiver<T>);

/// How an attempt to queue a frame ended.
#[derive(Debug, Clone, Copy, PartialEq, Eq, Structural)]
pub enum SendOutcome {
    Sent,
    Full,
    Disconnected,
}

/// `SyncSender::try_send`: queue the frame without blocking. Whether there
/// was room, or a receiver at all, depends on the other thread at run time.
#[verifier::external_body]
fn try_send_frame(tx: &SyncSender<Vec<i16>>, frame: Vec<i16>) -> (r: SendOutcome)
{
    match tx.try_send(frame) {
        Ok(()) => SendOutcome::Sent,
        Err(TrySendError::Full(_)) => SendOutcome::Full,
        Err(TrySendError::Disconnected(_)) => SendOutcome::Disconnected,
    }
}

/// `std::sync::mpsc::sync_channel`: a bounded queue of `capacity` frames.
#[verifier::external_body]
fn frame_channel(capacity: usize) -> (r: (SyncSender<Vec<i16>>, Receiver<Vec<i16>>))
{
    std::sync::mpsc::sync_channel(capacity)
}

/// Whether an attempt to queue a frame queued it.
pub fn frame_queued(outcome: SendOutcome) -> (queued: bool)
    ensures queued == (outcome == SendOutcome::Sent),
{
    match outcome {
        SendOutcome::Sent => true,
        SendOutcome::Full => false,
        SendOutcome::Disconnected => false,
    }
}

/// Non-blocking handle to the PCM writer's queue.
pub struct PcmWriter {
    tx: SyncSender<Vec<i16>>,
}

impl PcmWriter {
    /// The sending end of the queue that this writer feeds.
    pub closed spec fn sender(&self) -> SyncSender<Vec<i16>> {
        self.tx
    }

    /// A writer feeding the queue behind `tx`.
    pub fn new(tx: SyncSender<Vec<i16>>) -> (w: Self)
        ensures w.sender() == tx,
    {
        PcmWriter { tx }
    }

    /// Queue a frame without blocking; whether it was queued. A full queue
    /// or a writer that has gone away drops the frame; which of these
    /// happens depends on the writer thread.
    pub fn push(&self, frame: Vec<i16>) -> (queued: bool)
    {
        frame_queued(try_send_frame(&self.tx, frame))
    }

    /// A writer on an in-memory queue of `capacity` frames, and the
    /// receiving end of that queue.
    pub fn new_for_test(capacity: usize) -> (r: (Self, Receiver<Vec<i16>>))
    {
        let (tx, rx) = frame_channel(capacity);
        (PcmWriter::new(tx), rx)
    }
}

} // verus!
