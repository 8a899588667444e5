//! One DAB multiplex frame as handed from the pipeline to its consumers
//! (ETSI EN 300 401 §3.2): the FIC bytes of the CIF, the CIF counter and
//! the decoded payload of every active sub-channel.

use vstd::prelude::*;
use std::sync::Arc;
use smallvec::SmallVec;

verus! {

/// Sub-channels held without a heap allocation.
pub const INLINE_SUBCH: usize = 8;

/// Payload of one active sub-channel after deconvolution and descrambling.
#[derive(Debug, Clone)]
pub struct SubchannelFrame {
    /// Sub-channel identifier (0..=63).
    pub subchid: u8,
    /// Packed payload bytes.
    pub data: Arc<[u8]>,
}

/// The sub-channels of a frame, kept inline for up to eight entries.
#[verifier::external_body]
#[derive(Debug)]
pub struct SubchannelList {
    items: SmallVec<[SubchannelFrame; 8]>,
}

/// What the list holds: (sub-channel id, payload) per entry, in order.
pub uninterp spec fn subchannel_entries(v: SubchannelList) -> Seq<(u8, Seq<u8>)>;

impl SubchannelList {
    /// `SmallVec::new`: an empty list.
    #[verifier::external_body]
    pub fn new() -> (v: Self)
        ensures subchannel_entries(v) == Seq::<(u8, Seq<u8>)>::empty(),
    {
        SubchannelList { items: SmallVec::new() }
    }

    /// `SmallVec::push`: appends the item at the end.
    #[verifier::external_body]
    pub fn push(&mut self, item: SubchannelFrame)
        ensures subchannel_entries(*final(self)) == subchannel_entries(*old(self)).push((item.subchid, item.data@)),
    {
        self.items.push(item)
    }

    /// `SmallVec::len`: the number of entries.
    #[verifier::external_body]
    pub fn len(&self) -> (n: usize)
        ensures n == subchannel_entries(*self).len(),
    {
        self.items.len()
    }

    /// Indexing the `SmallVec`: entry `i`.
    #[verifier::external_body]
    pub fn get(&self, i: usize) -> (r: &SubchannelFrame)
        requires i < subchannel_entries(*self).len(),
        ensures (r.subchid, r.data@) == subchannel_entries(*self)[i as int],
    {
        &self.items[i]
    }

    /// `SmallVec::spilled`: whether the entries moved to the heap. More
    /// than eight entries never fit inline; below that the answer depends on
    /// the allocation history, which is not modelled.
    #[verifier::external_body]
    pub fn spilled(&self) -> (s: bool)
        ensures subchannel_entries(*self).len() > 8 ==> s,
    {
        self.items.spilled()
    }
}

/// `std::sync::Arc::from(&[u8])`: a shared slice holding a copy of the bytes.
#[verifier::external_body]
pub(crate) fn arc_from_bytes(bytes: &[u8]) -> (a: Arc<[u8]>)
    ensures a@ == bytes@,
{
    Arc::from(bytes)
}

/// One frame: FIC bytes, CIF counter and sub-channel payloads.
#[derive(Debug)]
pub struct DabFrame {
    /// The three FIBs of the CIF, packed (96 bytes).
    pub fic_data: Box<[u8; 96]>,
    /// CIF count, high part (0..=19).
    pub cif_count_hi: u8,
    /// CIF count, low part (0..=249).
    pub cif_count_lo: u8,
    /// Active sub-channels, in the order they were pushed.
    pub subchannels: SubchannelList,
    /// The block sequence was broken right before this frame.
    pub sync_lost: bool,
}

impl DabFrame {
    /// A frame with the given FIC bytes and counter and no sub-channels.
    pub fn new(fic_data: [u8; 96], cif_count_hi: u8, cif_count_lo: u8) -> (f: Self)
        ensures
            f.fic_data@ == fic_data@,
            f.cif_count_hi == cif_count_hi,
            f.cif_count_lo == cif_count_lo,
            subchannel_entries(f.subchannels) == Seq::<(u8, Seq<u8>)>::empty(),
            !f.sync_lost,
    {
        DabFrame {
            fic_data: Box::new(fic_data),
            cif_count_hi,
            cif_count_lo,
            subchannels: SubchannelList::new(),
            sync_lost: false,
        }
    }

    /// Append the payload of a sub-channel.
    pub fn push_subchannel(&mut self, subchid: u8, data: Arc<[u8]>)
        ensures
            subchannel_entries(final(self).subchannels) == subchannel_entries(old(self).subchannels).push((subchid, data@)),
            final(self).fic_data == old(self).fic_data,
            final(self).cif_count_hi == old(self).cif_count_hi,
            final(self).cif_count_lo == old(self).cif_count_lo,
            final(self).sync_lost == old(self).sync_lost,
    {
        self.subchannels.push(SubchannelFrame { subchid, data });
    }

    /// The payload of the first entry for `subchid`, if any.
    pub fn subchannel_data(&self, subchid: u8) -> (r: Option<&Arc<[u8]>>)
        ensures
            match r {
                Some(d) => exists|i: int| 0 <= i < subchannel_entries(self.subchannels).len()
                    && subchannel_entries(self.subchannels)[i].0 == subchid
                    && subchannel_entries(self.subchannels)[i].1 == d@
                    && forall|j: int| 0 <= j < i ==> (#[trigger] subchannel_entries(self.subchannels)[j]).0 != subchid,
                None => forall|j: int| 0 <= j < subchannel_entries(self.subchannels).len()
                    ==> (#[trigger] subchannel_entries(self.subchannels)[j]).0 != subchid,
            },
    {
        let n = self.subchannels.len();
        let mut i: usize = 0;
        while i < n
            invariant
                i <= n,
                n == subchannel_entries(self.subchannels).len(),
                forall|j: int| 0 <= j < i ==> (#[trigger] subchannel_entries(self.subchannels)[j]).0 != subchid,
            decreases n - i,
        {
            let s = self.subchannels.get(i);
            if s.subchid == subchid {
                return Some(&s.data);
            }
            i = i + 1;
        }
        None
    }
}

} // verus!
