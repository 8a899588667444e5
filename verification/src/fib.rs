//! FIB processing (ETSI EN 300 401 §5.2, §6, §8): parsing of the FIGs
//! carried in one Fast Information Block and the ensemble database they
//! build: sub-channel organisation (FIG 0/1), service organisation
//! (FIG 0/2), the CIF counter (FIG 0/0) and labels (FIG 1/0, 1/1, 1/5).
//!
//! The decoder announces labels as events instead of calling back.

use vstd::prelude::*;
use std::collections::HashMap;
use crate::bits::{bits_value, get_bits, get_lbits, ChannelData, lemma_bits_value_bound};
use crate::ebu_latin::{ebu_latin, ebu_to_char};
use crate::labels::{valid_label, is_valid_label, string_from_chars};
use crate::protection::{eep_params_ok, eep_mask, eep_capacity_units, lemma_eep_mask_transmits_subchannel_size};
use crate::counting::{count_true, count_where};
use vstd::arithmetic::power2::{pow2, lemma2_to64};

verus! {

broadcast use vstd::std_specs::hash::group_hash_axioms;

/// FIG header fields (ETSI EN 300 401 §5.2.2).
#[derive(Clone, Copy, Debug, PartialEq, Eq)]
pub struct FigHeader {
    pub fig_type: u8,
    pub length: usize,
    pub cn_flag: bool,
    pub oe_flag: bool,
    pub pd_flag: bool,
    pub extension: u8,
}

impl FigHeader {
    /// First bit after the FIG that starts at bit `base`.
    pub fn fig_end_bit(self, base: usize) -> (e: usize)
        requires base + (self.length + 1) * 8 <= usize::MAX,
        ensures e == base + (self.length + 1) * 8,
    {
        base + (self.length + 1) * 8
    }
}

pub open spec fn bv(d: Seq<u8>, off: int, n: nat) -> nat {
    bits_value(d, off, n)
}

/// The header of the FIG starting at bit `base`: absent when fewer than 8
/// bits remain; type and length only when the second byte is missing.
pub open spec fn fig_header_spec(d: Seq<u8>, base: int) -> Option<FigHeader> {
    if base + 8 > d.len() {
        None
    } else {
        let t = bv(d, base, 3) as u8;
        let len = bv(d, base + 3, 5) as usize;
        if base + 16 > d.len() {
            Some(FigHeader { fig_type: t, length: len, cn_flag: false, oe_flag: false, pd_flag: false, extension: 0 })
        } else if t == 0 {
            Some(FigHeader {
                fig_type: t, length: len,
                cn_flag: bv(d, base + 8, 1) == 1,
                oe_flag: bv(d, base + 9, 1) == 1,
                pd_flag: bv(d, base + 10, 1) == 1,
                extension: bv(d, base + 11, 5) as u8,
            })
        } else if t == 1 {
            Some(FigHeader {
                fig_type: t, length: len, cn_flag: false,
                oe_flag: bv(d, base + 12, 1) == 1,
                pd_flag: false,
                extension: bv(d, base + 13, 3) as u8,
            })
        } else {
            Some(FigHeader { fig_type: t, length: len, cn_flag: false, oe_flag: false, pd_flag: false, extension: 0 })
        }
    }
}

proof fn lemma_bv_small(d: Seq<u8>, off: int, n: nat)
    requires n <= 8,
    ensures bv(d, off, n) < 256, bv(d, off, n) < pow2(n),
{
    lemma_bits_value_bound(d, off, n);
    if n < 8 {
        vstd::arithmetic::power2::lemma_pow2_strictly_increases(n, 8);
    }
    lemma2_to64();
}

/// Parse the FIG header at bit `base`.
pub fn parse_fig_header(bits: &[u8], base: usize) -> (h: Option<FigHeader>)
    requires base + 16 <= usize::MAX,
    ensures h == fig_header_spec(bits@, base as int),
{
    proof {
        lemma_bv_small(bits@, base as int, 3);
        lemma_bv_small(bits@, base + 3, 5);
        lemma_bv_small(bits@, base + 11, 5);
        lemma_bv_small(bits@, base + 13, 3);
    }
    if base + 8 > bits.len() {
        return None;
    }
    let fig_type = get_bits(bits, base, 3) as u8;
    let length = get_bits(bits, base + 3, 5) as usize;
    if base + 16 > bits.len() {
        return Some(FigHeader { fig_type, length, cn_flag: false, oe_flag: false, pd_flag: false, extension: 0 });
    }
    if fig_type == 0 {
        Some(FigHeader {
            fig_type, length,
            cn_flag: get_bits(bits, base + 8, 1) == 1,
            oe_flag: get_bits(bits, base + 9, 1) == 1,
            pd_flag: get_bits(bits, base + 10, 1) == 1,
            extension: get_bits(bits, base + 11, 5) as u8,
        })
    } else if fig_type == 1 {
        Some(FigHeader {
            fig_type, length, cn_flag: false,
            oe_flag: get_bits(bits, base + 12, 1) == 1,
            pd_flag: false,
            extension: get_bits(bits, base + 13, 3) as u8,
        })
    } else {
        Some(FigHeader { fig_type, length, cn_flag: false, oe_flag: false, pd_flag: false, extension: 0 })
    }
}

// ── labels ───────────────────────────────────────────────────────────────

/// Characters of the 16-byte label field at `start`, skipping zero bytes.
pub open spec fn label_chars(d: Seq<u8>, start: int, n: nat) -> Seq<char>
    decreases n,
{
    if n == 0 {
        Seq::empty()
    } else {
        let prev = label_chars(d, start, (n - 1) as nat);
        let ch = bv(d, start + 8 * (n - 1), 8) as u8;
        if ch != 0 { prev.push(ebu_latin(ch)) } else { prev }
    }
}

pub open spec fn decode_label(d: Seq<u8>, start: int) -> Seq<char> {
    label_chars(d, start, 16)
}

/// The bytes of the 16-byte label field at `start` that hold a character.
pub open spec fn label_byte_present(d: Seq<u8>, start: int) -> spec_fn(int) -> bool {
    |i: int| bv(d, start + 8 * i, 8) != 0
}

/// A decoded label holds one character per non-zero byte of the whole
/// 16-byte label field, in field order (ETSI EN 300 401 §5.2.2.2.1): its
/// length is the number of non-zero bytes among bytes 0..16, and a field of
/// 16 non-zero bytes decodes to 16 characters, character `i` being the EBU
/// Latin character of byte `i`.
pub proof fn lemma_label_has_every_field_character(d: Seq<u8>, start: int)
    ensures
        decode_label(d, start).len() == count_where(label_byte_present(d, start), 0, 16),
        decode_label(d, start).len() <= 16,
        (forall|i: int| 0 <= i < 16 ==> #[trigger] bv(d, start + 8 * i, 8) != 0) ==> {
            &&& decode_label(d, start).len() == 16
            &&& forall|i: int| 0 <= i < 16 ==> #[trigger] decode_label(d, start)[i] == ebu_latin(bv(d, start + 8 * i, 8) as u8)
        },
{
    lemma_label_chars_count(d, start, 16);
    crate::counting::lemma_count_bound(label_byte_present(d, start), 0, 16);
    if forall|i: int| 0 <= i < 16 ==> #[trigger] bv(d, start + 8 * i, 8) != 0 {
        lemma_label_chars_all_present(d, start, 16);
    }
}

proof fn lemma_label_chars_count(d: Seq<u8>, start: int, n: nat)
    ensures label_chars(d, start, n).len() == count_where(label_byte_present(d, start), 0, n as int),
    decreases n,
{
    if n > 0 {
        lemma_label_chars_count(d, start, (n - 1) as nat);
        lemma_bv_small(d, start + 8 * (n - 1), 8);
        let f = label_byte_present(d, start);
        assert(f(n - 1) == (bv(d, start + 8 * (n - 1), 8) != 0));
    }
}

proof fn lemma_label_chars_all_present(d: Seq<u8>, start: int, n: nat)
    requires forall|i: int| 0 <= i < 16 ==> #[trigger] bv(d, start + 8 * i, 8) != 0, n <= 16,
    ensures
        label_chars(d, start, n).len() == n,
        forall|i: int| 0 <= i < n ==> #[trigger] label_chars(d, start, n)[i] == ebu_latin(bv(d, start + 8 * i, 8) as u8),
    decreases n,
{
    if n > 0 {
        lemma_label_chars_all_present(d, start, (n - 1) as nat);
        lemma_bv_small(d, start + 8 * (n - 1), 8);
        assert(bv(d, start + 8 * (n - 1), 8) != 0);
        assert((bv(d, start + 8 * (n - 1), 8) as u8) != 0);
    }
}

fn decode_label_chars(d: &[u8], start_bit: usize) -> (v: Vec<char>)
    requires start_bit + 128 <= usize::MAX,
    ensures v@ == decode_label(d@, start_bit as int),
{
    let mut label: Vec<char> = Vec::new();
    let mut i: usize = 0;
    while i < 16
        invariant
            i <= 16,
            start_bit + 128 <= usize::MAX,
            label@ == label_chars(d@, start_bit as int, i as nat),
        decreases 16 - i,
    {
        proof { lemma_bv_small(d@, start_bit + 8 * i, 8); }
        let ch = get_bits(d, start_bit + 8 * i, 8) as u8;
        if ch != 0 {
            label.push(ebu_to_char(ch));
        }
        i = i + 1;
    }
    label
}

// ── ensemble database ────────────────────────────────────────────────────

/// An audio service component (ETSI EN 300 401 §6.3.1).
#[derive(Clone, Copy, Debug, PartialEq, Eq)]
pub struct AudioService {
    pub subchid: u8,
    pub dab_plus: bool,
}

/// Sub-channel organisation entry.
#[derive(Clone, Copy, Debug, PartialEq, Eq)]
pub struct SubChannel {
    pub in_use: bool,
    pub id: i16,
    pub start_cu: i16,
    pub uep_flag: bool,
    pub uep_index: i16,
    pub protlev: i16,
    pub size: i16,
    pub bitrate: i16,
}

pub open spec fn empty_subchannel() -> SubChannel {
    SubChannel { in_use: false, id: 0, start_cu: 0, uep_flag: false, uep_index: 0, protlev: 0, size: 0, bitrate: 0 }
}

struct ServiceId {
    in_use: bool,
    service_id: i32,
    has_name: bool,
    label: String,
    primary_subchid: Option<u8>,
    audio_components: HashMap<u8, AudioService>,
}

/// What the database knows of one service slot.
pub ghost struct ServiceView {
    pub in_use: bool,
    pub service_id: i32,
    pub has_name: bool,
    pub label: Seq<char>,
    pub primary: Option<u8>,
    pub audio: Map<u8, AudioService>,
}

impl ServiceId {
    spec fn view(&self) -> ServiceView {
        ServiceView {
            in_use: self.in_use,
            service_id: self.service_id,
            has_name: self.has_name,
            label: self.label@,
            primary: self.primary_subchid,
            audio: self.audio_components@,
        }
    }

    fn empty() -> (s: Self)
        ensures s.view() == empty_service(),
    {
        ServiceId { in_use: false, service_id: 0, has_name: false, label: String::new(), primary_subchid: None, audio_components: HashMap::new() }
    }
}

pub open spec fn empty_service() -> ServiceView {
    ServiceView { in_use: false, service_id: 0, has_name: false, label: Seq::empty(), primary: None, audio: Map::empty() }
}

pub open spec fn fresh_service(sid: i32) -> ServiceView {
    ServiceView { in_use: true, service_id: sid, has_name: false, label: Seq::empty(), primary: None, audio: Map::empty() }
}

/// State of the ensemble database.
pub ghost struct FibView {
    pub sub_channels: Seq<SubChannel>,
    pub services: Seq<ServiceView>,
    pub cif_count_hi: i16,
    pub cif_count_lo: i16,
    pub is_synced: bool,
}

/// Label announcements produced while decoding FIG type 1.
pub enum FibEvent {
    /// Ensemble label (FIG 1/0) and ensemble identifier.
    EnsembleName { label: String, eid: u32 },
    /// Programme service label (FIG 1/1, FIG 1/5) and service identifier.
    ServiceName { label: String, sid: i32 },
}

pub ghost enum FibEventView {
    EnsembleName { label: Seq<char>, eid: u32 },
    ServiceName { label: Seq<char>, sid: i32 },
}

impl FibEvent {
    pub open spec fn view(&self) -> FibEventView {
        match self {
            FibEvent::EnsembleName { label, eid } => FibEventView::EnsembleName { label: label@, eid: *eid },
            FibEvent::ServiceName { label, sid } => FibEventView::ServiceName { label: label@, sid: *sid },
        }
    }
}

pub open spec fn events_view(v: Seq<FibEvent>) -> Seq<FibEventView> {
    Seq::new(v.len(), |i: int| v[i].view())
}

/// Viewing a concatenation of event lists is concatenating their views.
pub proof fn lemma_events_view_concat(a: Seq<FibEvent>, b: Seq<FibEvent>)
    ensures events_view(a + b) == events_view(a) + events_view(b),
{
    assert(events_view(a + b) =~= events_view(a) + events_view(b));
}

// ── service lookup ───────────────────────────────────────────────────────

/// First in-use slot at or after `i` holding service `sid` (−1: none).
pub open spec fn first_existing(sv: Seq<ServiceView>, sid: i32, i: int) -> int
    decreases 64 - i,
{
    if i >= 64 || i < 0 { -1 }
    else if sv[i].in_use && sv[i].service_id == sid { i }
    else { first_existing(sv, sid, i + 1) }
}

/// First free slot at or after `i` (−1: none).
pub open spec fn first_free(sv: Seq<ServiceView>, i: int) -> int
    decreases 64 - i,
{
    if i >= 64 || i < 0 { -1 }
    else if !sv[i].in_use { i }
    else { first_free(sv, i + 1) }
}

/// Slot of service `sid`: its slot if known, else a freshly claimed free
/// slot, else slot 0 (table full).
pub open spec fn find_service_spec(sv: Seq<ServiceView>, sid: i32) -> (Seq<ServiceView>, int) {
    let e = first_existing(sv, sid, 0);
    if e >= 0 {
        (sv, e)
    } else {
        let f = first_free(sv, 0);
        if f >= 0 { (sv.update(f, fresh_service(sid)), f) } else { (sv, 0) }
    }
}

proof fn lemma_first_existing_range(sv: Seq<ServiceView>, sid: i32, i: int)
    ensures
        first_existing(sv, sid, i) == -1 || (i <= first_existing(sv, sid, i) < 64 && 0 <= first_existing(sv, sid, i)),
        first_existing(sv, sid, i) >= 0 ==> sv[first_existing(sv, sid, i)].in_use && sv[first_existing(sv, sid, i)].service_id == sid,
        first_existing(sv, sid, i) == -1 && 0 <= i ==> forall|j: int| i <= j < 64 ==> !(#[trigger] sv[j].in_use && sv[j].service_id == sid),
    decreases 64 - i,
{
    if 0 <= i < 64 {
        lemma_first_existing_range(sv, sid, i + 1);
    }
}

proof fn lemma_first_free_range(sv: Seq<ServiceView>, i: int)
    ensures
        first_free(sv, i) == -1 || (i <= first_free(sv, i) < 64 && 0 <= first_free(sv, i)),
        first_free(sv, i) >= 0 ==> !sv[first_free(sv, i)].in_use,
        first_free(sv, i) == -1 && 0 <= i ==> forall|j: int| i <= j < 64 ==> #[trigger] sv[j].in_use,
    decreases 64 - i,
{
    if 0 <= i < 64 {
        lemma_first_free_range(sv, i + 1);
    }
}


// ── FIG 0/1: sub-channel organisation ────────────────────────────────────

/// UEP table (ETSI EN 300 401 §6.2.1, Table 6): (size in CU, protection level, bit rate).
pub open spec fn uep_table(i: int) -> (i16, i16, i16) {
    if i == 0 { (16i16, 5i16, 32i16) }
    else if i == 1 { (21i16, 4i16, 32i16) }
    else if i == 2 { (24i16, 3i16, 32i16) }
    else if i == 3 { (29i16, 2i16, 32i16) }
    else if i == 4 { (35i16, 1i16, 32i16) }
    else if i == 5 { (24i16, 5i16, 48i16) }
    else if i == 6 { (29i16, 4i16, 48i16) }
    else if i == 7 { (35i16, 3i16, 48i16) }
    else if i == 8 { (42i16, 2i16, 48i16) }
    else if i == 9 { (52i16, 1i16, 48i16) }
    else if i == 10 { (29i16, 5i16, 56i16) }
    else if i == 11 { (35i16, 4i16, 56i16) }
    else if i == 12 { (42i16, 3i16, 56i16) }
    else if i == 13 { (52i16, 2i16, 56i16) }
    else if i == 14 { (32i16, 5i16, 64i16) }
    else if i == 15 { (42i16, 4i16, 64i16) }
    else if i == 16 { (48i16, 3i16, 64i16) }
    else if i == 17 { (58i16, 2i16, 64i16) }
    else if i == 18 { (70i16, 1i16, 64i16) }
    else if i == 19 { (40i16, 5i16, 80i16) }
    else if i == 20 { (52i16, 4i16, 80i16) }
    else if i == 21 { (58i16, 3i16, 80i16) }
    else if i == 22 { (70i16, 2i16, 80i16) }
    else if i == 23 { (84i16, 1i16, 80i16) }
    else if i == 24 { (48i16, 5i16, 96i16) }
    else if i == 25 { (58i16, 4i16, 96i16) }
    else if i == 26 { (70i16, 3i16, 96i16) }
    else if i == 27 { (84i16, 2i16, 96i16) }
    else if i == 28 { (104i16, 1i16, 96i16) }
    else if i == 29 { (58i16, 5i16, 112i16) }
    else if i == 30 { (70i16, 4i16, 112i16) }
    else if i == 31 { (84i16, 3i16, 112i16) }
    else if i == 32 { (104i16, 2i16, 112i16) }
    else if i == 33 { (64i16, 5i16, 128i16) }
    else if i == 34 { (84i16, 4i16, 128i16) }
    else if i == 35 { (96i16, 3i16, 128i16) }
    else if i == 36 { (116i16, 2i16, 128i16) }
    else if i == 37 { (140i16, 1i16, 128i16) }
    else if i == 38 { (80i16, 5i16, 160i16) }
    else if i == 39 { (104i16, 4i16, 160i16) }
    else if i == 40 { (116i16, 3i16, 160i16) }
    else if i == 41 { (140i16, 2i16, 160i16) }
    else if i == 42 { (168i16, 1i16, 160i16) }
    else if i == 43 { (96i16, 5i16, 192i16) }
    else if i == 44 { (116i16, 4i16, 192i16) }
    else if i == 45 { (140i16, 3i16, 192i16) }
    else if i == 46 { (168i16, 2i16, 192i16) }
    else if i == 47 { (208i16, 1i16, 192i16) }
    else if i == 48 { (116i16, 5i16, 224i16) }
    else if i == 49 { (140i16, 4i16, 224i16) }
    else if i == 50 { (168i16, 3i16, 224i16) }
    else if i == 51 { (208i16, 2i16, 224i16) }
    else if i == 52 { (232i16, 1i16, 224i16) }
    else if i == 53 { (128i16, 5i16, 256i16) }
    else if i == 54 { (168i16, 4i16, 256i16) }
    else if i == 55 { (192i16, 3i16, 256i16) }
    else if i == 56 { (232i16, 2i16, 256i16) }
    else if i == 57 { (280i16, 1i16, 256i16) }
    else if i == 58 { (160i16, 5i16, 320i16) }
    else if i == 59 { (208i16, 4i16, 320i16) }
    else if i == 60 { (280i16, 2i16, 320i16) }
    else if i == 61 { (192i16, 5i16, 384i16) }
    else if i == 62 { (280i16, 3i16, 384i16) }
    else { (416i16, 1i16, 384i16) }
}

fn uep_table_entry(i: usize) -> (r: (i16, i16, i16))
    requires i < 64,
    ensures r == uep_table(i as int),
{
    match i {
        0 => (16, 5, 32),
        1 => (21, 4, 32),
        2 => (24, 3, 32),
        3 => (29, 2, 32),
        4 => (35, 1, 32),
        5 => (24, 5, 48),
        6 => (29, 4, 48),
        7 => (35, 3, 48),
        8 => (42, 2, 48),
        9 => (52, 1, 48),
        10 => (29, 5, 56),
        11 => (35, 4, 56),
        12 => (42, 3, 56),
        13 => (52, 2, 56),
        14 => (32, 5, 64),
        15 => (42, 4, 64),
        16 => (48, 3, 64),
        17 => (58, 2, 64),
        18 => (70, 1, 64),
        19 => (40, 5, 80),
        20 => (52, 4, 80),
        21 => (58, 3, 80),
        22 => (70, 2, 80),
        23 => (84, 1, 80),
        24 => (48, 5, 96),
        25 => (58, 4, 96),
        26 => (70, 3, 96),
        27 => (84, 2, 96),
        28 => (104, 1, 96),
        29 => (58, 5, 112),
        30 => (70, 4, 112),
        31 => (84, 3, 112),
        32 => (104, 2, 112),
        33 => (64, 5, 128),
        34 => (84, 4, 128),
        35 => (96, 3, 128),
        36 => (116, 2, 128),
        37 => (140, 1, 128),
        38 => (80, 5, 160),
        39 => (104, 4, 160),
        40 => (116, 3, 160),
        41 => (140, 2, 160),
        42 => (168, 1, 160),
        43 => (96, 5, 192),
        44 => (116, 4, 192),
        45 => (140, 3, 192),
        46 => (168, 2, 192),
        47 => (208, 1, 192),
        48 => (116, 5, 224),
        49 => (140, 4, 224),
        50 => (168, 3, 224),
        51 => (208, 2, 224),
        52 => (232, 1, 224),
        53 => (128, 5, 256),
        54 => (168, 4, 256),
        55 => (192, 3, 256),
        56 => (232, 2, 256),
        57 => (280, 1, 256),
        58 => (160, 5, 320),
        59 => (208, 4, 320),
        60 => (280, 2, 320),
        61 => (192, 5, 384),
        62 => (280, 3, 384),
        _ => (416, 1, 384),
    }
}

/// EEP-A bit rate for a sub-channel of `size` CUs at level `pl`.
pub open spec fn eep_a_bitrate(size: i16, pl: i16) -> i16 {
    if pl == 0 { (size / 12 * 8) as i16 }
    else if pl == 1 { (size / 8 * 8) as i16 }
    else if pl == 2 { (size / 6 * 8) as i16 }
    else if pl == 3 { (size / 4 * 8) as i16 }
    else { 0 }
}

/// EEP-B bit rate for a sub-channel of `size` CUs at level `pl`.
pub open spec fn eep_b_bitrate(size: i16, pl: i16) -> i16 {
    if pl == 0 { (size / 27 * 32) as i16 }
    else if pl == 1 { (size / 21 * 32) as i16 }
    else if pl == 2 { (size / 18 * 32) as i16 }
    else if pl == 3 { (size / 15 * 32) as i16 }
    else { 0 }
}

/// Sub-channel entry described by the FIG 0/1 entry at bit `bo`, applied
/// to the previous entry `sc` of the same sub-channel.
pub open spec fn fig0_1_entry(sc: SubChannel, d: Seq<u8>, bo: int) -> SubChannel {
    let id = bv(d, bo, 6) as i16;
    let start_cu = bv(d, bo + 6, 10) as i16;
    if bv(d, bo + 16, 1) == 0 {
        let idx = bv(d, bo + 18, 6) as int;
        let t = uep_table(idx);
        SubChannel { in_use: true, id, start_cu, uep_flag: true, uep_index: idx as i16, size: t.0, protlev: t.1, bitrate: t.2 }
    } else {
        let option = bv(d, bo + 17, 3);
        let pl = bv(d, bo + 20, 2) as i16;
        let size = bv(d, bo + 22, 10) as i16;
        if option == 0 {
            SubChannel { in_use: true, id, start_cu, uep_flag: false, size, protlev: pl, bitrate: eep_a_bitrate(size, pl), ..sc }
        } else if option == 1 {
            SubChannel { in_use: true, id, start_cu, uep_flag: false, size, protlev: (pl + 4) as i16, bitrate: eep_b_bitrate(size, pl), ..sc }
        } else {
            SubChannel { in_use: true, id, start_cu, uep_flag: false, size, ..sc }
        }
    }
}

/// A long-form FIG 0/1 entry (EEP) gives the sub-channel the bit rate that
/// its size in capacity units carries at its protection level (ETSI EN 300
/// 401 Tables 7 and 8): per 8 kbit/s 12, 8, 6, 4 units at 1-A..4-A (option
/// 0), per 32 kbit/s 27, 21, 18, 15 units at 1-B..4-B (option 1). The EEP
/// profile built for that rate and level then transmits exactly the
/// sub-channel's size: 64 bits per capacity unit.
pub proof fn lemma_fig0_1_long_form_rate(sc: SubChannel, d: Seq<u8>, bo: int)
    requires
        bv(d, bo + 16, 1) == 1,
        bv(d, bo + 17, 3) <= 1,
    ensures
        ({
            let e = fig0_1_entry(sc, d, bo);
            let option = bv(d, bo + 17, 3);
            let pl = bv(d, bo + 20, 2) as int;
            let size = bv(d, bo + 22, 10) as int;
            let ka: int = if pl == 0 { 12 } else if pl == 1 { 8 } else if pl == 2 { 6 } else { 4 };
            let kb: int = if pl == 0 { 27 } else if pl == 1 { 21 } else if pl == 2 { 18 } else { 15 };
            &&& e.size == size
            &&& !e.uep_flag
            &&& option == 0 ==> e.protlev == pl && (size % ka == 0 ==> e.bitrate * ka == 8 * size)
            &&& option == 1 ==> e.protlev == pl + 4 && (size % kb == 0 ==> e.bitrate * kb == 32 * size)
            &&& (size > 0 && (option == 0 ==> size % ka == 0) && (option == 1 ==> size % kb == 0))
                    ==> count_true(eep_mask(e.bitrate, e.protlev)) == 64 * size
        }),
{
    lemma_bits_value_bound(d, bo + 20, 2);
    lemma_bits_value_bound(d, bo + 22, 10);
    lemma2_to64();
    let e = fig0_1_entry(sc, d, bo);
    let option = bv(d, bo + 17, 3);
    let pl = bv(d, bo + 20, 2) as int;
    let size = bv(d, bo + 22, 10) as int;
    assert(0 <= pl < 4 && 0 <= size < 1024);
    let ka: int = if pl == 0 { 12 } else if pl == 1 { 8 } else if pl == 2 { 6 } else { 4 };
    let kb: int = if pl == 0 { 27 } else if pl == 1 { 21 } else if pl == 2 { 18 } else { 15 };
    if option == 0 {
        let q = size / ka;
        assert(e.bitrate == 8 * q);
        if size % ka == 0 {
            assert(size == ka * q);
            assert(e.bitrate * ka == 8 * size) by (nonlinear_arith) requires e.bitrate == 8 * q, size == ka * q;
            if size > 0 {
                assert(e.bitrate > 0);
                assert(e.bitrate % 8 == 0);
                lemma_eep_mask_transmits_subchannel_size(e.bitrate, e.protlev);
                assert(e.bitrate as int / 8 == q);
                assert(eep_capacity_units(e.bitrate as int, e.protlev as int) == size);
            }
        }
    } else {
        let q = size / kb;
        assert(e.bitrate == 32 * q);
        if size % kb == 0 {
            assert(size == kb * q);
            assert(e.bitrate * kb == 32 * size) by (nonlinear_arith) requires e.bitrate == 32 * q, size == kb * q;
            if size > 0 {
                assert(e.bitrate > 0);
                assert(e.bitrate % 32 == 0);
                lemma_eep_mask_transmits_subchannel_size(e.bitrate, e.protlev);
                assert(e.bitrate as int / 32 == q);
                assert(eep_capacity_units(e.bitrate as int, e.protlev as int) == size);
            }
        }
    }
}

/// Bytes taken by the FIG 0/1 entry at bit `bo` (short form 3, long form 4).
pub open spec fn fig0_1_entry_len(d: Seq<u8>, bo: int) -> int {
    if bv(d, bo + 16, 1) == 0 { 3 } else { 4 }
}

/// Apply the FIG 0/1 entries from byte `used` on (the FIG's first two bytes
/// are the header).
pub open spec fn fig0_1_apply(sc: Seq<SubChannel>, d: Seq<u8>, base: int, length: int, used: int) -> Seq<SubChannel>
    decreases length + 4 - used,
{
    if used >= length - 1 {
        sc
    } else {
        let bo = base + used * 8;
        let id = bv(d, bo, 6) as int;
        fig0_1_apply(sc.update(id, fig0_1_entry(sc[id], d, bo)), d, base, length, used + fig0_1_entry_len(d, bo))
    }
}

proof fn lemma_uep_table_ok(i: int)
    requires 0 <= i < 64,
    ensures eep_params_ok(uep_table(i).2, uep_table(i).1), uep_table(i).2 > 0,
{
}

proof fn lemma_entry_keeps_eep_ok(sc: SubChannel, d: Seq<u8>, bo: int)
    requires eep_params_ok(sc.bitrate, sc.protlev),
    ensures eep_params_ok(fig0_1_entry(sc, d, bo).bitrate, fig0_1_entry(sc, d, bo).protlev),
{
    lemma_bv_small(d, bo + 18, 6);
    lemma_bv_small(d, bo + 17, 3);
    lemma_bv_small(d, bo + 20, 2);
    lemma_bits_value_bound(d, bo + 22, 10);
    vstd::arithmetic::power2::lemma2_to64();
    if bv(d, bo + 16, 1) == 0 {
        lemma_uep_table_ok(bv(d, bo + 18, 6) as int);
    } else {
        let option = bv(d, bo + 17, 3);
        let pl = bv(d, bo + 20, 2) as i16;
        let size = bv(d, bo + 22, 10) as i16;
        assert(0 <= size <= 1023);
        if option == 0 {
            let q = if pl == 0 { size / 12 } else if pl == 1 { size / 8 } else if pl == 2 { size / 6 } else { size / 4 };
            assert(0 <= q <= 256);
            let br = eep_a_bitrate(size, pl);
            assert(br == 8 * q);
            assert((pl & 4i16) == 0i16) by (bit_vector) requires 0 <= pl <= 3;
            assert(pl & 3i16 == pl) by (bit_vector) requires 0 <= pl <= 3;
            assert(6 * (8 * q) / 8 == 6 * q);
            assert(2 * (8 * q) / 8 == 2 * q);
            assert(4 * (8 * q) / 8 == 4 * q);
        } else if option == 1 {
            let q = if pl == 0 { size / 27 } else if pl == 1 { size / 21 } else if pl == 2 { size / 18 } else { size / 15 };
            assert(0 <= q <= 68);
            let br = eep_b_bitrate(size, pl);
            assert(br == 32 * q);
            let npl = (pl + 4) as i16;
            assert((npl & 4i16) != 0i16) by (bit_vector) requires 0 <= pl <= 3, npl == pl + 4;
            assert(24 * (32 * q) / 32 == 24 * q);
        }
    }
}

// ── FIG 0/2: service organisation ────────────────────────────────────────

/// Service components from bit `off` on; `n` components remain. Returns
/// the updated services, the next bit offset, and whether decoding stopped
/// because a component ran past the FIG end.
pub open spec fn fig0_2_components(sv: Seq<ServiceView>, idx: int, d: Seq<u8>, end: int, off: int, n: nat) -> (Seq<ServiceView>, int, bool)
    decreases n,
{
    if n == 0 {
        (sv, off, false)
    } else if off + 16 > end {
        (sv, off, true)
    } else {
        let tmid = bv(d, off, 2);
        let ascty = bv(d, off + 2, 6);
        let subchid = bv(d, off + 8, 6) as u8;
        let primary = bv(d, off + 14, 1) == 1;
        let ca = bv(d, off + 15, 1) == 1;
        let sv2 = if tmid == 0 && !ca && (ascty == 0 || ascty == 63) {
            let s = sv[idx];
            let audio = s.audio.insert(subchid, AudioService { subchid, dab_plus: ascty == 63 });
            let prim = if primary || s.primary is None { Some(subchid) } else { s.primary };
            sv.update(idx, ServiceView { audio, primary: prim, ..s })
        } else {
            sv
        };
        fig0_2_components(sv2, idx, d, end, off + 16, (n - 1) as nat)
    }
}

/// Reading the components of a FIG 0/2 service never moves past the end
/// of the FIG.
pub proof fn lemma_components_within(sv: Seq<ServiceView>, idx: int, d: Seq<u8>, end: int, off: int, n: nat)
    requires off <= end,
    ensures
        off <= fig0_2_components(sv, idx, d, end, off, n).1 <= end,
    decreases n,
{
    if n > 0 && off + 16 <= end {
        let tmid = bv(d, off, 2);
        let ascty = bv(d, off + 2, 6);
        let subchid = bv(d, off + 8, 6) as u8;
        let primary = bv(d, off + 14, 1) == 1;
        let ca = bv(d, off + 15, 1) == 1;
        let sv2 = if tmid == 0 && !ca && (ascty == 0 || ascty == 63) {
            let s = sv[idx];
            let audio = s.audio.insert(subchid, AudioService { subchid, dab_plus: ascty == 63 });
            let prim = if primary || s.primary is None { Some(subchid) } else { s.primary };
            sv.update(idx, ServiceView { audio, primary: prim, ..s })
        } else {
            sv
        };
        lemma_components_within(sv2, idx, d, end, off + 16, (n - 1) as nat);
    }
}

/// Services described from bit `off` on, up to the FIG end `end`.
pub open spec fn fig0_2_services(sv: Seq<ServiceView>, d: Seq<u8>, pd: bool, end: int, off: int) -> Seq<ServiceView>
    decreases end - off,
{
    if off + (if pd { 40int } else { 24 }) > end {
        sv
    } else {
        let sid: i32 = if pd { (bv(d, off, 32) as u32) as i32 } else { bv(d, off, 16) as i32 };
        let off2 = off + if pd { 32int } else { 16 };
        if off2 + 8 > end {
            sv
        } else {
            let n = bv(d, off2 + 4, 4);
            let found = find_service_spec(sv, sid);
            let r = fig0_2_components(found.0, found.1, d, end, off2 + 8, n);
            proof { lemma_components_within(found.0, found.1, d, end, off2 + 8, n); }
            if r.2 || r.1 <= off { r.0 } else { fig0_2_services(r.0, d, pd, end, r.1) }
        }
    }
}


// ── FIG type 1: labels ───────────────────────────────────────────────────

/// Suffix appended to labels of data services (FIG 1/5).
pub open spec fn data_suffix() -> Seq<char> {
    seq![' ', '(', 'd', 'a', 't', 'a', ')']
}

/// Store a service label: rejected when not valid, kept when the service
/// already has one; otherwise stored and announced.
pub open spec fn store_label_spec(v: FibView, sid: i32, label: Seq<char>) -> (FibView, Seq<FibEventView>) {
    if !valid_label(label) {
        (v, Seq::empty())
    } else {
        let f = find_service_spec(v.services, sid);
        let s = f.0[f.1];
        if s.has_name {
            (FibView { services: f.0, ..v }, Seq::empty())
        } else {
            (FibView { services: f.0.update(f.1, ServiceView { label, has_name: true, ..s }), ..v },
             seq![FibEventView::ServiceName { label, sid }])
        }
    }
}

pub open spec fn fig1_spec(v: FibView, d: Seq<u8>, base: int, h: FigHeader) -> (FibView, Seq<FibEventView>) {
    let charset = bv(d, base + 8, 4);
    if h.oe_flag || charset > 16 {
        (v, Seq::empty())
    } else if h.extension == 0 {
        let eid = bv(d, base + 16, 16) as u32;
        let label = decode_label(d, base + 32);
        if !valid_label(label) {
            (v, Seq::empty())
        } else {
            (FibView { is_synced: true, ..v }, seq![FibEventView::EnsembleName { label, eid }])
        }
    } else if h.extension == 1 {
        store_label_spec(v, bv(d, base + 16, 16) as i32, decode_label(d, base + 32))
    } else if h.extension == 5 {
        store_label_spec(v, (bv(d, base + 16, 32) as u32) as i32, decode_label(d, base + 48) + data_suffix())
    } else {
        (v, Seq::empty())
    }
}

// ── whole FIB ────────────────────────────────────────────────────────────

pub open spec fn fig0_spec(v: FibView, d: Seq<u8>, base: int, h: FigHeader) -> FibView {
    if h.extension == 0 {
        FibView {
            cif_count_hi: (bv(d, base + 35, 5) % 20) as i16,
            cif_count_lo: (bv(d, base + 40, 8) % 250) as i16,
            ..v
        }
    } else if h.extension == 1 {
        FibView { sub_channels: fig0_1_apply(v.sub_channels, d, base, h.length as int, 2), ..v }
    } else if h.extension == 2 {
        FibView { services: fig0_2_services(v.services, d, h.pd_flag, base + (h.length + 1) * 8, base + 16), ..v }
    } else {
        v
    }
}

pub open spec fn dispatch_spec(v: FibView, d: Seq<u8>, base: int, h: FigHeader) -> (FibView, Seq<FibEventView>) {
    if h.fig_type == 0 {
        (fig0_spec(v, d, base, h), Seq::empty())
    } else if h.fig_type == 1 {
        fig1_spec(v, d, base, h)
    } else {
        (v, Seq::empty())
    }
}

/// Effect of the FIGs of a FIB from byte `processed` on: FIGs are handled
/// in order until 30 bytes are consumed, a header is missing, a FIG
/// overruns the block, or the end marker (type 7) is met.
pub open spec fn fib_spec(v: FibView, d: Seq<u8>, processed: int) -> (FibView, Seq<FibEventView>)
    decreases if processed < 30 { 30 - processed } else { 0 },
{
    if processed >= 30 || processed < 0 {
        (v, Seq::empty())
    } else {
        match fig_header_spec(d, processed * 8) {
            None => (v, Seq::empty()),
            Some(h) => {
                if processed * 8 + (h.length + 1) * 8 > d.len() || h.fig_type == 7 {
                    (v, Seq::empty())
                } else {
                    let r = dispatch_spec(v, d, processed * 8, h);
                    let r2 = fib_spec(r.0, d, processed + h.length + 1);
                    (r2.0, r.1 + r2.1)
                }
            }
        }
    }
}

/// The ensemble database fed by the FIBs of a DAB ensemble.
pub struct FibProcessor {
    sub_channels: Vec<SubChannel>,
    list_of_services: Vec<ServiceId>,
    cif_count_hi: i16,
    cif_count_lo: i16,
    is_synced: bool,
}

pub open spec fn subchannels_ok(sc: Seq<SubChannel>) -> bool {
    &&& sc.len() == 64
    &&& forall|i: int| 0 <= i < 64 ==> #[trigger] eep_params_ok(sc[i].bitrate, sc[i].protlev)
}

/// 64 service slots; a service without a primary component has no components.
pub open spec fn services_ok(sv: Seq<ServiceView>) -> bool {
    &&& sv.len() == 64
    &&& forall|i: int| 0 <= i < 64 ==> (#[trigger] sv[i]).primary is None ==> sv[i].audio == Map::<u8, AudioService>::empty()
}

/// The initial (empty) database.
pub open spec fn empty_fib_view() -> FibView {
    FibView {
        sub_channels: Seq::new(64, |i: int| empty_subchannel()),
        services: Seq::new(64, |i: int| empty_service()),
        cif_count_hi: -1i16,
        cif_count_lo: -1i16,
        is_synced: false,
    }
}

impl View for FibProcessor {
    type V = FibView;

    closed spec fn view(&self) -> FibView {
        FibView {
            sub_channels: self.sub_channels@,
            services: Seq::new(self.list_of_services@.len(), |i: int| self.list_of_services@[i].view()),
            cif_count_hi: self.cif_count_hi,
            cif_count_lo: self.cif_count_lo,
            is_synced: self.is_synced,
        }
    }
}

impl Default for FibProcessor {
    /// The same empty processor as `new`.
    fn default() -> (f: Self)
        ensures f.wf(), f@ == empty_fib_view(),
    {
        FibProcessor::new()
    }
}

impl FibProcessor {
    /// 64 sub-channel and 64 service slots; every sub-channel carries
    /// parameters an EEP profile can be built from.
    pub open spec fn wf(&self) -> bool {
        &&& subchannels_ok(self@.sub_channels)
        &&& services_ok(self@.services)
    }

    pub fn new() -> (f: Self)
        ensures f.wf(), f@ == empty_fib_view(),
    {
        let mut sub_channels: Vec<SubChannel> = Vec::new();
        let mut services: Vec<ServiceId> = Vec::new();
        let mut i: usize = 0;
        while i < 64
            invariant
                i <= 64,
                sub_channels@.len() == i,
                services@.len() == i,
                forall|t: int| 0 <= t < i ==> #[trigger] sub_channels@[t] == empty_subchannel(),
                forall|t: int| 0 <= t < i ==> #[trigger] services@[t].view() == empty_service(),
            decreases 64 - i,
        {
            sub_channels.push(SubChannel { in_use: false, id: 0, start_cu: 0, uep_flag: false, uep_index: 0, protlev: 0, size: 0, bitrate: 0 });
            services.push(ServiceId::empty());
            i = i + 1;
        }
        let f = FibProcessor { sub_channels, list_of_services: services, cif_count_hi: -1, cif_count_lo: -1, is_synced: false };
        assert(f@.sub_channels =~= empty_fib_view().sub_channels);
        assert(f@.services =~= empty_fib_view().services);
        f
    }

    /// Slot of service `service_id`, claiming a free slot for a new service.
    fn find_service_id(&mut self, service_id: i32) -> (idx: usize)
        requires old(self).wf(),
        ensures
            final(self).wf(),
            idx < 64,
            (final(self)@.services, idx as int) == find_service_spec(old(self)@.services, service_id),
            final(self)@.sub_channels == old(self)@.sub_channels,
            final(self)@.cif_count_hi == old(self)@.cif_count_hi,
            final(self)@.cif_count_lo == old(self)@.cif_count_lo,
            final(self)@.is_synced == old(self)@.is_synced,
    {
        let ghost sv = self@.services;
        proof {
            lemma_first_existing_range(sv, service_id, 0);
            lemma_first_free_range(sv, 0);
        }
        let mut i: usize = 0;
        while i < 64
            invariant
                i <= 64,
                self@ == old(self)@,
                self.wf(),
                sv == self@.services,
                first_existing(sv, service_id, 0) == first_existing(sv, service_id, i as int),
            decreases 64 - i,
        {
            assert(self.list_of_services@[i as int].view() == sv[i as int]);
            if self.list_of_services[i].in_use && self.list_of_services[i].service_id == service_id {
                return i;
            }
            i = i + 1;
        }
        let mut i: usize = 0;
        while i < 64
            invariant
                i <= 64,
                self@ == old(self)@,
                self.wf(),
                sv == self@.services,
                first_existing(sv, service_id, 0) == -1,
                first_free(sv, 0) == first_free(sv, i as int),
            decreases 64 - i,
        {
            assert(self.list_of_services@[i as int].view() == sv[i as int]);
            if !self.list_of_services[i].in_use {
                self.list_of_services.set(i, ServiceId { in_use: true, service_id, has_name: false, label: String::new(), primary_subchid: None, audio_components: HashMap::new() });
                proof {
                    assert(self@.services =~= sv.update(i as int, fresh_service(service_id)));
                }
                return i;
            }
            i = i + 1;
        }
        0
    }

    /// Sub-channel descriptor of sub-channel `n`.
    pub fn get_channel_info(&self, n: usize) -> (c: ChannelData)
        requires self.wf(), n < 64,
        ensures
            c == (ChannelData {
                in_use: self@.sub_channels[n as int].in_use,
                id: self@.sub_channels[n as int].id,
                start_cu: self@.sub_channels[n as int].start_cu,
                uep_flag: self@.sub_channels[n as int].uep_flag,
                protlev: self@.sub_channels[n as int].protlev,
                size: self@.sub_channels[n as int].size,
                bitrate: self@.sub_channels[n as int].bitrate,
            }),
    {
        let sc = self.sub_channels[n];
        ChannelData { in_use: sc.in_use, id: sc.id, start_cu: sc.start_cu, uep_flag: sc.uep_flag, protlev: sc.protlev, size: sc.size, bitrate: sc.bitrate }
    }

    /// (CIF count high, low) from the latest FIG 0/0, (−1, −1) before any.
    pub fn get_cif_count(&self) -> (r: (i16, i16))
        ensures r == (self@.cif_count_hi, self@.cif_count_lo),
    {
        (self.cif_count_hi, self.cif_count_lo)
    }

    /// Whether an ensemble label has been received.
    pub fn is_synced(&self) -> (b: bool)
        ensures b == self@.is_synced,
    {
        self.is_synced
    }

    /// Forget the whole ensemble (used when sync is lost or the channel changes).
    pub fn clear_ensemble(&mut self)
        requires old(self).wf(),
        ensures final(self).wf(), final(self)@ == empty_fib_view(),
    {
        let mut i: usize = 0;
        while i < 64
            invariant
                i <= 64,
                self.sub_channels@.len() == 64,
                self.list_of_services@.len() == 64,
                forall|t: int| 0 <= t < i ==> #[trigger] self.sub_channels@[t] == empty_subchannel(),
                forall|t: int| 0 <= t < i ==> #[trigger] self.list_of_services@[t].view() == empty_service(),
            decreases 64 - i,
        {
            self.sub_channels.set(i, SubChannel { in_use: false, id: 0, start_cu: 0, uep_flag: false, uep_index: 0, protlev: 0, size: 0, bitrate: 0 });
            self.list_of_services.set(i, ServiceId::empty());
            i = i + 1;
        }
        self.cif_count_hi = -1;
        self.cif_count_lo = -1;
        self.is_synced = false;
        assert(self@.sub_channels =~= empty_fib_view().sub_channels);
        assert(self@.services =~= empty_fib_view().services);
    }

    fn process_fig0_0(&mut self, d: &[u8], base: usize)
        requires old(self).wf(), base + 48 <= usize::MAX,
        ensures
            final(self).wf(),
            final(self)@ == (FibView {
                cif_count_hi: (bv(d@, base + 35, 5) % 20) as i16,
                cif_count_lo: (bv(d@, base + 40, 8) % 250) as i16,
                ..old(self)@
            }),
    {
        proof {
            lemma_bv_small(d@, base + 35, 5);
            lemma_bv_small(d@, base + 40, 8);
        }
        self.cif_count_hi = (get_bits(d, base + 16 + 19, 5) % 20) as i16;
        self.cif_count_lo = (get_bits(d, base + 16 + 24, 8) % 250) as i16;
    }

    /// Apply one FIG 0/1 entry starting at byte `offset` of the FIG at `base`;
    /// returns the offset of the next entry.
    fn subprocess_fig0_1(&mut self, d: &[u8], base: usize, offset: usize) -> (next: usize)
        requires old(self).wf(), base + offset * 8 + 64 <= usize::MAX,
        ensures
            final(self).wf(),
            next == offset + fig0_1_entry_len(d@, base + offset * 8),
            ({
                let bo = base + offset * 8;
                let id = bv(d@, bo, 6) as int;
                final(self)@ == (FibView {
                    sub_channels: old(self)@.sub_channels.update(id, fig0_1_entry(old(self)@.sub_channels[id], d@, bo)),
                    ..old(self)@
                })
            }),
    {
        let bit_offset = base + offset * 8;
        proof {
            lemma_bv_small(d@, bit_offset as int, 6);
            lemma_bv_small(d@, bit_offset + 18, 6);
            lemma_bv_small(d@, bit_offset + 17, 3);
            lemma_bv_small(d@, bit_offset + 20, 2);
            lemma_bits_value_bound(d@, bit_offset + 6, 10);
            lemma_bits_value_bound(d@, bit_offset + 22, 10);
            lemma2_to64();
            lemma_entry_keeps_eep_ok(self@.sub_channels[bv(d@, bit_offset as int, 6) as int], d@, bit_offset as int);
        }
        let sub_ch_id = get_bits(d, bit_offset, 6) as usize;
        let start_cu = get_bits(d, bit_offset + 6, 10) as i16;
        let old_sc = self.sub_channels[sub_ch_id];
        let uep_flag = get_bits(d, bit_offset + 16, 1) == 0;
        if uep_flag {
            let uep_index = get_bits(d, bit_offset + 18, 6) as usize;
            let t = uep_table_entry(uep_index);
            let sc = SubChannel { in_use: true, id: sub_ch_id as i16, start_cu, uep_flag: true, uep_index: uep_index as i16, size: t.0, protlev: t.1, bitrate: t.2 };
            self.sub_channels.set(sub_ch_id, sc);
            proof { assert(self@.services =~= old(self)@.services); }
            return offset + 3;
        }
        let option = get_bits(d, bit_offset + 17, 3) as i16;
        let prot_level = get_bits(d, bit_offset + 20, 2) as i16;
        let sub_chan_size = get_bits(d, bit_offset + 22, 10) as i16;
        let mut sc = SubChannel { in_use: true, id: sub_ch_id as i16, start_cu, uep_flag: false, size: sub_chan_size, ..old_sc };
        if option == 0 {
            sc.protlev = prot_level;
            sc.bitrate = if prot_level == 0 { sub_chan_size / 12 * 8 }
                else if prot_level == 1 { sub_chan_size / 8 * 8 }
                else if prot_level == 2 { sub_chan_size / 6 * 8 }
                else if prot_level == 3 { sub_chan_size / 4 * 8 }
                else { 0 };
        } else if option == 1 {
            sc.protlev = prot_level + 4;
            sc.bitrate = if prot_level == 0 { sub_chan_size / 27 * 32 }
                else if prot_level == 1 { sub_chan_size / 21 * 32 }
                else if prot_level == 2 { sub_chan_size / 18 * 32 }
                else if prot_level == 3 { sub_chan_size / 15 * 32 }
                else { 0 };
        }
        self.sub_channels.set(sub_ch_id, sc);
        proof { assert(self@.services =~= old(self)@.services); }
        offset + 4
    }

    /// Apply the FIG 0/1 entries of the FIG at `base` from byte `used` on.
    fn process_fig0_loop(&mut self, d: &[u8], base: usize, header: FigHeader, start: usize)
        requires
            old(self).wf(),
            header.length < 32,
            start <= 32,
            base + 1024 <= usize::MAX,
        ensures
            final(self).wf(),
            final(self)@ == (FibView {
                sub_channels: fig0_1_apply(old(self)@.sub_channels, d@, base as int, header.length as int, start as int),
                ..old(self)@
            }),
    {
        let mut used = start;
        let limit: usize = if header.length >= 1 { header.length - 1 } else { 0 };
        while used < limit
            invariant
                self.wf(),
                used <= 36,
                limit <= 31,
                limit == (if header.length >= 1 { header.length - 1 } else { 0 }),
                header.length < 32,
                base + 1024 <= usize::MAX,
                self@.services == old(self)@.services,
                self@.cif_count_hi == old(self)@.cif_count_hi,
                self@.cif_count_lo == old(self)@.cif_count_lo,
                self@.is_synced == old(self)@.is_synced,
                fig0_1_apply(self@.sub_channels, d@, base as int, header.length as int, used as int)
                    == fig0_1_apply(old(self)@.sub_channels, d@, base as int, header.length as int, start as int),
            ensures
                used >= limit,
                self.wf(),
                self@.services == old(self)@.services,
                self@.cif_count_hi == old(self)@.cif_count_hi,
                self@.cif_count_lo == old(self)@.cif_count_lo,
                self@.is_synced == old(self)@.is_synced,
                fig0_1_apply(self@.sub_channels, d@, base as int, header.length as int, used as int)
                    == fig0_1_apply(old(self)@.sub_channels, d@, base as int, header.length as int, start as int),
            decreases 40 - used,
        {
            let ghost sc0 = self@.sub_channels;
            let next = self.subprocess_fig0_1(d, base, used);
            proof {
                let bo = base + used * 8;
                assert(fig0_1_apply(sc0, d@, base as int, header.length as int, used as int)
                    == fig0_1_apply(self@.sub_channels, d@, base as int, header.length as int, next as int));
            }
            if next <= used {
                break;
            }
            used = next;
        }
        assert(fig0_1_apply(self@.sub_channels, d@, base as int, header.length as int, used as int) == self@.sub_channels);
        assert(self@ == (FibView {
                sub_channels: fig0_1_apply(old(self)@.sub_channels, d@, base as int, header.length as int, start as int),
                ..old(self)@
            }));
    }

    fn process_fig0_2(&mut self, d: &[u8], base: usize, header: FigHeader)
        requires old(self).wf(), header.length < 32, base + 1024 <= usize::MAX,
        ensures
            final(self).wf(),
            final(self)@ == (FibView {
                services: fig0_2_services(old(self)@.services, d@, header.pd_flag, base + (header.length + 1) * 8, base + 16),
                ..old(self)@
            }),
    {
        let end_bit = header.fig_end_bit(base);
        let pd = header.pd_flag;
        let mut bit_offset = base + 16;
        let min_len: usize = if pd { 40 } else { 24 };
        let ghost target = fig0_2_services(old(self)@.services, d@, pd, end_bit as int, base + 16);
        while bit_offset + min_len <= end_bit
            invariant
                min_len == (if pd { 40usize } else { 24usize }),
                bit_offset <= end_bit + 8,
                self.wf(),
                end_bit == base + (header.length + 1) * 8,
                end_bit + 64 <= usize::MAX,
                pd == header.pd_flag,
                self@.sub_channels == old(self)@.sub_channels,
                self@.cif_count_hi == old(self)@.cif_count_hi,
                self@.cif_count_lo == old(self)@.cif_count_lo,
                self@.is_synced == old(self)@.is_synced,
                fig0_2_services(self@.services, d@, pd, end_bit as int, bit_offset as int) == target,
                target == fig0_2_services(old(self)@.services, d@, header.pd_flag, base + (header.length + 1) * 8, base + 16),
            decreases end_bit - bit_offset,
        {
            let off0 = bit_offset;
            let ghost sv_loop = self@.services;
            let sid: i32 = if pd { get_lbits(d, bit_offset, 32) as i32 } else { get_bits(d, bit_offset, 16) as i32 };
            bit_offset = bit_offset + if pd { 32 } else { 16 };
            if bit_offset + 8 > end_bit {
                assert(fig0_2_services(sv_loop, d@, pd, end_bit as int, off0 as int) == sv_loop);
                return;
            }
            proof { lemma_bv_small(d@, bit_offset + 4, 4); lemma2_to64(); }
            let num_components = get_bits(d, bit_offset + 4, 4) as usize;
            bit_offset = bit_offset + 8;
            let ghost sv_before = self@.services;
            let svc_idx = self.find_service_id(sid);
            proof {
                assert(sv_before == sv_loop);
            }
            let ghost comp = fig0_2_components(self@.services, svc_idx as int, d@, end_bit as int, bit_offset as int, num_components as nat);
            proof {
                lemma_components_within(self@.services, svc_idx as int, d@, end_bit as int, bit_offset as int, num_components as nat);
                assert(target == (if comp.2 || comp.1 <= off0 as int { comp.0 } else { fig0_2_services(comp.0, d@, pd, end_bit as int, comp.1) }));
            }
            let mut k: usize = 0;
            while k < num_components
                invariant
                    self.wf(),
                    k <= num_components,
                    num_components < 16,
                    svc_idx < 64,
                    end_bit + 64 <= usize::MAX,
                    bit_offset <= end_bit,
                    self@.sub_channels == old(self)@.sub_channels,
                    self@.cif_count_hi == old(self)@.cif_count_hi,
                    self@.cif_count_lo == old(self)@.cif_count_lo,
                    self@.is_synced == old(self)@.is_synced,
                    fig0_2_components(self@.services, svc_idx as int, d@, end_bit as int, bit_offset as int, (num_components - k) as nat) == comp,
                    target == (if comp.2 || comp.1 <= off0 as int { comp.0 } else { fig0_2_services(comp.0, d@, pd, end_bit as int, comp.1) }),
                    target == fig0_2_services(old(self)@.services, d@, header.pd_flag, base + (header.length + 1) * 8, base + 16),
                decreases num_components - k,
            {
                if bit_offset + 16 > end_bit {
                    proof {
                        assert(comp == (self@.services, bit_offset as int, true));
                    }
                    return;
                }
                proof {
                    lemma_bv_small(d@, bit_offset as int, 2);
                    lemma_bv_small(d@, bit_offset + 2, 6);
                    lemma_bv_small(d@, bit_offset + 8, 6);
                }
                let tmid = get_bits(d, bit_offset, 2);
                if tmid == 0 {
                    let ascty = get_bits(d, bit_offset + 2, 6) as u8;
                    let subchid = get_bits(d, bit_offset + 8, 6) as u8;
                    let is_primary = get_bits(d, bit_offset + 14, 1) == 1;
                    let ca_flag = get_bits(d, bit_offset + 15, 1) == 1;
                    if !ca_flag && (ascty == 0 || ascty == 63) {
                        let ghost sv0 = self@.services;
                        let mut s = ServiceId::empty();
                        std::mem::swap(&mut s, &mut self.list_of_services[svc_idx]);
                        s.audio_components.insert(subchid, AudioService { subchid, dab_plus: ascty == 63 });
                        if is_primary || s.primary_subchid.is_none() {
                            s.primary_subchid = Some(subchid);
                        }
                        self.list_of_services.set(svc_idx, s);
                        proof {
                            let s0 = sv0[svc_idx as int];
                            assert(self@.services =~= sv0.update(svc_idx as int, ServiceView {
                                audio: s0.audio.insert(subchid, AudioService { subchid, dab_plus: ascty == 63 }),
                                primary: if is_primary || s0.primary is None { Some(subchid) } else { s0.primary },
                                ..s0
                            }));
                        }
                    }
                }
                bit_offset = bit_offset + 16;
                k = k + 1;
            }
            proof {
                assert(comp == (self@.services, bit_offset as int, false));
            }
        }
    }

    /// Text of the 16-byte label field starting at bit `start_bit`.
    fn decode_label_text(&self, d: &[u8], start_bit: usize) -> (s: String)
        requires start_bit + 128 <= usize::MAX,
        ensures s@ == decode_label(d@, start_bit as int),
    {
        let chars = decode_label_chars(d, start_bit);
        string_from_chars(chars.as_slice())
    }

    fn store_service_label(&mut self, sid: i32, label: String, events: &mut Vec<FibEvent>)
        requires old(self).wf(),
        ensures
            final(self).wf(),
            final(self)@ == store_label_spec(old(self)@, sid, label@).0,
            events_view(final(events)@) == events_view(old(events)@) + store_label_spec(old(self)@, sid, label@).1,
    {
        if !is_valid_label(label.as_str()) {
            assert(events_view(events@) =~= events_view(old(events)@) + Seq::<FibEventView>::empty());
            return;
        }
        let svc = self.find_service_id(sid);
        if self.list_of_services[svc].has_name {
            assert(events_view(events@) =~= events_view(old(events)@) + Seq::<FibEventView>::empty());
            return;
        }
        let ghost sv0 = self@.services;
        let copy = label.clone();
        let mut s = ServiceId::empty();
        std::mem::swap(&mut s, &mut self.list_of_services[svc]);
        s.label = label;
        s.has_name = true;
        self.list_of_services.set(svc, s);
        proof {
            assert(self@.services =~= sv0.update(svc as int, ServiceView { label: copy@, has_name: true, ..sv0[svc as int] }));
        }
        events.push(FibEvent::ServiceName { label: copy, sid });
        assert(events_view(events@) =~= events_view(old(events)@) + seq![FibEventView::ServiceName { label: copy@, sid }]);
    }

    fn process_fig1(&mut self, d: &[u8], base: usize, header: FigHeader, events: &mut Vec<FibEvent>)
        requires old(self).wf(), base + 1024 <= usize::MAX,
        ensures
            final(self).wf(),
            final(self)@ == fig1_spec(old(self)@, d@, base as int, header).0,
            events_view(final(events)@) == events_view(old(events)@) + fig1_spec(old(self)@, d@, base as int, header).1,
    {
        proof {
            lemma_bv_small(d@, base + 8, 4);
            lemma_bits_value_bound(d@, base + 16, 16);
            lemma2_to64();
        }
        let char_set = get_bits(d, base + 8, 4);
        if header.oe_flag || char_set > 16 {
            assert(events_view(events@) =~= events_view(old(events)@) + Seq::<FibEventView>::empty());
            return;
        }
        if header.extension == 0 {
            let eid = get_bits(d, base + 16, 16);
            let label = self.decode_label_text(d, base + 32);
            if !is_valid_label(label.as_str()) {
                assert(events_view(events@) =~= events_view(old(events)@) + Seq::<FibEventView>::empty());
                return;
            }
            self.is_synced = true;
            let ghost lv = label@;
            events.push(FibEvent::EnsembleName { label, eid });
            assert(events_view(events@) =~= events_view(old(events)@) + seq![FibEventView::EnsembleName { label: lv, eid }]);
        } else if header.extension == 1 {
            let sid = get_bits(d, base + 16, 16) as i32;
            let label = self.decode_label_text(d, base + 32);
            self.store_service_label(sid, label, events);
        } else if header.extension == 5 {
            let sid = get_lbits(d, base + 16, 32) as i32;
            let mut chars = decode_label_chars(d, base + 48);
            chars.push(' ');
            chars.push('(');
            chars.push('d');
            chars.push('a');
            chars.push('t');
            chars.push('a');
            chars.push(')');
            assert(chars@ =~= decode_label(d@, base + 48) + data_suffix());
            let label = string_from_chars(chars.as_slice());
            self.store_service_label(sid, label, events);
        } else {
            assert(events_view(events@) =~= events_view(old(events)@) + Seq::<FibEventView>::empty());
        }
    }

    fn process_fig0(&mut self, d: &[u8], base: usize, header: FigHeader)
        requires old(self).wf(), header.length < 32, base + 1024 <= usize::MAX,
        ensures final(self).wf(), final(self)@ == fig0_spec(old(self)@, d@, base as int, header),
    {
        if header.extension == 0 {
            self.process_fig0_0(d, base);
        } else if header.extension == 1 {
            self.process_fig0_loop(d, base, header, 2);
        } else if header.extension == 2 {
            self.process_fig0_2(d, base, header);
        }
    }

    fn dispatch_fig(&mut self, d: &[u8], base: usize, header: FigHeader, events: &mut Vec<FibEvent>)
        requires old(self).wf(), header.length < 32, base + 1024 <= usize::MAX,
        ensures
            final(self).wf(),
            final(self)@ == dispatch_spec(old(self)@, d@, base as int, header).0,
            events_view(final(events)@) == events_view(old(events)@) + dispatch_spec(old(self)@, d@, base as int, header).1,
    {
        if header.fig_type == 0 {
            self.process_fig0(d, base, header);
            assert(events_view(events@) =~= events_view(old(events)@) + Seq::<FibEventView>::empty());
        } else if header.fig_type == 1 {
            self.process_fig1(d, base, header, events);
        } else {
            assert(events_view(events@) =~= events_view(old(events)@) + Seq::<FibEventView>::empty());
        }
    }

    /// Decode the FIGs of one FIB (256 bits, one per byte) into the
    /// database; returns the label announcements in order.
    pub fn process_fib(&mut self, bits: &[u8], _fib: u16) -> (events: Vec<FibEvent>)
        requires old(self).wf(),
        ensures
            final(self).wf(),
            final(self)@ == fib_spec(old(self)@, bits@, 0).0,
            events_view(events@) == fib_spec(old(self)@, bits@, 0).1,
    {
        let mut events: Vec<FibEvent> = Vec::new();
        let mut processed: usize = 0;
        let ghost target = fib_spec(old(self)@, bits@, 0);
        assert(events_view(events@) + fib_spec(self@, bits@, 0).1 =~= target.1);
        while processed < 30
            invariant
                self.wf(),
                processed <= 62,
                fib_spec(self@, bits@, processed as int).0 == target.0,
                events_view(events@) + fib_spec(self@, bits@, processed as int).1 == target.1,
            ensures
                self.wf(),
                self@ == target.0,
                events_view(events@) == target.1,
            decreases 62 - processed,
        {
            let bit_offset = processed * 8;
            let header = match parse_fig_header(bits, bit_offset) {
                Some(h) => h,
                None => {
                    assert(fib_spec(self@, bits@, processed as int).1 =~= Seq::<FibEventView>::empty());
                    assert(events_view(events@) =~= target.1);
                    break;
                }
            };
            proof { lemma_bv_small(bits@, bit_offset + 3, 5); lemma2_to64(); }
            if header.fig_end_bit(bit_offset) > bits.len() || header.fig_type == 7 {
                assert(fib_spec(self@, bits@, processed as int).1 =~= Seq::<FibEventView>::empty());
                assert(events_view(events@) =~= target.1);
                break;
            }
            let ghost v0 = self@;
            let ghost e0 = events_view(events@);
            self.dispatch_fig(bits, bit_offset, header, &mut events);
            proof {
                let r = dispatch_spec(v0, bits@, bit_offset as int, header);
                assert(e0 + fib_spec(v0, bits@, processed as int).1 == target.1);
                assert(fib_spec(v0, bits@, processed as int).1 == r.1 + fib_spec(r.0, bits@, processed + header.length + 1).1);
                assert(events_view(events@) + fib_spec(self@, bits@, processed + header.length + 1).1 =~= e0 + (r.1 + fib_spec(r.0, bits@, processed + header.length + 1).1));
            }
            processed = processed + header.length + 1;
            proof {
                if processed >= 30 {
                    assert(fib_spec(self@, bits@, processed as int).1 =~= Seq::<FibEventView>::empty());
                    assert(events_view(events@) =~= target.1);
                }
            }
        }
        events
    }

    /// The audio component of service `service_id`: its primary component
    /// (none if the service is unknown or has no audio component).
    pub fn find_audio_service(&self, service_id: i32) -> (r: Option<AudioService>)
        requires self.wf(),
        ensures
            r == ({
                let e = first_existing(self@.services, service_id, 0);
                if e < 0 {
                    None
                } else {
                    match self@.services[e].primary {
                        Some(p) => if self@.services[e].audio.contains_key(p) { Some(self@.services[e].audio[p]) } else { None },
                        None => None,
                    }
                }
            }),
    {
        proof { lemma_first_existing_range(self@.services, service_id, 0); }
        let mut i: usize = 0;
        while i < 64
            invariant
                i <= 64,
                self.wf(),
                first_existing(self@.services, service_id, 0) == first_existing(self@.services, service_id, i as int),
            decreases 64 - i,
        {
            assert(self.list_of_services@[i as int].view() == self@.services[i as int]);
            if self.list_of_services[i].in_use && self.list_of_services[i].service_id == service_id {
                match self.list_of_services[i].primary_subchid {
                    Some(p) => {
                        return match self.list_of_services[i].audio_components.get(&p) {
                            Some(a) => Some(*a),
                            None => None,
                        };
                    }
                    None => {
                        return None;
                    }
                }
            }
            i = i + 1;
        }
        None
    }
}

// ── label acceptance across FIBs ─────────────────────────────────────────

/// Service `sid` is known and already has an accepted label.
pub open spec fn service_named(v: FibView, sid: i32) -> bool {
    let e = first_existing(v.services, sid, 0);
    e >= 0 && v.services[e].has_name
}

/// The FIB holds no further FIG from byte `p` on: the 30 data bytes are
/// used up, no header fits, the end marker comes, or the FIG overruns.
pub open spec fn fib_ends_at(d: Seq<u8>, p: int) -> bool {
    ||| p >= 30
    ||| match fig_header_spec(d, p * 8) {
            None => true,
            Some(h) => p * 8 + (h.length + 1) * 8 > d.len() || h.fig_type == 7,
        }
}

/// A FIB whose only FIG is a FIG 1/1 (service label, no other-ensemble
/// flag, a character set up to 16) has the effect of storing the decoded
/// label for the service identifier it carries.
pub proof fn lemma_single_service_label_fib(v: FibView, d: Seq<u8>)
    requires
        fig_header_spec(d, 0) is Some,
        ({
            let h = fig_header_spec(d, 0)->0;
            &&& h.fig_type == 1
            &&& !h.oe_flag
            &&& h.extension == 1
            &&& (h.length + 1) * 8 <= d.len()
            &&& fib_ends_at(d, h.length + 1)
        }),
        bv(d, 8, 4) <= 16,
    ensures
        fib_spec(v, d, 0) == store_label_spec(v, bv(d, 16, 16) as i32, decode_label(d, 32)),
{
    let h = fig_header_spec(d, 0)->0;
    let r = dispatch_spec(v, d, 0, h);
    assert(fib_spec(r.0, d, h.length + 1) == (r.0, Seq::<FibEventView>::empty()));
    assert(r.1 + Seq::<FibEventView>::empty() =~= r.1);
}

/// The label rule across calls. A label that is empty or holds a control
/// character is rejected and leaves no trace, so a later valid label is
/// still accepted. A service that already has a label keeps it and nothing
/// is announced. Otherwise, when the service is known or a slot is free,
/// the label is stored and announced exactly once, and the service counts
/// as named from then on.
pub proof fn lemma_service_label_accepted_once(v: FibView, sid: i32, label: Seq<char>)
    requires services_ok(v.services),
    ensures
        ({
            let r = store_label_spec(v, sid, label);
            &&& !valid_label(label) ==> r.0 == v && r.1 == Seq::<FibEventView>::empty()
            &&& valid_label(label) && service_named(v, sid) ==> r.0 == v && r.1 == Seq::<FibEventView>::empty()
            &&& valid_label(label) && !service_named(v, sid)
                    && (first_existing(v.services, sid, 0) >= 0 || first_free(v.services, 0) >= 0)
                    ==> r.1 == seq![FibEventView::ServiceName { label, sid }] && service_named(r.0, sid)
                        && r.0.services[first_existing(r.0.services, sid, 0)].label == label
        }),
{
    let sv = v.services;
    lemma_first_existing_range(sv, sid, 0);
    lemma_first_free_range(sv, 0);
    let f = find_service_spec(sv, sid);
    if valid_label(label) && !service_named(v, sid) && (first_existing(sv, sid, 0) >= 0 || first_free(sv, 0) >= 0) {
        let s2 = f.0.update(f.1, ServiceView { label, has_name: true, ..f.0[f.1] });
        assert(0 <= f.1 < 64);
        assert(s2[f.1].in_use && s2[f.1].service_id == sid);
        lemma_first_existing_range(s2, sid, 0);
        if first_existing(sv, sid, 0) < 0 {
            assert forall|j: int| 0 <= j < 64 && j != f.1 implies !(#[trigger] s2[j].in_use && s2[j].service_id == sid) by {
                assert(s2[j] == sv[j]);
            }
        } else {
            assert forall|j: int| 0 <= j < f.1 implies !(#[trigger] s2[j].in_use && s2[j].service_id == sid) by {
                lemma_first_existing_before(sv, sid, j);
            }
        }
        lemma_first_existing_finds(s2, sid, f.1);
    }
}

/// `first_existing` from 0 passes over slot `j` when it finds a later one.
proof fn lemma_first_existing_before(sv: Seq<ServiceView>, sid: i32, j: int)
    requires 0 <= j < first_existing(sv, sid, 0),
    ensures !(sv[j].in_use && sv[j].service_id == sid),
{
    lemma_first_existing_skips(sv, sid, 0, j);
}

proof fn lemma_first_existing_skips(sv: Seq<ServiceView>, sid: i32, i: int, j: int)
    requires 0 <= i <= j < first_existing(sv, sid, i),
    ensures !(sv[j].in_use && sv[j].service_id == sid),
    decreases j - i,
{
    if i < j {
        assert(!(sv[i].in_use && sv[i].service_id == sid));
        lemma_first_existing_skips(sv, sid, i + 1, j);
    }
}

/// The first slot holding `sid` is found.
proof fn lemma_first_existing_finds(sv: Seq<ServiceView>, sid: i32, k: int)
    requires
        0 <= k < 64,
        sv[k].in_use && sv[k].service_id == sid,
        forall|j: int| 0 <= j < k ==> !(#[trigger] sv[j].in_use && sv[j].service_id == sid),
    ensures first_existing(sv, sid, 0) == k,
{
    lemma_first_existing_from(sv, sid, 0, k);
}

proof fn lemma_first_existing_from(sv: Seq<ServiceView>, sid: i32, i: int, k: int)
    requires
        0 <= i <= k < 64,
        sv[k].in_use && sv[k].service_id == sid,
        forall|j: int| 0 <= j < k ==> !(#[trigger] sv[j].in_use && sv[j].service_id == sid),
    ensures first_existing(sv, sid, i) == k,
    decreases k - i,
{
    if i < k {
        assert(!(sv[i].in_use && sv[i].service_id == sid));
        lemma_first_existing_from(sv, sid, i + 1, k);
    }
}

/// A new or cleared database has no named service.
pub proof fn lemma_empty_database_names_nothing(sid: i32)
    ensures !service_named(empty_fib_view(), sid),
{
    let sv = empty_fib_view().services;
    lemma_first_existing_range(sv, sid, 0);
}

} // verus!
