//! Decisions of the receive loop that turn counters into status: the
//! metadata blackout test and the smoothed FIC confidence; the reading of
//! the service id given on the command line; and the timed waits for sync,
//! ensemble and services before playback starts or a scan is summarised.

use vstd::prelude::*;
use vstd::string::StrSliceExecFns;

verus! {

/// Frames queued between the OFDM thread and the audio thread (~100 ms).
pub const CHANNEL_CAPACITY: usize = 4;

/// OFDM phase-correlation threshold while acquiring.
pub const OFDM_ACQ_THRESHOLD: i16 = 2;
/// OFDM phase-correlation threshold while tracking.
pub const OFDM_TRACK_THRESHOLD: i16 = 5;

/// A second counts as a metadata blackout when sync failures outnumber
/// successes and neither a dynamic label nor a slide arrived.
pub fn is_metadata_blackout_during_dropout(sync_ok: i32, sync_fail: i32, dls_events: i32, slide_events: i32) -> (b: bool)
    ensures b == (sync_fail > sync_ok && dls_events == 0 && slide_events == 0),
{
    sync_fail > sync_ok && dls_events == 0 && slide_events == 0
}

/// `x` saturated to the `i16` range.
pub open spec fn sat_i16(x: int) -> int {
    if x > i16::MAX { i16::MAX as int } else if x < i16::MIN { i16::MIN as int } else { x }
}

/// The FIC confidence after a frame with `success` good FIBs out of
/// `total`: two steps up per good FIB, one step down when any failed,
/// kept within 0..=10 and at least 1 once anything was ever decoded.
pub open spec fn fic_confidence_spec(current_steps: i16, success: i16, total: i16) -> int {
    let s = if success > 0 { success as int } else { 0 };
    let failure = sat_i16(total - s);
    let rose = sat_i16(current_steps + sat_i16(s * 2));
    let decayed = if failure > 0 { sat_i16(rose - 1) } else { rose };
    let minimum = if current_steps > 0 || s > 0 { 1 } else { 0 };
    if decayed < minimum { minimum } else if decayed > 10 { 10 } else { decayed }
}

fn saturate_i16(x: i32) -> (r: i16)
    ensures r == sat_i16(x as int),
{
    if x > 32767 { 32767 } else if x < -32768 { -32768 } else { x as i16 }
}

/// Smoothed FIC confidence (0..=10) after one FIC frame.
pub fn update_fic_confidence_steps(current_steps: i16, success: i16, total: i16) -> (r: i16)
    ensures r == fic_confidence_spec(current_steps, success, total), 0 <= r <= 10,
{
    let s: i16 = if success > 0 { success } else { 0 };
    let failure = saturate_i16(total as i32 - s as i32);
    let doubled = saturate_i16(s as i32 * 2);
    let rose = saturate_i16(current_steps as i32 + doubled as i32);
    let decayed = if failure > 0 { saturate_i16(rose as i32 - 1) } else { rose };
    let minimum: i16 = if current_steps > 0 || s > 0 { 1 } else { 0 };
    if decayed < minimum { minimum } else if decayed > 10 { 10 } else { decayed }
}

/// Confidence, once established, never falls back to zero: zero means no
/// FIB was ever decoded since start-up.
pub proof fn lemma_fic_confidence_stays_positive(current_steps: i16, success: i16, total: i16)
    requires current_steps > 0,
    ensures fic_confidence_spec(current_steps, success, total) >= 1,
{
}

/// Confidence builds faster than it decays: a fully good frame adds two
/// steps per FIB (up to 10), a fully bad one takes away a single step.
pub proof fn lemma_fic_confidence_asymmetric(current_steps: i16, n: i16)
    requires 0 <= current_steps <= 10, 1 <= n <= 5,
    ensures
        fic_confidence_spec(current_steps, n, n) == (if current_steps + 2 * n > 10 { 10 } else { current_steps + 2 * n }),
        fic_confidence_spec(current_steps, 0, n) == (if current_steps >= 2 { current_steps - 1 } else if current_steps == 1 { 1 } else { 0 }),
{
}

/// Unicode `White_Space` (what `str::trim` removes).
pub open spec fn is_white_space(c: char) -> bool {
    let v = c as u32;
    (0x09 <= v <= 0x0D) || v == 0x20 || v == 0x85 || v == 0xA0 || v == 0x1680
        || (0x2000 <= v <= 0x200A) || v == 0x2028 || v == 0x2029 || v == 0x202F
        || v == 0x205F || v == 0x3000
}

/// Number of white-space characters at the start of `s`.
pub open spec fn leading_white(s: Seq<char>) -> nat
    decreases s.len(),
{
    if s.len() > 0 && is_white_space(s[0]) { 1 + leading_white(s.skip(1)) } else { 0 }
}

/// Number of white-space characters at the end of `s`.
pub open spec fn trailing_white(s: Seq<char>) -> nat
    decreases s.len(),
{
    if s.len() > 0 && is_white_space(s.last()) { 1 + trailing_white(s.drop_last()) } else { 0 }
}

/// `s` without leading and trailing white space.
pub open spec fn trimmed(s: Seq<char>) -> Seq<char> {
    let t = s.skip(leading_white(s) as int);
    t.take(t.len() - trailing_white(t))
}

/// `t` without a leading `0x` or `0X`.
pub open spec fn without_hex_prefix(t: Seq<char>) -> Seq<char> {
    if t.len() >= 2 && t[0] == '0' && (t[1] == 'x' || t[1] == 'X') { t.skip(2) } else { t }
}

/// Value of a hexadecimal digit (either case).
pub open spec fn hex_digit_value(c: char) -> Option<int> {
    if '0' <= c <= '9' { Some(c as int - '0' as int) }
    else if 'a' <= c <= 'f' { Some(c as int - 'a' as int + 10) }
    else if 'A' <= c <= 'F' { Some(c as int - 'A' as int + 10) }
    else { None }
}

/// Value of a string of hexadecimal digits; `None` if a character is not one.
pub open spec fn hex_value(d: Seq<char>) -> Option<int>
    decreases d.len(),
{
    if d.len() == 0 {
        Some(0)
    } else {
        match (hex_value(d.drop_last()), hex_digit_value(d.last())) {
            (Some(hi), Some(lo)) => Some(16 * hi + lo),
            _ => None,
        }
    }
}

/// `u16::from_str_radix(t, 16)` as its documentation states it: an optional
/// `+`, then at least one hexadecimal digit, the value fitting in `u16`.
pub open spec fn hex_u16(t: Seq<char>) -> Option<u16> {
    let d = if t.len() > 0 && t[0] == '+' { t.skip(1) } else { t };
    if d.len() == 0 {
        None
    } else {
        match hex_value(d) {
            Some(v) => if v <= u16::MAX { Some(v as u16) } else { None },
            None => None,
        }
    }
}

/// The service id given on the command line: hexadecimal, with or without
/// `0x`/`0X`, surrounding white space ignored; `None` when it is not a
/// 16-bit hexadecimal number.
pub open spec fn sid_of(s: Seq<char>) -> Option<u16> {
    hex_u16(without_hex_prefix(trimmed(s)))
}

fn char_is_white_space(c: char) -> (b: bool)
    ensures b == is_white_space(c),
{
    let v = c as u32;
    (0x09 <= v && v <= 0x0D) || v == 0x20 || v == 0x85 || v == 0xA0 || v == 0x1680
        || (0x2000 <= v && v <= 0x200A) || v == 0x2028 || v == 0x2029 || v == 0x202F
        || v == 0x205F || v == 0x3000
}

fn hex_digit(c: char) -> (r: Option<u16>)
    ensures
        match hex_digit_value(c) {
            Some(v) => r == Some(v as u16),
            None => r is None,
        },
{
    if '0' <= c && c <= '9' {
        Some((c as u32 - '0' as u32) as u16)
    } else if 'a' <= c && c <= 'f' {
        Some((c as u32 - 'a' as u32 + 10) as u16)
    } else if 'A' <= c && c <= 'F' {
        Some((c as u32 - 'A' as u32 + 10) as u16)
    } else {
        None
    }
}

proof fn lemma_leading_white(s: Seq<char>, i: int)
    requires
        0 <= i <= s.len(),
        forall|k: int| 0 <= k < i ==> is_white_space(#[trigger] s[k]),
        i == s.len() || !is_white_space(s[i]),
    ensures leading_white(s) == i,
    decreases i,
{
    if i > 0 {
        lemma_leading_white(s.skip(1), i - 1);
    }
}

proof fn lemma_trailing_white(s: Seq<char>, j: int)
    requires
        0 <= j <= s.len(),
        forall|k: int| j <= k < s.len() ==> is_white_space(#[trigger] s[k]),
        j == 0 || !is_white_space(s[j - 1]),
    ensures trailing_white(s) == s.len() - j,
    decreases s.len() - j,
{
    if j < s.len() {
        lemma_trailing_white(s.drop_last(), j);
    }
}

proof fn lemma_hex_value_prefix(d: Seq<char>, k: int)
    requires 0 <= k < d.len(), hex_value(d.take(k)) is Some, hex_digit_value(d[k]) is Some,
    ensures hex_value(d.take(k + 1)) == Some(16 * hex_value(d.take(k))->0 + hex_digit_value(d[k])->0),
{
    assert(d.take(k + 1).drop_last() =~= d.take(k));
}

proof fn lemma_hex_value_bad_digit(d: Seq<char>, k: int, n: int)
    requires 0 <= k < n <= d.len(), hex_value(d.take(k + 1)) is None,
    ensures hex_value(d.take(n)) is None,
    decreases n - k,
{
    if n > k + 1 {
        lemma_hex_value_bad_digit(d, k, n - 1);
        assert(d.take(n).drop_last() =~= d.take(n - 1));
    }
}

proof fn lemma_hex_value_grows(d: Seq<char>, k: int, n: int)
    requires 0 <= k <= n <= d.len(), hex_value(d.take(n)) is Some,
    ensures hex_value(d.take(k)) is Some, hex_value(d.take(k))->0 <= hex_value(d.take(n))->0,
    decreases n - k,
{
    if k < n {
        assert(d.take(n).drop_last() =~= d.take(n - 1));
        lemma_hex_value_grows(d, k, n - 1);
        lemma_hex_value_nonneg(d.take(n - 1));
        let c = d.take(n).last();
        assert(hex_digit_value(c) is Some);
    }
}

proof fn lemma_hex_value_nonneg(d: Seq<char>)
    requires hex_value(d) is Some,
    ensures hex_value(d)->0 >= 0,
    decreases d.len(),
{
    if d.len() > 0 {
        lemma_hex_value_nonneg(d.drop_last());
    }
}

/// The service id given on the command line (see `sid_of`).
pub fn parse_sid(s: &str) -> (r: Option<u16>)
    ensures r == sid_of(s@),
{
    let n = s.unicode_len();
    // leading white space
    let mut a: usize = 0;
    while a < n && char_is_white_space(s.get_char(a))
        invariant
            a <= n,
            n == s@.len(),
            forall|k: int| 0 <= k < a ==> is_white_space(#[trigger] s@[k]),
        decreases n - a,
    {
        a = a + 1;
    }
    proof { lemma_leading_white(s@, a as int); }
    let ghost t = s@.skip(a as int);
    // trailing white space
    let mut b: usize = n;
    while b > a && char_is_white_space(s.get_char(b - 1))
        invariant
            a <= b <= n,
            n == s@.len(),
            t == s@.skip(a as int),
            forall|k: int| b <= k < n ==> is_white_space(#[trigger] s@[k]),
        decreases b - a,
    {
        b = b - 1;
    }
    proof {
        assert forall|k: int| (b - a) <= k < t.len() implies is_white_space(#[trigger] t[k]) by {
            assert(t[k] == s@[a + k]);
        }
        if b > a {
            assert(t[b - a - 1] == s@[b - 1]);
        }
        lemma_trailing_white(t, (b - a) as int);
    }
    let ghost tr = trimmed(s@);
    assert(tr =~= s@.subrange(a as int, b as int));
    // 0x / 0X prefix
    let mut start = a;
    if b - a >= 2 && s.get_char(a) == '0' && (s.get_char(a + 1) == 'x' || s.get_char(a + 1) == 'X') {
        start = a + 2;
    }
    let ghost h = without_hex_prefix(tr);
    assert(h =~= s@.subrange(start as int, b as int));
    // optional '+'
    if start < b && s.get_char(start) == '+' {
        start = start + 1;
    }
    let ghost d = if h.len() > 0 && h[0] == '+' { h.skip(1) } else { h };
    assert(d =~= s@.subrange(start as int, b as int));
    if start == b {
        return None;
    }
    assert(sid_of(s@) == (match hex_value(d) {
        Some(v) => if v <= u16::MAX { Some(v as u16) } else { None },
        None => None,
    }));
    let mut value: u32 = 0;
    let mut i: usize = start;
    while i < b
        invariant
            sid_of(s@) == (match hex_value(d) {
                Some(v) => if v <= u16::MAX { Some(v as u16) } else { None },
                None => None,
            }),
            start <= i <= b <= n,
            n == s@.len(),
            d == s@.subrange(start as int, b as int),
            hex_value(d.take(i - start)) == Some(value as int),
            value <= u16::MAX,
        decreases b - i,
    {
        let k = i - start;
        assert(d[k as int] == s@[i as int]);
        match hex_digit(s.get_char(i)) {
            Some(v) => {
                proof { lemma_hex_value_prefix(d, k as int); }
                let next = 16 * value + v as u32;
                if next > 0xFFFF {
                    proof {
                        assert(d.take(d.len() as int) =~= d);
                        if hex_value(d) is Some {
                            lemma_hex_value_grows(d, k + 1, d.len() as int);
                        }
                    }
                    return None;
                }
                value = next;
            }
            None => {
                proof {
                    assert(d.take(k + 1).drop_last() =~= d.take(k as int));
                    lemma_hex_value_bad_digit(d, k as int, d.len() as int);
                    assert(d.take(d.len() as int) =~= d);
                }
                return None;
            }
        }
        i = i + 1;
    }
    assert(d.take(d.len() as int) =~= d);
    Some(value as u16)
}

/// Where the start of playback stands: waiting for time sync (seconds
/// left, and the seconds then granted to ensemble detection), waiting for
/// the ensemble (seconds left, one second having just been slept), started,
/// or given up.
#[derive(Debug, Clone, Copy, PartialEq, Eq, Structural)]
pub enum StartupPhase {
    WaitSync { left: i16, detect: i16 },
    WaitEnsemble { left: i16 },
    Started,
    GaveUp,
}

/// What the caller does after a startup step.
#[derive(Debug, Clone, Copy, PartialEq, Eq, Structural)]
pub enum StartupAction {
    /// Sleep one second, then step again with fresh flags.
    Sleep,
    /// Start the audio pipeline.
    StartAudio,
    /// No usable signal: stop and exit with status 1.
    GiveUp,
}

impl StartupPhase {
    /// The first phase: time sync gets `sync_time` seconds, ensemble
    /// detection `detect_time` seconds.
    pub fn new(sync_time: i16, detect_time: i16) -> (p: Self)
        ensures p == (StartupPhase::WaitSync { left: sync_time, detect: detect_time }),
    {
        StartupPhase::WaitSync { left: sync_time, detect: detect_time }
    }

    /// No further step follows.
    pub open spec fn is_done(self) -> bool {
        self is Started || self is GaveUp
    }

    /// Steps left at most before the startup is done.
    pub open spec fn steps_left(self) -> int {
        match self {
            StartupPhase::WaitSync { left, detect } =>
                (if left > 0 { left as int } else { 0 }) + (if detect > 0 { detect as int } else { 0 }) + 1,
            StartupPhase::WaitEnsemble { left } => (if left > 0 { left as int } else { 0 }) + 1,
            _ => 0,
        }
    }
}

/// Entering the ensemble wait with `left` seconds: sleep while any is left,
/// otherwise start at once.
pub open spec fn enter_ensemble_wait(left: i16) -> (StartupPhase, StartupAction) {
    if left > 0 {
        (StartupPhase::WaitEnsemble { left: (left - 1) as i16 }, StartupAction::Sleep)
    } else {
        (StartupPhase::Started, StartupAction::StartAudio)
    }
}

/// One step of the wait before playback, given whether the demodulator is
/// time-synced and whether the ensemble has been recognised. While not
/// synced it sleeps a second at a time for as long as time is left, then
/// gives up. Once synced it waits for the ensemble: it sleeps a second,
/// counts it, and starts as soon as the ensemble is recognised or the
/// time is used up. A done phase stays as it is.
pub open spec fn startup_next(phase: StartupPhase, time_synced: bool, ensemble_recognized: bool)
    -> (StartupPhase, StartupAction)
{
    match phase {
        StartupPhase::WaitSync { left, detect } =>
            if time_synced { enter_ensemble_wait(detect) }
            else if left > 0 { (StartupPhase::WaitSync { left: (left - 1) as i16, detect }, StartupAction::Sleep) }
            else { (StartupPhase::GaveUp, StartupAction::GiveUp) },
        StartupPhase::WaitEnsemble { left } =>
            if ensemble_recognized { (StartupPhase::Started, StartupAction::StartAudio) }
            else { enter_ensemble_wait(left) },
        StartupPhase::Started => (StartupPhase::Started, StartupAction::StartAudio),
        StartupPhase::GaveUp => (StartupPhase::GaveUp, StartupAction::GiveUp),
    }
}

/// Executes `startup_next`.
pub fn startup_step(phase: StartupPhase, time_synced: bool, ensemble_recognized: bool)
    -> (r: (StartupPhase, StartupAction))
    ensures
        r == startup_next(phase, time_synced, ensemble_recognized),
{
    match phase {
        StartupPhase::WaitSync { left, detect } => {
            if time_synced {
                if detect > 0 {
                    (StartupPhase::WaitEnsemble { left: detect - 1 }, StartupAction::Sleep)
                } else {
                    (StartupPhase::Started, StartupAction::StartAudio)
                }
            } else if left > 0 {
                (StartupPhase::WaitSync { left: left - 1, detect }, StartupAction::Sleep)
            } else {
                (StartupPhase::GaveUp, StartupAction::GiveUp)
            }
        },
        StartupPhase::WaitEnsemble { left } => {
            if ensemble_recognized || left <= 0 {
                (StartupPhase::Started, StartupAction::StartAudio)
            } else {
                (StartupPhase::WaitEnsemble { left: left - 1 }, StartupAction::Sleep)
            }
        },
        StartupPhase::Started => (StartupPhase::Started, StartupAction::StartAudio),
        StartupPhase::GaveUp => (StartupPhase::GaveUp, StartupAction::GiveUp),
    }
}

/// Every step of a startup that is not done either sleeps and leaves fewer
/// steps to go, or ends it: the wait takes at most `sync_time +
/// detect_time + 1` steps. The action names the phase reached.
pub proof fn lemma_startup_ends(phase: StartupPhase, time_synced: bool, ensemble_recognized: bool)
    requires !phase.is_done(),
    ensures
        ({
            let (next, action) = startup_next(phase, time_synced, ensemble_recognized);
            &&& 0 <= next.steps_left() < phase.steps_left()
            &&& (action == StartupAction::Sleep <==> !next.is_done())
            &&& (action == StartupAction::StartAudio <==> next == StartupPhase::Started)
            &&& (action == StartupAction::GiveUp <==> next == StartupPhase::GaveUp)
        }),
{
}

/// Playback is given up only in a step of the sync wait that finds the
/// demodulator not synced with no time left; once synced it always starts.
pub proof fn lemma_gives_up_only_unsynced(phase: StartupPhase, time_synced: bool, ensemble_recognized: bool)
    requires !phase.is_done(),
    ensures
        startup_next(phase, time_synced, ensemble_recognized).1 == StartupAction::GiveUp
            <==> (!time_synced && phase is WaitSync && phase->WaitSync_left <= 0),
{
}

/// Where a channel scan stands: waiting for time sync (seconds left, the
/// seconds then granted to service detection, and whether a second has
/// just been slept), detecting services (seconds left after the second
/// just slept, out of `full`), summarising, or no signal found.
#[derive(Debug, Clone, Copy, PartialEq, Eq, Structural)]
pub enum ScanPhase {
    WaitSync { left: i16, detect: i16, slept: bool },
    Detect { left: i16, full: i16 },
    Summary,
    NoSignal,
}

/// What the caller does after a scan step.
#[derive(Debug, Clone, Copy, PartialEq, Eq, Structural)]
pub enum ScanAction {
    /// Sleep one second, then step again with fresh flags.
    Sleep,
    /// Report what was found.
    Summarize,
    /// No DAB signal: stop and exit with status 1.
    NoSignal,
}

impl ScanPhase {
    /// The first phase of a scan.
    pub fn new(sync_time: i16, detect_time: i16) -> (p: Self)
        ensures p == (ScanPhase::WaitSync { left: sync_time, detect: detect_time, slept: false }),
    {
        ScanPhase::WaitSync { left: sync_time, detect: detect_time, slept: false }
    }
}

/// Entering service detection with `detect` seconds: sleep while time is
/// left and the scan runs, otherwise summarise at once.
pub open spec fn enter_detection(detect: i16, running: bool) -> (ScanPhase, ScanAction) {
    if detect > 0 && running {
        (ScanPhase::Detect { left: (detect - 1) as i16, full: detect }, ScanAction::Sleep)
    } else {
        (ScanPhase::Summary, ScanAction::Summarize)
    }
}

/// One step of a channel scan, given the sync flag, whether the scan still
/// runs (no interrupt), whether the ensemble is recognised and how many
/// services were listed. The sync wait sleeps a second at a time while
/// time is left, stopping early on an interrupt, and reports no signal if
/// sync never came. Detection sleeps a second at a time while time is left
/// and the scan runs, and stops early once the ensemble and a service are
/// known and at least half the detection time has passed.
pub open spec fn scan_next(phase: ScanPhase, time_synced: bool, running: bool, ensemble_recognized: bool,
    services: usize) -> (ScanPhase, ScanAction)
{
    match phase {
        ScanPhase::WaitSync { left, detect, slept } =>
            if (slept && !running) || time_synced || left <= 0 {
                if time_synced { enter_detection(detect, running) } else { (ScanPhase::NoSignal, ScanAction::NoSignal) }
            } else {
                (ScanPhase::WaitSync { left: (left - 1) as i16, detect, slept: true }, ScanAction::Sleep)
            },
        ScanPhase::Detect { left, full } =>
            if ensemble_recognized && services > 0 && left <= full / 2 {
                (ScanPhase::Summary, ScanAction::Summarize)
            } else if left > 0 && running {
                (ScanPhase::Detect { left: (left - 1) as i16, full }, ScanAction::Sleep)
            } else {
                (ScanPhase::Summary, ScanAction::Summarize)
            },
        ScanPhase::Summary => (ScanPhase::Summary, ScanAction::Summarize),
        ScanPhase::NoSignal => (ScanPhase::NoSignal, ScanAction::NoSignal),
    }
}

/// Executes `scan_next`.
pub fn scan_step(phase: ScanPhase, time_synced: bool, running: bool, ensemble_recognized: bool, services: usize)
    -> (r: (ScanPhase, ScanAction))
    ensures r == scan_next(phase, time_synced, running, ensemble_recognized, services),
{
    match phase {
        ScanPhase::WaitSync { left, detect, slept } => {
            if (slept && !running) || time_synced || left <= 0 {
                if !time_synced {
                    (ScanPhase::NoSignal, ScanAction::NoSignal)
                } else if detect > 0 && running {
                    (ScanPhase::Detect { left: detect - 1, full: detect }, ScanAction::Sleep)
                } else {
                    (ScanPhase::Summary, ScanAction::Summarize)
                }
            } else {
                (ScanPhase::WaitSync { left: left - 1, detect, slept: true }, ScanAction::Sleep)
            }
        },
        ScanPhase::Detect { left, full } => {
            if ensemble_recognized && services > 0 && left <= full / 2 {
                (ScanPhase::Summary, ScanAction::Summarize)
            } else if left > 0 && running {
                (ScanPhase::Detect { left: left - 1, full }, ScanAction::Sleep)
            } else {
                (ScanPhase::Summary, ScanAction::Summarize)
            }
        },
        ScanPhase::Summary => (ScanPhase::Summary, ScanAction::Summarize),
        ScanPhase::NoSignal => (ScanPhase::NoSignal, ScanAction::NoSignal),
    }
}

/// Exit status of a finished scan: 2 when FIC blocks arrived but none
/// passed its CRC (signal too weak), 0 otherwise.
pub fn scan_exit_status(fic_ok: i32, fic_total: i32) -> (code: i32)
    ensures code == (if fic_total > 0 && fic_ok == 0 { 2i32 } else { 0i32 }),
{
    if fic_total > 0 && fic_ok == 0 { 2 } else { 0 }
}

/// A scan ends: every step that does not end it sleeps and lowers the
/// seconds left, so a scan takes at most `sync_time + detect_time + 2`
/// steps; and it reports no signal only when sync is missing.
pub proof fn lemma_scan_ends(phase: ScanPhase, time_synced: bool, running: bool, ensemble_recognized: bool,
    services: usize)
    requires !(phase is Summary || phase is NoSignal),
    ensures
        ({
            let (next, action) = scan_next(phase, time_synced, running, ensemble_recognized, services);
            let measure = |p: ScanPhase| match p {
                ScanPhase::WaitSync { left, detect, .. } =>
                    (if left > 0 { left as int } else { 0 }) + (if detect > 0 { detect as int } else { 0 }) + 2,
                ScanPhase::Detect { left, .. } => (if left > 0 { left as int } else { 0 }) + 1,
                _ => 0int,
            };
            &&& 0 <= measure(next) < measure(phase)
            &&& (action == ScanAction::Sleep <==> !(next is Summary || next is NoSignal))
            &&& (action == ScanAction::NoSignal ==> !time_synced && phase is WaitSync)
        }),
{
}

} // verus!
