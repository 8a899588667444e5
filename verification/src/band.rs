//! Channel frequency table (ETSI EN 300 401, Band III and L band channel
//! plans): the centre frequency of a named channel.

use vstd::prelude::*;
use crate::bits::BAND_III;
use crate::types::str_equal;

verus! {

/// Channel name of Band III table entry `i`.
pub open spec fn band_iii_key(i: int) -> Seq<char> {
    if i == 0 { "5A"@
    } else if i == 1 { "5B"@
    } else if i == 2 { "5C"@
    } else if i == 3 { "5D"@
    } else if i == 4 { "6A"@
    } else if i == 5 { "6B"@
    } else if i == 6 { "6C"@
    } else if i == 7 { "6D"@
    } else if i == 8 { "7A"@
    } else if i == 9 { "7B"@
    } else if i == 10 { "7C"@
    } else if i == 11 { "7D"@
    } else if i == 12 { "8A"@
    } else if i == 13 { "8B"@
    } else if i == 14 { "8C"@
    } else if i == 15 { "8D"@
    } else if i == 16 { "9A"@
    } else if i == 17 { "9B"@
    } else if i == 18 { "9C"@
    } else if i == 19 { "9D"@
    } else if i == 20 { "10A"@
    } else if i == 21 { "10B"@
    } else if i == 22 { "10C"@
    } else if i == 23 { "10D"@
    } else if i == 24 { "11A"@
    } else if i == 25 { "11B"@
    } else if i == 26 { "11C"@
    } else if i == 27 { "11D"@
    } else if i == 28 { "12A"@
    } else if i == 29 { "12B"@
    } else if i == 30 { "12C"@
    } else if i == 31 { "12D"@
    } else if i == 32 { "13A"@
    } else if i == 33 { "13B"@
    } else if i == 34 { "13C"@
    } else if i == 35 { "13D"@
    } else if i == 36 { "13E"@
    } else { "13F"@ }
}

/// Centre frequency (kHz) of Band III table entry `i`.
pub open spec fn band_iii_khz(i: int) -> i32 {
    if i == 0 { 174928i32
    } else if i == 1 { 176640i32
    } else if i == 2 { 178352i32
    } else if i == 3 { 180064i32
    } else if i == 4 { 181936i32
    } else if i == 5 { 183648i32
    } else if i == 6 { 185360i32
    } else if i == 7 { 187072i32
    } else if i == 8 { 188928i32
    } else if i == 9 { 190640i32
    } else if i == 10 { 192352i32
    } else if i == 11 { 194064i32
    } else if i == 12 { 195936i32
    } else if i == 13 { 197648i32
    } else if i == 14 { 199360i32
    } else if i == 15 { 201072i32
    } else if i == 16 { 202928i32
    } else if i == 17 { 204640i32
    } else if i == 18 { 206352i32
    } else if i == 19 { 208064i32
    } else if i == 20 { 209936i32
    } else if i == 21 { 211648i32
    } else if i == 22 { 213360i32
    } else if i == 23 { 215072i32
    } else if i == 24 { 216928i32
    } else if i == 25 { 218640i32
    } else if i == 26 { 220352i32
    } else if i == 27 { 222064i32
    } else if i == 28 { 223936i32
    } else if i == 29 { 225648i32
    } else if i == 30 { 227360i32
    } else if i == 31 { 229072i32
    } else if i == 32 { 230748i32
    } else if i == 33 { 232496i32
    } else if i == 34 { 234208i32
    } else if i == 35 { 235776i32
    } else if i == 36 { 237488i32
    } else { 239200i32 }
}

/// Channel name of L band table entry `i`.
pub open spec fn l_band_key(i: int) -> Seq<char> {
    if i == 0 { "LA"@
    } else if i == 1 { "LB"@
    } else if i == 2 { "LC"@
    } else if i == 3 { "LD"@
    } else if i == 4 { "LE"@
    } else if i == 5 { "LF"@
    } else if i == 6 { "LG"@
    } else if i == 7 { "LH"@
    } else if i == 8 { "LI"@
    } else if i == 9 { "LJ"@
    } else if i == 10 { "LK"@
    } else if i == 11 { "LL"@
    } else if i == 12 { "LM"@
    } else if i == 13 { "LN"@
    } else if i == 14 { "LO"@
    } else { "LP"@ }
}

/// Centre frequency (kHz) of L band table entry `i`.
pub open spec fn l_band_khz(i: int) -> i32 {
    if i == 0 { 1452960i32
    } else if i == 1 { 1454672i32
    } else if i == 2 { 1456384i32
    } else if i == 3 { 1458096i32
    } else if i == 4 { 1459808i32
    } else if i == 5 { 1461520i32
    } else if i == 6 { 1463232i32
    } else if i == 7 { 1464944i32
    } else if i == 8 { 1466656i32
    } else if i == 9 { 1468368i32
    } else if i == 10 { 1470080i32
    } else if i == 11 { 1471792i32
    } else if i == 12 { 1473504i32
    } else if i == 13 { 1475216i32
    } else if i == 14 { 1476928i32
    } else { 1478640i32 }
}

pub open spec fn table_len(band_iii: bool) -> int {
    if band_iii { 38 } else { 16 }
}

pub open spec fn table_key(band_iii: bool, i: int) -> Seq<char> {
    if band_iii { band_iii_key(i) } else { l_band_key(i) }
}

pub open spec fn table_khz(band_iii: bool, i: int) -> i32 {
    if band_iii { band_iii_khz(i) } else { l_band_khz(i) }
}

/// Index of the first entry from `i` on whose name is `key`, −1 if none.
pub open spec fn lookup_from(band_iii: bool, key: Seq<char>, i: int) -> int
    decreases table_len(band_iii) - i,
{
    if i < 0 || i >= table_len(band_iii) {
        -1
    } else if table_key(band_iii, i) == key {
        i
    } else {
        lookup_from(band_iii, key, i + 1)
    }
}

/// Frequency in Hz of the channel named `upper` (already upper case) in the
/// Band III table when `dab_band` is Band III and in the L band table
/// otherwise; an unknown name gives the first entry of the table.
pub open spec fn frequency_for(dab_band: u8, upper: Seq<char>) -> int {
    let b3 = dab_band == BAND_III;
    let idx = lookup_from(b3, upper, 0);
    if idx >= 0 { table_khz(b3, idx) * 1000 } else { table_khz(b3, 0) * 1000 }
}

fn band_iii_entry(i: usize) -> (r: (&'static str, i32))
    requires i < 38,
    ensures r.0@ == band_iii_key(i as int), r.1 == band_iii_khz(i as int),
{
    match i {
        0 => ("5A", 174928),
        1 => ("5B", 176640),
        2 => ("5C", 178352),
        3 => ("5D", 180064),
        4 => ("6A", 181936),
        5 => ("6B", 183648),
        6 => ("6C", 185360),
        7 => ("6D", 187072),
        8 => ("7A", 188928),
        9 => ("7B", 190640),
        10 => ("7C", 192352),
        11 => ("7D", 194064),
        12 => ("8A", 195936),
        13 => ("8B", 197648),
        14 => ("8C", 199360),
        15 => ("8D", 201072),
        16 => ("9A", 202928),
        17 => ("9B", 204640),
        18 => ("9C", 206352),
        19 => ("9D", 208064),
        20 => ("10A", 209936),
        21 => ("10B", 211648),
        22 => ("10C", 213360),
        23 => ("10D", 215072),
        24 => ("11A", 216928),
        25 => ("11B", 218640),
        26 => ("11C", 220352),
        27 => ("11D", 222064),
        28 => ("12A", 223936),
        29 => ("12B", 225648),
        30 => ("12C", 227360),
        31 => ("12D", 229072),
        32 => ("13A", 230748),
        33 => ("13B", 232496),
        34 => ("13C", 234208),
        35 => ("13D", 235776),
        36 => ("13E", 237488),
        _ => ("13F", 239200),
    }
}

fn l_band_entry(i: usize) -> (r: (&'static str, i32))
    requires i < 16,
    ensures r.0@ == l_band_key(i as int), r.1 == l_band_khz(i as int),
{
    match i {
        0 => ("LA", 1452960),
        1 => ("LB", 1454672),
        2 => ("LC", 1456384),
        3 => ("LD", 1458096),
        4 => ("LE", 1459808),
        5 => ("LF", 1461520),
        6 => ("LG", 1463232),
        7 => ("LH", 1464944),
        8 => ("LI", 1466656),
        9 => ("LJ", 1468368),
        10 => ("LK", 1470080),
        11 => ("LL", 1471792),
        12 => ("LM", 1473504),
        13 => ("LN", 1475216),
        14 => ("LO", 1476928),
        _ => ("LP", 1478640),
    }
}

/// The Band III channel plan: frequencies rise strictly with the table
/// order, so distinct channels never share a frequency, and neighbouring
/// 1536 kHz blocks never overlap. Blocks A..D of TV channels 5 to 12 are
/// spaced 1712 kHz apart and each lies wholly inside its 7 MHz TV channel
/// (channel 5 starting at 174 MHz); the blocks of channel 13 are centred
/// between 230 and 240 MHz and end below 240 MHz.
pub proof fn lemma_band_iii_plan(i: int, j: int)
    requires 0 <= i < j < 38,
    ensures
        band_iii_khz(i) < band_iii_khz(j),
        band_iii_khz(j) - band_iii_khz(i) >= 1536,
        i < 32 ==> 174000 + 7000 * (i / 4) + 768 <= band_iii_khz(i) <= 181000 + 7000 * (i / 4) - 768,
        i < 32 && i % 4 != 0 ==> band_iii_khz(i) - band_iii_khz(i - 1) == 1712,
        i >= 32 ==> 230000 <= band_iii_khz(i) && band_iii_khz(j) <= 240000 - 768,
{
    lemma_band_iii_steps(i);
    lemma_band_iii_increasing(i, j);
}

proof fn lemma_band_iii_steps(i: int)
    requires 0 <= i < 38,
    ensures
        i > 0 ==> band_iii_khz(i) - band_iii_khz(i - 1) >= 1536,
        i < 32 ==> 174000 + 7000 * (i / 4) + 768 <= band_iii_khz(i) <= 181000 + 7000 * (i / 4) - 768,
        i < 32 && i % 4 != 0 ==> band_iii_khz(i) - band_iii_khz(i - 1) == 1712,
        i >= 32 ==> 230000 <= band_iii_khz(i) <= 240000 - 768,
{
}

proof fn lemma_band_iii_increasing(i: int, j: int)
    requires 0 <= i < j < 38,
    ensures band_iii_khz(j) - band_iii_khz(i) >= 1536,
    decreases j - i,
{
    lemma_band_iii_steps(j);
    if j - 1 > i {
        lemma_band_iii_increasing(i, j - 1);
        lemma_band_iii_steps(j - 1);
    }
}

/// The L band plan: blocks spaced 1712 kHz apart, rising from LA.
pub proof fn lemma_l_band_plan(i: int)
    requires 0 < i < 16,
    ensures l_band_khz(i) - l_band_khz(i - 1) == 1712,
{
}

proof fn lemma_khz_bounds(b3: bool, i: int)
    requires 0 <= i < table_len(b3),
    ensures 0 < table_khz(b3, i) <= 1478640,
{
}

/// Name of what `str::to_uppercase` returns for a string: the Unicode
/// upper-case mapping of each character.
pub uninterp spec fn uppercase_of(s: Seq<char>) -> Seq<char>;

/// `str::to_uppercase`: the string with every character mapped to upper case.
#[verifier::external_body]
fn to_uppercase(s: &str) -> (u: String)
    ensures u@ == uppercase_of(s@),
{
    s.to_uppercase()
}

/// Frequency in Hz of the channel named `upper` (upper case).
pub fn frequency_of_upper(dab_band: u8, upper: &str) -> (f: i32)
    ensures f == frequency_for(dab_band, upper@),
{
    let b3 = dab_band == BAND_III;
    let n: usize = if b3 { 38 } else { 16 };
    let mut i: usize = 0;
    while i < n
        invariant
            i <= n,
            n == table_len(b3),
            b3 == (dab_band == BAND_III),
            lookup_from(b3, upper@, 0) == lookup_from(b3, upper@, i as int),
        decreases n - i,
    {
        let (key, khz) = if b3 { band_iii_entry(i) } else { l_band_entry(i) };
        if str_equal(key, upper) {
            proof { lemma_khz_bounds(b3, i as int); }
            return khz * 1000;
        }
        i = i + 1;
    }
    let (_, khz0) = if b3 { band_iii_entry(0) } else { l_band_entry(0) };
    proof { lemma_khz_bounds(b3, 0); }
    khz0 * 1000
}

/// Frequency in Hz of a channel ("5A" … "13F" in Band III, "LA" … "LP" in
/// the L band), matched case-insensitively; an unknown name gives the first
/// channel of the band.
pub fn frequency(dab_band: u8, channel: &str) -> (f: i32)
    ensures f == frequency_for(dab_band, uppercase_of(channel@)),
{
    let channel_upper = to_uppercase(channel);
    frequency_of_upper(dab_band, channel_upper.as_str())
}

} // verus!
