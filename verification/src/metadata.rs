//! Metadata events for the side channel: ensemble and service
//! announcements, dynamic labels and slides, with ids written as `0x` and
//! at least four upper-case hex digits and slide data in base64.

use vstd::prelude::*;
use base64::Engine;
use crate::labels::string_from_chars;

verus! {

/// Upper-case hex digit of `d` (0..16).
pub open spec fn hex_char(d: int) -> char {
    if d == 0 { '0' } else if d == 1 { '1' } else if d == 2 { '2' } else if d == 3 { '3' }
    else if d == 4 { '4' } else if d == 5 { '5' } else if d == 6 { '6' } else if d == 7 { '7' }
    else if d == 8 { '8' } else if d == 9 { '9' } else if d == 10 { 'A' } else if d == 11 { 'B' }
    else if d == 12 { 'C' } else if d == 13 { 'D' } else if d == 14 { 'E' } else { 'F' }
}

/// Hex digits of `v`, most significant first, zero-padded to at least
/// `width` digits.
pub open spec fn hex_digits(v: nat, width: nat) -> Seq<char>
    decreases v, width,
{
    if v < 16 && width <= 1 {
        seq![hex_char(v as int)]
    } else {
        hex_digits(v / 16, if width > 0 { (width - 1) as nat } else { 0 }).push(hex_char((v % 16) as int))
    }
}

/// An id as the side channel writes it: `0x` and at least four upper-case
/// hex digits.
pub open spec fn hex_id_text(v: u32) -> Seq<char> {
    seq!['0', 'x'] + hex_digits(v as nat, 4)
}

/// Character of a 6-bit value in the standard base64 alphabet
/// (`A`–`Z`, `a`–`z`, `0`–`9`, `+`, `/`).
pub open spec fn base64_char(v: int) -> char {
    if v < 26 { (65 + v) as char }
    else if v < 52 { (97 + v - 26) as char }
    else if v < 62 { (48 + v - 52) as char }
    else if v == 62 { '+' }
    else { '/' }
}

/// Standard base64 with padding (RFC 4648 §4): every group of three bytes
/// gives four characters; a final group of one or two bytes is padded
/// with `=`.
pub open spec fn base64_standard(b: Seq<u8>) -> Seq<char>
    decreases b.len(),
{
    if b.len() == 0 {
        Seq::empty()
    } else {
        let x0 = b[0] as int;
        if b.len() == 1 {
            seq![base64_char(x0 / 4), base64_char((x0 % 4) * 16), '=', '=']
        } else {
            let x1 = b[1] as int;
            if b.len() == 2 {
                seq![base64_char(x0 / 4), base64_char((x0 % 4) * 16 + x1 / 16), base64_char((x1 % 16) * 4), '=']
            } else {
                let x2 = b[2] as int;
                seq![base64_char(x0 / 4), base64_char((x0 % 4) * 16 + x1 / 16),
                    base64_char((x1 % 16) * 4 + x2 / 64), base64_char(x2 % 64)]
                    + base64_standard(b.skip(3))
            }
        }
    }
}

/// `base64::engine::general_purpose::STANDARD.encode`: the payload in
/// standard base64 with padding. (The engine panics only when the encoded
/// length overflows `usize`, which the bound on the payload excludes.)
#[verifier::external_body]
fn encode_base64(payload: &[u8]) -> (s: String)
    requires payload@.len() <= usize::MAX / 2,
    ensures s@ == base64_standard(payload@),
{
    base64::engine::general_purpose::STANDARD.encode(payload)
}

/// One event of the side channel.
#[derive(Debug, Clone)]
pub enum MetadataEvent {
    Ensemble { eid: String, label: String },
    Service { sid: String, label: String },
    DynamicLabel { text: String },
    Slide { content_name: String, content_type: String, data: Option<String> },
}

fn hex_char_of(d: u32) -> (c: char)
    requires d < 16,
    ensures c == hex_char(d as int),
{
    if d == 0 { '0' } else if d == 1 { '1' } else if d == 2 { '2' } else if d == 3 { '3' }
    else if d == 4 { '4' } else if d == 5 { '5' } else if d == 6 { '6' } else if d == 7 { '7' }
    else if d == 8 { '8' } else if d == 9 { '9' } else if d == 10 { 'A' } else if d == 11 { 'B' }
    else if d == 12 { 'C' } else if d == 13 { 'D' } else if d == 14 { 'E' } else { 'F' }
}

fn push_hex_digits(v: u32, width: u32, out: &mut Vec<char>)
    ensures final(out)@ == old(out)@ + hex_digits(v as nat, width as nat),
    decreases v, width,
{
    if v < 16 && width <= 1 {
        out.push(hex_char_of(v));
        proof { assert(final(out)@ =~= old(out)@ + hex_digits(v as nat, width as nat)); }
    } else {
        let w = if width > 0 { width - 1 } else { 0 };
        push_hex_digits(v / 16, w, out);
        out.push(hex_char_of(v % 16));
        proof {
            assert(hex_digits(v as nat, width as nat) == hex_digits(v as nat / 16, w as nat).push(hex_char((v % 16) as int)));
            assert(final(out)@ =~= old(out)@ + hex_digits(v as nat, width as nat));
        }
    }
}

/// `v` as the side channel writes ids (see `hex_id_text`).
pub fn hex_id(v: u32) -> (s: String)
    ensures s@ == hex_id_text(v),
{
    let mut chars: Vec<char> = Vec::new();
    chars.push('0');
    chars.push('x');
    push_hex_digits(v, 4, &mut chars);
    assert(chars@ =~= hex_id_text(v));
    string_from_chars(chars.as_slice())
}

/// The ensemble announcement.
pub fn ensemble_event(eid: u32, label: &str) -> (e: MetadataEvent)
    ensures e matches MetadataEvent::Ensemble { eid: id, label: l } && id@ == hex_id_text(eid) && l@ == label@,
{
    MetadataEvent::Ensemble { eid: hex_id(eid), label: label.to_owned() }
}

/// The service announcement.
pub fn service_event(sid: u32, label: &str) -> (e: MetadataEvent)
    ensures e matches MetadataEvent::Service { sid: id, label: l } && id@ == hex_id_text(sid) && l@ == label@,
{
    MetadataEvent::Service { sid: hex_id(sid), label: label.to_owned() }
}

/// A dynamic label.
pub fn dynamic_label_event(text: &str) -> (e: MetadataEvent)
    ensures e matches MetadataEvent::DynamicLabel { text: t } && t@ == text@,
{
    MetadataEvent::DynamicLabel { text: text.to_owned() }
}

/// A slide: its name and type, and its bytes in base64 when asked for.
pub fn slide_event(content_name: &str, content_type: &str, payload: &[u8], include_base64: bool) -> (e: MetadataEvent)
    requires payload@.len() <= usize::MAX / 2,
    ensures
        e matches MetadataEvent::Slide { content_name: n, content_type: t, data: d }
            && n@ == content_name@ && t@ == content_type@
            && (include_base64 <==> d is Some)
            && (d matches Some(b) ==> b@ == base64_standard(payload@)),
{
    let data = if include_base64 { Some(encode_base64(payload)) } else { None };
    MetadataEvent::Slide { content_name: content_name.to_owned(), content_type: content_type.to_owned(), data }
}

} // verus!
