//! EBU Latin character set (ETSI EN 300 401 Annex C / ETSI TS 101 756
//! Table 1) used for labels in FIG type 1.

use vstd::prelude::*;

verus! {

/// Character that EBU Latin byte `b` stands for. Bytes whose table entry is
/// empty (0x00, 0x0A, 0x0B, 0x1F) map to the character with the same code,
/// so callers can reject them as control characters.
pub open spec fn ebu_latin(b: u8) -> char {
    if b == 0x01 { '\u{118}' }
    else if b == 0x02 { '\u{12E}' }
    else if b == 0x03 { '\u{172}' }
    else if b == 0x04 { '\u{102}' }
    else if b == 0x05 { '\u{116}' }
    else if b == 0x06 { '\u{10E}' }
    else if b == 0x07 { '\u{218}' }
    else if b == 0x08 { '\u{21A}' }
    else if b == 0x09 { '\u{10A}' }
    else if b == 0x0C { '\u{120}' }
    else if b == 0x0D { '\u{139}' }
    else if b == 0x0E { '\u{17B}' }
    else if b == 0x0F { '\u{143}' }
    else if b == 0x10 { '\u{105}' }
    else if b == 0x11 { '\u{119}' }
    else if b == 0x12 { '\u{12F}' }
    else if b == 0x13 { '\u{173}' }
    else if b == 0x14 { '\u{103}' }
    else if b == 0x15 { '\u{117}' }
    else if b == 0x16 { '\u{10F}' }
    else if b == 0x17 { '\u{219}' }
    else if b == 0x18 { '\u{21B}' }
    else if b == 0x19 { '\u{10B}' }
    else if b == 0x1A { '\u{147}' }
    else if b == 0x1B { '\u{11A}' }
    else if b == 0x1C { '\u{121}' }
    else if b == 0x1D { '\u{13A}' }
    else if b == 0x1E { '\u{17C}' }
    else if b == 0x24 { '\u{142}' }
    else if b == 0x5C { '\u{16E}' }
    else if b == 0x5E { '\u{141}' }
    else if b == 0x60 { '\u{104}' }
    else if b == 0x7B { '\u{AB}' }
    else if b == 0x7C { '\u{16F}' }
    else if b == 0x7D { '\u{BB}' }
    else if b == 0x7E { '\u{13D}' }
    else if b == 0x7F { '\u{126}' }
    else if b == 0x80 { '\u{E1}' }
    else if b == 0x81 { '\u{E0}' }
    else if b == 0x82 { '\u{E9}' }
    else if b == 0x83 { '\u{E8}' }
    else if b == 0x84 { '\u{ED}' }
    else if b == 0x85 { '\u{EC}' }
    else if b == 0x86 { '\u{F3}' }
    else if b == 0x87 { '\u{F2}' }
    else if b == 0x88 { '\u{FA}' }
    else if b == 0x89 { '\u{F9}' }
    else if b == 0x8A { '\u{D1}' }
    else if b == 0x8B { '\u{C7}' }
    else if b == 0x8C { '\u{15E}' }
    else if b == 0x8D { '\u{DF}' }
    else if b == 0x8E { '\u{A1}' }
    else if b == 0x8F { '\u{178}' }
    else if b == 0x90 { '\u{E2}' }
    else if b == 0x91 { '\u{E4}' }
    else if b == 0x92 { '\u{EA}' }
    else if b == 0x93 { '\u{EB}' }
    else if b == 0x94 { '\u{EE}' }
    else if b == 0x95 { '\u{EF}' }
    else if b == 0x96 { '\u{F4}' }
    else if b == 0x97 { '\u{F6}' }
    else if b == 0x98 { '\u{FB}' }
    else if b == 0x99 { '\u{FC}' }
    else if b == 0x9A { '\u{F1}' }
    else if b == 0x9B { '\u{E7}' }
    else if b == 0x9C { '\u{15F}' }
    else if b == 0x9D { '\u{11F}' }
    else if b == 0x9E { '\u{131}' }
    else if b == 0x9F { '\u{FF}' }
    else if b == 0xA0 { '\u{136}' }
    else if b == 0xA1 { '\u{145}' }
    else if b == 0xA2 { '\u{A9}' }
    else if b == 0xA3 { '\u{122}' }
    else if b == 0xA4 { '\u{11E}' }
    else if b == 0xA5 { '\u{11B}' }
    else if b == 0xA6 { '\u{148}' }
    else if b == 0xA7 { '\u{151}' }
    else if b == 0xA8 { '\u{150}' }
    else if b == 0xA9 { '\u{20AC}' }
    else if b == 0xAA { '\u{A3}' }
    else if b == 0xAB { '\u{24}' }
    else if b == 0xAC { '\u{100}' }
    else if b == 0xAD { '\u{112}' }
    else if b == 0xAE { '\u{12A}' }
    else if b == 0xAF { '\u{16A}' }
    else if b == 0xB0 { '\u{137}' }
    else if b == 0xB1 { '\u{146}' }
    else if b == 0xB2 { '\u{13B}' }
    else if b == 0xB3 { '\u{123}' }
    else if b == 0xB4 { '\u{13C}' }
    else if b == 0xB5 { '\u{130}' }
    else if b == 0xB6 { '\u{144}' }
    else if b == 0xB7 { '\u{171}' }
    else if b == 0xB8 { '\u{170}' }
    else if b == 0xB9 { '\u{BF}' }
    else if b == 0xBA { '\u{13E}' }
    else if b == 0xBB { '\u{B0}' }
    else if b == 0xBC { '\u{101}' }
    else if b == 0xBD { '\u{113}' }
    else if b == 0xBE { '\u{12B}' }
    else if b == 0xBF { '\u{16B}' }
    else if b == 0xC0 { '\u{C1}' }
    else if b == 0xC1 { '\u{C0}' }
    else if b == 0xC2 { '\u{C9}' }
    else if b == 0xC3 { '\u{C8}' }
    else if b == 0xC4 { '\u{CD}' }
    else if b == 0xC5 { '\u{CC}' }
    else if b == 0xC6 { '\u{D3}' }
    else if b == 0xC7 { '\u{D2}' }
    else if b == 0xC8 { '\u{DA}' }
    else if b == 0xC9 { '\u{D9}' }
    else if b == 0xCA { '\u{158}' }
    else if b == 0xCB { '\u{10C}' }
    else if b == 0xCC { '\u{160}' }
    else if b == 0xCD { '\u{17D}' }
    else if b == 0xCE { '\u{D0}' }
    else if b == 0xCF { '\u{13F}' }
    else if b == 0xD0 { '\u{C2}' }
    else if b == 0xD1 { '\u{C4}' }
    else if b == 0xD2 { '\u{CA}' }
    else if b == 0xD3 { '\u{CB}' }
    else if b == 0xD4 { '\u{CE}' }
    else if b == 0xD5 { '\u{CF}' }
    else if b == 0xD6 { '\u{D4}' }
    else if b == 0xD7 { '\u{D6}' }
    else if b == 0xD8 { '\u{DB}' }
    else if b == 0xD9 { '\u{DC}' }
    else if b == 0xDA { '\u{159}' }
    else if b == 0xDB { '\u{10D}' }
    else if b == 0xDC { '\u{161}' }
    else if b == 0xDD { '\u{17E}' }
    else if b == 0xDE { '\u{111}' }
    else if b == 0xDF { '\u{140}' }
    else if b == 0xE0 { '\u{C3}' }
    else if b == 0xE1 { '\u{C5}' }
    else if b == 0xE2 { '\u{C6}' }
    else if b == 0xE3 { '\u{152}' }
    else if b == 0xE4 { '\u{177}' }
    else if b == 0xE5 { '\u{DD}' }
    else if b == 0xE6 { '\u{D5}' }
    else if b == 0xE7 { '\u{D8}' }
    else if b == 0xE8 { '\u{DE}' }
    else if b == 0xE9 { '\u{14A}' }
    else if b == 0xEA { '\u{154}' }
    else if b == 0xEB { '\u{106}' }
    else if b == 0xEC { '\u{15A}' }
    else if b == 0xED { '\u{179}' }
    else if b == 0xEE { '\u{164}' }
    else if b == 0xEF { '\u{F0}' }
    else if b == 0xF0 { '\u{E3}' }
    else if b == 0xF1 { '\u{E5}' }
    else if b == 0xF2 { '\u{E6}' }
    else if b == 0xF3 { '\u{153}' }
    else if b == 0xF4 { '\u{175}' }
    else if b == 0xF5 { '\u{FD}' }
    else if b == 0xF6 { '\u{F5}' }
    else if b == 0xF7 { '\u{F8}' }
    else if b == 0xF8 { '\u{FE}' }
    else if b == 0xF9 { '\u{14B}' }
    else if b == 0xFA { '\u{155}' }
    else if b == 0xFB { '\u{107}' }
    else if b == 0xFC { '\u{15B}' }
    else if b == 0xFD { '\u{17A}' }
    else if b == 0xFE { '\u{165}' }
    else if b == 0xFF { '\u{127}' }
    else { (b as u32) as char }
}

/// Convert an EBU Latin byte to its character.
pub fn ebu_to_char(ch: u8) -> (c: char)
    ensures c == ebu_latin(ch),
{
    match ch {
        0x01 => '\u{118}',
        0x02 => '\u{12E}',
        0x03 => '\u{172}',
        0x04 => '\u{102}',
        0x05 => '\u{116}',
        0x06 => '\u{10E}',
        0x07 => '\u{218}',
        0x08 => '\u{21A}',
        0x09 => '\u{10A}',
        0x0C => '\u{120}',
        0x0D => '\u{139}',
        0x0E => '\u{17B}',
        0x0F => '\u{143}',
        0x10 => '\u{105}',
        0x11 => '\u{119}',
        0x12 => '\u{12F}',
        0x13 => '\u{173}',
        0x14 => '\u{103}',
        0x15 => '\u{117}',
        0x16 => '\u{10F}',
        0x17 => '\u{219}',
        0x18 => '\u{21B}',
        0x19 => '\u{10B}',
        0x1A => '\u{147}',
        0x1B => '\u{11A}',
        0x1C => '\u{121}',
        0x1D => '\u{13A}',
        0x1E => '\u{17C}',
        0x24 => '\u{142}',
        0x5C => '\u{16E}',
        0x5E => '\u{141}',
        0x60 => '\u{104}',
        0x7B => '\u{AB}',
        0x7C => '\u{16F}',
        0x7D => '\u{BB}',
        0x7E => '\u{13D}',
        0x7F => '\u{126}',
        0x80 => '\u{E1}',
        0x81 => '\u{E0}',
        0x82 => '\u{E9}',
        0x83 => '\u{E8}',
        0x84 => '\u{ED}',
        0x85 => '\u{EC}',
        0x86 => '\u{F3}',
        0x87 => '\u{F2}',
        0x88 => '\u{FA}',
        0x89 => '\u{F9}',
        0x8A => '\u{D1}',
        0x8B => '\u{C7}',
        0x8C => '\u{15E}',
        0x8D => '\u{DF}',
        0x8E => '\u{A1}',
        0x8F => '\u{178}',
        0x90 => '\u{E2}',
        0x91 => '\u{E4}',
        0x92 => '\u{EA}',
        0x93 => '\u{EB}',
        0x94 => '\u{EE}',
        0x95 => '\u{EF}',
        0x96 => '\u{F4}',
        0x97 => '\u{F6}',
        0x98 => '\u{FB}',
        0x99 => '\u{FC}',
        0x9A => '\u{F1}',
        0x9B => '\u{E7}',
        0x9C => '\u{15F}',
        0x9D => '\u{11F}',
        0x9E => '\u{131}',
        0x9F => '\u{FF}',
        0xA0 => '\u{136}',
        0xA1 => '\u{145}',
        0xA2 => '\u{A9}',
        0xA3 => '\u{122}',
        0xA4 => '\u{11E}',
        0xA5 => '\u{11B}',
        0xA6 => '\u{148}',
        0xA7 => '\u{151}',
        0xA8 => '\u{150}',
        0xA9 => '\u{20AC}',
        0xAA => '\u{A3}',
        0xAB => '\u{24}',
        0xAC => '\u{100}',
        0xAD => '\u{112}',
        0xAE => '\u{12A}',
        0xAF => '\u{16A}',
        0xB0 => '\u{137}',
        0xB1 => '\u{146}',
        0xB2 => '\u{13B}',
        0xB3 => '\u{123}',
        0xB4 => '\u{13C}',
        0xB5 => '\u{130}',
        0xB6 => '\u{144}',
        0xB7 => '\u{171}',
        0xB8 => '\u{170}',
        0xB9 => '\u{BF}',
        0xBA => '\u{13E}',
        0xBB => '\u{B0}',
        0xBC => '\u{101}',
        0xBD => '\u{113}',
        0xBE => '\u{12B}',
        0xBF => '\u{16B}',
        0xC0 => '\u{C1}',
        0xC1 => '\u{C0}',
        0xC2 => '\u{C9}',
        0xC3 => '\u{C8}',
        0xC4 => '\u{CD}',
        0xC5 => '\u{CC}',
        0xC6 => '\u{D3}',
        0xC7 => '\u{D2}',
        0xC8 => '\u{DA}',
        0xC9 => '\u{D9}',
        0xCA => '\u{158}',
        0xCB => '\u{10C}',
        0xCC => '\u{160}',
        0xCD => '\u{17D}',
        0xCE => '\u{D0}',
        0xCF => '\u{13F}',
        0xD0 => '\u{C2}',
        0xD1 => '\u{C4}',
        0xD2 => '\u{CA}',
        0xD3 => '\u{CB}',
        0xD4 => '\u{CE}',
        0xD5 => '\u{CF}',
        0xD6 => '\u{D4}',
        0xD7 => '\u{D6}',
        0xD8 => '\u{DB}',
        0xD9 => '\u{DC}',
        0xDA => '\u{159}',
        0xDB => '\u{10D}',
        0xDC => '\u{161}',
        0xDD => '\u{17E}',
        0xDE => '\u{111}',
        0xDF => '\u{140}',
        0xE0 => '\u{C3}',
        0xE1 => '\u{C5}',
        0xE2 => '\u{C6}',
        0xE3 => '\u{152}',
        0xE4 => '\u{177}',
        0xE5 => '\u{DD}',
        0xE6 => '\u{D5}',
        0xE7 => '\u{D8}',
        0xE8 => '\u{DE}',
        0xE9 => '\u{14A}',
        0xEA => '\u{154}',
        0xEB => '\u{106}',
        0xEC => '\u{15A}',
        0xED => '\u{179}',
        0xEE => '\u{164}',
        0xEF => '\u{F0}',
        0xF0 => '\u{E3}',
        0xF1 => '\u{E5}',
        0xF2 => '\u{E6}',
        0xF3 => '\u{153}',
        0xF4 => '\u{175}',
        0xF5 => '\u{FD}',
        0xF6 => '\u{F5}',
        0xF7 => '\u{F8}',
        0xF8 => '\u{FE}',
        0xF9 => '\u{14B}',
        0xFA => '\u{155}',
        0xFB => '\u{107}',
        0xFC => '\u{15B}',
        0xFD => '\u{17A}',
        0xFE => '\u{165}',
        0xFF => '\u{127}',
        _ => ch as char,
    }
}

} // verus!
