use vstd::prelude::*;
use std::collections::BTreeMap;
use crate::protocol::checksum::byte_sum;
use crate::protocol::errors::{error_text, ShdlcError};
use crate::protocol::frame::{find_byte_from, find_from, lemma_find_bounds};
use crate::protocol::text::{decimal_string, decimal_text};
use vstd::string::StringSliceAdditionalSpecFns;

verus! {

// ---------------------------------------------------------------------------
// Text layout: lines and white space (on the UTF-8 bytes of the text)
// ---------------------------------------------------------------------------

/// ASCII white space: tab, line feed, vertical tab, form feed, carriage return, space.
pub open spec fn is_ascii_ws(b: u8) -> bool {
    b == 9 || b == 10 || b == 11 || b == 12 || b == 13 || b == 32
}

/// The three-byte UTF-8 encodings of white-space characters
/// (U+1680, U+2000 to U+200A, U+2028, U+2029, U+202F, U+205F, U+3000).
pub open spec fn is_ws3(a: u8, b: u8, c: u8) -> bool {
    ||| (a == 0xE1 && b == 0x9A && c == 0x80)
    ||| (a == 0xE2 && b == 0x80 && ((0x80 <= c && c <= 0x8A) || c == 0xA8 || c == 0xA9 || c
        == 0xAF))
    ||| (a == 0xE2 && b == 0x81 && c == 0x9F)
    ||| (a == 0xE3 && b == 0x80 && c == 0x80)
}

/// The two-byte UTF-8 encodings of white-space characters (U+0085, U+00A0).
pub open spec fn is_ws2(a: u8, b: u8) -> bool {
    a == 0xC2 && (b == 0x85 || b == 0xA0)
}

/// Length in bytes of the white-space character a UTF-8 text starts with, or 0.
pub open spec fn lead_ws_len(s: Seq<u8>) -> nat {
    if s.len() >= 1 && is_ascii_ws(s[0]) {
        1
    } else if s.len() >= 2 && is_ws2(s[0], s[1]) {
        2
    } else if s.len() >= 3 && is_ws3(s[0], s[1], s[2]) {
        3
    } else {
        0
    }
}

/// Length in bytes of the white-space character a UTF-8 text ends with, or 0.
pub open spec fn trail_ws_len(s: Seq<u8>) -> nat {
    let n = s.len();
    if n >= 1 && is_ascii_ws(s[n - 1]) {
        1
    } else if n >= 2 && is_ws2(s[n - 2], s[n - 1]) {
        2
    } else if n >= 3 && is_ws3(s[n - 3], s[n - 2], s[n - 1]) {
        3
    } else {
        0
    }
}

/// A UTF-8 text without its leading white space.
pub open spec fn trim_start(s: Seq<u8>) -> Seq<u8>
    decreases s.len(),
{
    if lead_ws_len(s) > 0 {
        trim_start(s.skip(lead_ws_len(s) as int))
    } else {
        s
    }
}

/// A UTF-8 text without its trailing white space.
pub open spec fn trim_end(s: Seq<u8>) -> Seq<u8>
    decreases s.len(),
{
    if trail_ws_len(s) > 0 {
        trim_end(s.take(s.len() - trail_ws_len(s)))
    } else {
        s
    }
}

/// A UTF-8 text without leading and trailing white space, as `str::trim` gives it.
pub open spec fn trim_ws(s: Seq<u8>) -> Seq<u8> {
    trim_end(trim_start(s))
}

fn lead_ws(s: &[u8]) -> (k: usize)
    ensures
        k == lead_ws_len(s@),
{
    let n = s.len();
    if n >= 1 && (s[0] == 9 || s[0] == 10 || s[0] == 11 || s[0] == 12 || s[0] == 13 || s[0] == 32) {
        1
    } else if n >= 2 && s[0] == 0xC2 && (s[1] == 0x85 || s[1] == 0xA0) {
        2
    } else if n >= 3 && ws3(s[0], s[1], s[2]) {
        3
    } else {
        0
    }
}

fn trail_ws(s: &[u8]) -> (k: usize)
    ensures
        k == trail_ws_len(s@),
{
    let n = s.len();
    if n >= 1 && (s[n - 1] == 9 || s[n - 1] == 10 || s[n - 1] == 11 || s[n - 1] == 12 || s[n - 1]
        == 13 || s[n - 1] == 32) {
        1
    } else if n >= 2 && s[n - 2] == 0xC2 && (s[n - 1] == 0x85 || s[n - 1] == 0xA0) {
        2
    } else if n >= 3 && ws3(s[n - 3], s[n - 2], s[n - 1]) {
        3
    } else {
        0
    }
}

fn ws3(a: u8, b: u8, c: u8) -> (r: bool)
    ensures
        r == is_ws3(a, b, c),
{
    (a == 0xE1 && b == 0x9A && c == 0x80) || (a == 0xE2 && b == 0x80 && ((0x80 <= c && c <= 0x8A)
        || c == 0xA8 || c == 0xA9 || c == 0xAF)) || (a == 0xE2 && b == 0x81 && c == 0x9F) || (a
        == 0xE3 && b == 0x80 && c == 0x80)
}

/// The part of a UTF-8 text without leading and trailing white space.
fn trim_slice(s: &[u8]) -> (t: &[u8])
    ensures
        t@ == trim_ws(s@),
{
    let mut cur: &[u8] = s;
    loop
        invariant
            trim_start(s@) == trim_start(cur@),
        ensures
            trim_start(s@) == cur@,
        decreases cur@.len(),
    {
        let k = lead_ws(cur);
        if k == 0 {
            break;
        }
        cur = vstd::slice::slice_subrange(cur, k, cur.len());
    }
    let ghost started = cur@;
    loop
        invariant
            trim_end(started) == trim_end(cur@),
            started == trim_start(s@),
        ensures
            trim_end(started) == cur@,
            started == trim_start(s@),
        decreases cur@.len(),
    {
        let k = trail_ws(cur);
        if k == 0 {
            break;
        }
        cur = vstd::slice::slice_subrange(cur, 0, cur.len() - k);
    }
    cur
}

// ---------------------------------------------------------------------------
// Hexadecimal decoding
// ---------------------------------------------------------------------------

/// The value of an ASCII hexadecimal digit.
pub open spec fn hex_digit_value(b: u8) -> Option<u8> {
    if 48 <= b && b <= 57 {
        Some((b - 48) as u8)
    } else if 97 <= b && b <= 102 {
        Some((b - 87) as u8)
    } else if 65 <= b && b <= 70 {
        Some((b - 55) as u8)
    } else {
        None
    }
}

/// The byte that a two-character group denotes, as `u8::from_str_radix` with
/// radix 16 reads it: two hexadecimal digits, or a `+` sign and one digit.
pub open spec fn hex_pair_value(a: u8, b: u8) -> Option<u8> {
    if a == 43 {
        hex_digit_value(b)
    } else {
        match (hex_digit_value(a), hex_digit_value(b)) {
            (Some(x), Some(y)) => Some((x * 16 + y) as u8),
            _ => None,
        }
    }
}

/// Result of decoding a hexadecimal text.
pub enum HexDecode {
    Decoded(Seq<u8>),
    OddLength,
    InvalidHexChar,
}

/// Decoding the two-byte groups from position `i` on, after the bytes `acc`.
pub open spec fn decode_pairs(p: Seq<u8>, i: nat, acc: Seq<u8>) -> HexDecode
    decreases p.len() - i,
{
    if i + 2 > p.len() {
        HexDecode::Decoded(acc)
    } else {
        match hex_pair_value(p[i as int], p[i + 1int]) {
            None => HexDecode::InvalidHexChar,
            Some(v) => decode_pairs(p, i + 2, acc.push(v)),
        }
    }
}

/// Decoding of a hexadecimal text into bytes.
pub open spec fn spec_hex_decode(p: Seq<u8>) -> HexDecode {
    if p.len() % 2 == 1 {
        HexDecode::OddLength
    } else {
        decode_pairs(p, 0, seq![])
    }
}

fn hex_digit(b: u8) -> (r: Option<u8>)
    ensures
        r == hex_digit_value(b),
{
    if 48 <= b && b <= 57 {
        Some(b - 48)
    } else if 97 <= b && b <= 102 {
        Some(b - 87)
    } else if 65 <= b && b <= 70 {
        Some(b - 55)
    } else {
        None
    }
}

fn hex_pair(a: u8, b: u8) -> (r: Option<u8>)
    ensures
        r == hex_pair_value(a, b),
{
    if a == 43 {
        hex_digit(b)
    } else {
        match (hex_digit(a), hex_digit(b)) {
            (Some(x), Some(y)) => Some(x * 16 + y),
            _ => None,
        }
    }
}

fn decode_bytes(s: &[u8]) -> (r: Result<Vec<u8>, &'static str>)
    ensures
        match spec_hex_decode(s@) {
            HexDecode::Decoded(v) => r matches Ok(bytes) && bytes@ == v,
            HexDecode::OddLength => r matches Err(e) && e@ == "Odd length"@,
            HexDecode::InvalidHexChar => r matches Err(e) && e@ == "Invalid hex char"@,
        },
{
    if s.len() % 2 != 0 {
        return Err("Odd length");
    }
    let mut bytes: Vec<u8> = Vec::new();
    let mut i: usize = 0;
    while i < s.len()
        invariant
            i <= s.len(),
            i % 2 == 0,
            s.len() % 2 == 0,
            spec_hex_decode(s@) == decode_pairs(s@, i as nat, bytes@),
        decreases s.len() - i,
    {
        match hex_pair(s[i], s[i + 1]) {
            Some(v) => {
                bytes.push(v);
            },
            None => {
                return Err("Invalid hex char");
            },
        }
        i = i + 2;
    }
    Ok(bytes)
}

/// Decode a hexadecimal text two characters per byte; a group is two digits
/// or a `+` sign and one digit. A group holding any other character, a
/// non-ASCII one among them, is an invalid hex character.
pub fn decode(s: &str) -> (r: Result<Vec<u8>, &'static str>)
    ensures
        match spec_hex_decode(s.spec_bytes()) {
            HexDecode::Decoded(v) => r matches Ok(bytes) && bytes@ == v,
            HexDecode::OddLength => r matches Err(e) && e@ == "Odd length"@,
            HexDecode::InvalidHexChar => r matches Err(e) && e@ == "Invalid hex char"@,
        },
{
    decode_bytes(s.as_bytes())
}

// ---------------------------------------------------------------------------
// Records and lines
// ---------------------------------------------------------------------------

/// Why a line of an Intel-Hex text is rejected.
#[derive(Debug, Clone, Copy, PartialEq, Eq)]
pub enum HexLineError {
    MissingColon,
    TooShort,
    OddLength,
    InvalidHexChar,
    /// The byte count asks for more data than the record holds.
    ByteCountTooLarge,
    /// The data of a record runs past the end of the 32-bit address space.
    AddressOverflow,
    ChecksumMismatch,
}

/// The message of the error for a rejected line, given the line number.
pub open spec fn hex_error_text(line: nat, e: HexLineError) -> Seq<char> {
    match e {
        HexLineError::MissingColon => "Invalid Intel-Hex line "@ + decimal_text(line)
            + " (missing ':' prefix)"@,
        HexLineError::TooShort => "Intel-Hex line "@ + decimal_text(line) + " too short"@,
        HexLineError::OddLength => "Invalid hex encoding on line "@ + decimal_text(line) + ": "@
            + "Odd length"@,
        HexLineError::InvalidHexChar => "Invalid hex encoding on line "@ + decimal_text(line)
            + ": "@ + "Invalid hex char"@,
        HexLineError::ByteCountTooLarge => "Intel-Hex line "@ + decimal_text(line)
            + " byte count exceeds the record"@,
        HexLineError::AddressOverflow => "Intel-Hex line "@ + decimal_text(line)
            + " data exceeds the 32-bit address space"@,
        HexLineError::ChecksumMismatch => "Intel-Hex checksum mismatch on line "@ + decimal_text(
            line,
        ),
    }
}

/// What one line does to the memory image and the base address.
pub enum LineStep {
    /// Go on with the next line.
    Next(Map<u32, u8>, u32),
    /// An end-of-file record: parsing ends here.
    Stop(Map<u32, u8>),
    Fail(HexLineError),
}

/// The bytes of `data` placed at consecutive addresses from `start` on.
pub open spec fn data_map(start: nat, data: Seq<u8>) -> Map<u32, u8> {
    Map::new(
        |a: u32| start <= a && a < start + data.len(),
        |a: u32| data[a - start],
    )
}

/// A 16-bit number from two big-endian bytes.
pub open spec fn be16(hi: u8, lo: u8) -> nat {
    hi as nat * 256 + lo as nat
}

/// The effect of a decoded record (count, 16-bit offset, type, data, checksum).
pub open spec fn apply_record(bytes: Seq<u8>, mem: Map<u32, u8>, base: u32) -> LineStep {
    let count = bytes[0] as nat;
    if 4 + count > bytes.len() {
        LineStep::Fail(HexLineError::ByteCountTooLarge)
    } else if byte_sum(bytes) % 256 != 0 {
        LineStep::Fail(HexLineError::ChecksumMismatch)
    } else {
        let data = bytes.subrange(4, 4 + count as int);
        let record_type = bytes[3];
        if record_type == 0 {
            let start = base as nat + be16(bytes[1], bytes[2]);
            if count > 0 && start + count - 1 > u32::MAX {
                LineStep::Fail(HexLineError::AddressOverflow)
            } else {
                LineStep::Next(mem.union_prefer_right(data_map(start, data)), base)
            }
        } else if record_type == 1 {
            LineStep::Stop(mem)
        } else if record_type == 2 && count >= 2 {
            LineStep::Next(mem, (be16(data[0], data[1]) * 16) as u32)
        } else if record_type == 4 && count >= 2 {
            LineStep::Next(mem, (be16(data[0], data[1]) * 65536) as u32)
        } else {
            LineStep::Next(mem, base)
        }
    }
}

/// The effect of a line, after trimming its white space.
pub open spec fn parse_line(t: Seq<u8>, mem: Map<u32, u8>, base: u32) -> LineStep {
    if t.len() == 0 {
        LineStep::Next(mem, base)
    } else if t[0] != 58 {
        LineStep::Fail(HexLineError::MissingColon)
    } else {
        let payload = t.skip(1);
        if payload.len() < 10 {
            LineStep::Fail(HexLineError::TooShort)
        } else {
            match spec_hex_decode(payload) {
                HexDecode::OddLength => LineStep::Fail(HexLineError::OddLength),
                HexDecode::InvalidHexChar => LineStep::Fail(HexLineError::InvalidHexChar),
                HexDecode::Decoded(bytes) => apply_record(bytes, mem, base),
            }
        }
    }
}

/// Result of parsing an Intel-Hex text.
pub enum HexParse {
    Complete(Map<u32, u8>),
    /// The memory image before the rejected line, the line number (from 1) and the reason.
    Failed(Map<u32, u8>, nat, HexLineError),
}

/// End of the line that starts at `pos`: the next line feed, or the end of the text.
pub open spec fn line_end(b: Seq<u8>, pos: nat) -> nat {
    match find_byte_from(b, 10, pos) {
        Some(k) => k,
        None => b.len(),
    }
}

/// Parsing the lines from position `pos` on; `idx` lines come before it.
pub open spec fn parse_from(b: Seq<u8>, pos: nat, idx: nat, mem: Map<u32, u8>, base: u32) -> HexParse
    decreases b.len() + 1 - pos,
{
    if pos >= b.len() {
        HexParse::Complete(mem)
    } else {
        let end = line_end(b, pos);
        proof {
            lemma_find_bounds(b, 10, pos);
        }
        match parse_line(trim_ws(b.subrange(pos as int, end as int)), mem, base) {
            LineStep::Next(m, next_base) => parse_from(b, end + 1, idx + 1, m, next_base),
            LineStep::Stop(m) => HexParse::Complete(m),
            LineStep::Fail(e) => HexParse::Failed(mem, idx + 1, e),
        }
    }
}

/// Parsing an Intel-Hex text (its UTF-8 bytes) into a memory image that
/// already holds `mem`.
pub open spec fn spec_parse_hex(b: Seq<u8>, mem: Map<u32, u8>) -> HexParse {
    parse_from(b, 0, 0, mem, 0)
}

// ---------------------------------------------------------------------------
// The parser
// ---------------------------------------------------------------------------

/// The byte at an address of a memory image, or the padding byte where the
/// image holds none.
pub open spec fn byte_at(mem: Map<u32, u8>, padding: u8, addr: u32) -> u8 {
    if mem.contains_key(addr) {
        mem[addr]
    } else {
        padding
    }
}

/// The bytes at `count` consecutive addresses from `start` on.
pub open spec fn image_bytes(mem: Map<u32, u8>, padding: u8, start: nat, count: nat) -> Seq<u8> {
    Seq::new(count, |i: int| byte_at(mem, padding, (start + i) as u32))
}

/// The error that rejects the given line.
pub open spec fn is_hex_line_error(err: ShdlcError, line: nat, e: HexLineError) -> bool {
    err matches ShdlcError::Other(m) && m@ == hex_error_text(line, e)
}

/// The number that four bytes encode in little-endian order.
pub open spec fn le32_value(b: Seq<u8>) -> nat {
    b[0] as nat + b[1] as nat * 256 + b[2] as nat * 65536 + b[3] as nat * 16777216
}

/// std's `BTreeMap::first_key_value`: the entry with the smallest key, or
/// `None` for an empty map; the key of that entry is returned.
#[verifier::external_body]
fn first_key(m: &BTreeMap<u32, u8>) -> (k: Option<u32>)
    ensures
        match k {
            Some(a) => m@.contains_key(a) && forall|b: u32| m@.contains_key(b) ==> a <= b,
            None => m@.dom().is_empty(),
        },
{
    m.first_key_value().map(|(k, _v)| *k)
}

/// std's `BTreeMap::last_key_value`: the entry with the largest key, or
/// `None` for an empty map; the key of that entry is returned.
#[verifier::external_body]
fn last_key(m: &BTreeMap<u32, u8>) -> (k: Option<u32>)
    ensures
        match k {
            Some(a) => m@.contains_key(a) && forall|b: u32| m@.contains_key(b) ==> b <= a,
            None => m@.dom().is_empty(),
        },
{
    m.last_key_value().map(|(k, _v)| *k)
}

enum LineOutcome {
    Next(u32),
    Stop,
    Fail(HexLineError),
}

/// The byte that reads give for addresses without data.
pub const PADDING_BYTE: u8 = 0xFF;

/// Simple, robust parser for Intel-Hex (.hex) files.
#[derive(Debug, Clone)]
pub struct IntelHexParser {
    memory: BTreeMap<u32, u8>,
}

impl Default for IntelHexParser {
    fn default() -> (p: Self)
        ensures
            p.memory() == Map::<u32, u8>::empty(),
            p.padding() == 0xFF,
    {
        Self::new()
    }
}

fn line_error(e: HexLineError, line: usize) -> (err: ShdlcError)
    ensures
        is_hex_line_error(err, line as nat, e),
{
    let number = decimal_string(line as u64);
    let mut m: String;
    match e {
        HexLineError::MissingColon => {
            m = String::from_str("Invalid Intel-Hex line ");
            m.append(number.as_str());
            m.append(" (missing ':' prefix)");
        },
        HexLineError::TooShort => {
            m = String::from_str("Intel-Hex line ");
            m.append(number.as_str());
            m.append(" too short");
        },
        HexLineError::OddLength => {
            m = String::from_str("Invalid hex encoding on line ");
            m.append(number.as_str());
            m.append(": ");
            m.append("Odd length");
        },
        HexLineError::InvalidHexChar => {
            m = String::from_str("Invalid hex encoding on line ");
            m.append(number.as_str());
            m.append(": ");
            m.append("Invalid hex char");
        },
        HexLineError::ByteCountTooLarge => {
            m = String::from_str("Intel-Hex line ");
            m.append(number.as_str());
            m.append(" byte count exceeds the record");
        },
        HexLineError::AddressOverflow => {
            m = String::from_str("Intel-Hex line ");
            m.append(number.as_str());
            m.append(" data exceeds the 32-bit address space");
        },
        HexLineError::ChecksumMismatch => {
            m = String::from_str("Intel-Hex checksum mismatch on line ");
            m.append(number.as_str());
        },
    }
    ShdlcError::Other(m)
}

fn byte_sum_mod256(bytes: &[u8]) -> (sum: u32)
    ensures
        sum == byte_sum(bytes@) % 256,
{
    let mut sum: u32 = 0;
    let mut i: usize = 0;
    while i < bytes.len()
        invariant
            i <= bytes.len(),
            sum < 256,
            sum == byte_sum(bytes@.take(i as int)) % 256,
        decreases bytes.len() - i,
    {
        assert(bytes@.take(i as int + 1).drop_last() =~= bytes@.take(i as int));
        sum = (sum + bytes[i] as u32) % 256;
        i = i + 1;
    }
    assert(bytes@.take(i as int) =~= bytes@);
    sum
}

impl IntelHexParser {
    /// The bytes loaded so far, by address.
    pub closed spec fn memory(&self) -> Map<u32, u8> {
        self.memory@
    }

    /// The byte that reads give for addresses without data: `PADDING_BYTE`
    /// for every parser.
    pub open spec fn padding(&self) -> u8 {
        PADDING_BYTE
    }

    pub fn new() -> (p: Self)
        ensures
            p.memory() == Map::<u32, u8>::empty(),
            p.padding() == 0xFF,
    {
        Self { memory: BTreeMap::new() }
    }

    fn apply_record(&mut self, bytes: &[u8], base: u32) -> (o: LineOutcome)
        requires
            bytes@.len() >= 5,
            base <= 0xFFFF0000u32,
        ensures
            final(self).padding() == old(self).padding(),
            match apply_record(bytes@, old(self).memory(), base) {
                LineStep::Next(m, b) => o == LineOutcome::Next(b) && final(self).memory() == m && b
                    <= 0xFFFF0000u32,
                LineStep::Stop(m) => o == LineOutcome::Stop && final(self).memory() == m,
                LineStep::Fail(e) => o == LineOutcome::Fail(e) && final(self).memory() == old(
                    self,
                ).memory(),
            },
    {
        let byte_count = bytes[0] as usize;
        let offset: u32 = (bytes[1] as u32) * 256 + (bytes[2] as u32);
        let record_type = bytes[3];
        if 4 + byte_count > bytes.len() {
            return LineOutcome::Fail(HexLineError::ByteCountTooLarge);
        }
        if byte_sum_mod256(bytes) != 0 {
            return LineOutcome::Fail(HexLineError::ChecksumMismatch);
        }
        let ghost data = bytes@.subrange(4, 4 + byte_count as int);
        if record_type == 0 {
            if byte_count > 0 && (base as u64) + (offset as u64) + (byte_count as u64) - 1
                > 0xFFFF_FFFFu64 {
                return LineOutcome::Fail(HexLineError::AddressOverflow);
            }
            let start_addr: u32 = base + offset;
            let ghost old_mem = self.memory@;
            let mut i: usize = 0;
            while i < byte_count
                invariant
                    i <= byte_count,
                    4 + byte_count <= bytes@.len(),
                    data == bytes@.subrange(4, 4 + byte_count as int),
                    byte_count > 0 ==> start_addr + byte_count - 1 <= u32::MAX,
                    self.memory@ == old_mem.union_prefer_right(
                        data_map(start_addr as nat, data.take(i as int)),
                    ),
                decreases byte_count - i,
            {
                let addr: u32 = start_addr + i as u32;
                assert(4 + i < bytes.len());
                let value = bytes[4 + i];
                self.memory.insert(addr, value);
                proof {
                    let m1 = old_mem.union_prefer_right(data_map(start_addr as nat, data.take(i as int)));
                    let m2 = old_mem.union_prefer_right(
                        data_map(start_addr as nat, data.take(i + 1)),
                    );
                    assert(m1.insert(addr, bytes@[4 + i]) =~= m2);
                }
                i = i + 1;
            }
            assert(data.take(byte_count as int) =~= data);
            LineOutcome::Next(base)
        } else if record_type == 1 {
            LineOutcome::Stop
        } else if record_type == 2 && byte_count >= 2 {
            let seg: u32 = (bytes[4] as u32) * 256 + (bytes[5] as u32);
            LineOutcome::Next(seg * 16)
        } else if record_type == 4 && byte_count >= 2 {
            let high: u32 = (bytes[4] as u32) * 256 + (bytes[5] as u32);
            LineOutcome::Next(high * 65536)
        } else {
            LineOutcome::Next(base)
        }
    }

    fn process_line(&mut self, t: &[u8], base: u32) -> (o: LineOutcome)
        requires
            base <= 0xFFFF0000u32,
        ensures
            final(self).padding() == old(self).padding(),
            match parse_line(t@, old(self).memory(), base) {
                LineStep::Next(m, b) => o == LineOutcome::Next(b) && final(self).memory() == m && b
                    <= 0xFFFF0000u32,
                LineStep::Stop(m) => o == LineOutcome::Stop && final(self).memory() == m,
                LineStep::Fail(e) => o == LineOutcome::Fail(e) && final(self).memory() == old(
                    self,
                ).memory(),
            },
    {
        if t.len() == 0 {
            return LineOutcome::Next(base);
        }
        if t[0] != 58 {
            return LineOutcome::Fail(HexLineError::MissingColon);
        }
        let payload = vstd::slice::slice_subrange(t, 1, t.len());
        assert(payload@ =~= t@.skip(1));
        if payload.len() < 10 {
            return LineOutcome::Fail(HexLineError::TooShort);
        }
        match decode_bytes(payload) {
            Err(e) => {
                if payload.len() % 2 != 0 {
                    LineOutcome::Fail(HexLineError::OddLength)
                } else {
                    proof {
                        lemma_decode_pairs_not_odd(payload@, 0, seq![]);
                    }
                    LineOutcome::Fail(HexLineError::InvalidHexChar)
                }
            },
            Ok(bytes) => {
                proof {
                    lemma_decoded_len(payload@, 0, seq![]);
                }
                self.apply_record(bytes.as_slice(), base)
            },
        }
    }

    /// Load an Intel-Hex text into the memory image; records of later lines
    /// overwrite earlier data at the same address. On a rejected line the
    /// image keeps the data of the lines before it.
    pub fn load_hex_str(&mut self, hex_str: &str) -> (r: Result<(), ShdlcError>)
        ensures
            load_outcome(hex_str.spec_bytes(), *old(self), *final(self), r),
    {
        let b = hex_str.as_bytes();
        let ghost outcome = spec_parse_hex(b@, self.memory@);
        let mut base_address: u32 = 0;
        let mut pos: usize = 0;
        let mut line_num: usize = 0;
        while pos < b.len()
            invariant
                b@ == hex_str.spec_bytes(),
                outcome == spec_parse_hex(b@, old(self).memory()),
                outcome == parse_from(b@, pos as nat, line_num as nat, self.memory@, base_address),
                base_address <= 0xFFFF0000u32,
                line_num <= pos,
            decreases b.len() - pos,
        {
            let end = match find_from(b, 10, pos) {
                Some(k) => k,
                None => b.len(),
            };
            proof {
                lemma_find_bounds(b@, 10, pos as nat);
            }
            let line = trim_slice(vstd::slice::slice_subrange(b, pos, end));
            let ghost mem_before = self.memory@;
            assert(end as nat == line_end(b@, pos as nat));
            assert(line@ == trim_ws(b@.subrange(pos as int, end as int)));
            assert(outcome == match parse_line(line@, mem_before, base_address) {
                LineStep::Next(m, next_base) => parse_from(b@, (end + 1) as nat, (line_num + 1) as nat, m, next_base),
                LineStep::Stop(m) => HexParse::Complete(m),
                LineStep::Fail(e) => HexParse::Failed(mem_before, (line_num + 1) as nat, e),
            });
            match self.process_line(line, base_address) {
                LineOutcome::Next(next_base) => {
                    base_address = next_base;
                    line_num = line_num + 1;
                    if end >= b.len() {
                        pos = b.len();
                        assert(parse_from(b@, (end + 1) as nat, line_num as nat, self.memory@, base_address)
                            == HexParse::Complete(self.memory@));
                    } else {
                        pos = end + 1;
                    }
                },
                LineOutcome::Stop => {
                    assert(outcome == HexParse::Complete(self.memory@));
                    return Ok(());
                },
                LineOutcome::Fail(e) => {
                    assert(outcome == HexParse::Failed(self.memory@, (line_num + 1) as nat, e));
                    return Err(line_error(e, line_num + 1));
                },
            }
        }
        Ok(())
    }

    /// The lowest address that holds data, or 0 where the image is empty.
    pub fn min_addr(&self) -> (a: u32)
        ensures
            self.memory().dom().is_empty() ==> a == 0,
            !self.memory().dom().is_empty() ==> self.memory().contains_key(a) && forall|b: u32|
                self.memory().contains_key(b) ==> a <= b,
    {
        match first_key(&self.memory) {
            Some(k) => k,
            None => 0,
        }
    }

    /// The highest address that holds data, or 0 where the image is empty.
    pub fn max_addr(&self) -> (a: u32)
        ensures
            self.memory().dom().is_empty() ==> a == 0,
            !self.memory().dom().is_empty() ==> self.memory().contains_key(a) && forall|b: u32|
                self.memory().contains_key(b) ==> b <= a,
    {
        match last_key(&self.memory) {
            Some(k) => k,
            None => 0,
        }
    }

    /// The bytes at `size` consecutive addresses from `start` on (the count
    /// taken as `size as u32`), padded where the image holds no data.
    pub fn read_bytes(&self, start: u32, size: usize) -> (out: Vec<u8>)
        requires
            start as nat + (size as u32) as nat <= u32::MAX,
        ensures
            out@ == image_bytes(self.memory(), self.padding(), start as nat, (size as u32) as nat),
    {
        let count: u32 = size as u32;
        let mut out: Vec<u8> = Vec::new();
        let mut i: u32 = 0;
        while i < count
            invariant
                i <= count,
                start as nat + count as nat <= u32::MAX,
                out@ == image_bytes(self.memory(), self.padding(), start as nat, i as nat),
            decreases count - i,
        {
            let addr: u32 = start + i;
            let b = match self.memory.get(&addr) {
                Some(v) => *v,
                None => PADDING_BYTE,
            };
            out.push(b);
            i = i + 1;
            assert(out@ =~= image_bytes(self.memory(), self.padding(), start as nat, i as nat));
        }
        out
    }

    /// The bytes from `start` to `end_inclusive`, or none where the range is empty.
    pub fn read_range(&self, start: u32, end_inclusive: u32) -> (out: Vec<u8>)
        requires
            end_inclusive < start || end_inclusive < u32::MAX,
        ensures
            end_inclusive < start ==> out@ == Seq::<u8>::empty(),
            start <= end_inclusive ==> out@ == image_bytes(
                self.memory(),
                self.padding(),
                start as nat,
                (end_inclusive - start + 1) as nat,
            ),
    {
        if end_inclusive < start {
            return Vec::new();
        }
        let size = (end_inclusive - start + 1) as usize;
        assert((size as u32) == end_inclusive - start + 1);
        self.read_bytes(start, size)
    }

    /// The little-endian number in the four bytes from `start` on.
    pub fn read_u32_le(&self, start: u32) -> (n: u32)
        requires
            start as nat + 4 <= u32::MAX,
        ensures
            n as nat == le32_value(image_bytes(self.memory(), self.padding(), start as nat, 4)),
    {
        let bytes = self.read_bytes(start, 4);
        (bytes[0] as u32) + (bytes[1] as u32) * 256 + (bytes[2] as u32) * 65536 + (bytes[3] as u32)
            * 16777216
    }

    /// Parse an Intel-Hex text into a new memory image with padding byte 0xFF.
    pub fn from_hex_str(hex_str: &str) -> (r: Result<Self, ShdlcError>)
        ensures
            from_hex_outcome(hex_str.spec_bytes(), r),
    {
        let mut parser = Self::new();
        match parser.load_hex_str(hex_str) {
            Ok(()) => Ok(parser),
            Err(e) => Err(e),
        }
    }
}

/// `after` and `r` are what loading the text `text` into the parser `before`
/// gives: the parsed memory image, or the error of the rejected line with the
/// memory image of the lines before it; the padding byte stays.
pub open spec fn load_outcome(
    text: Seq<u8>,
    before: IntelHexParser,
    after: IntelHexParser,
    r: Result<(), ShdlcError>,
) -> bool {
    &&& after.padding() == before.padding()
    &&& match spec_parse_hex(text, before.memory()) {
        HexParse::Complete(m) => r is Ok && after.memory() == m,
        HexParse::Failed(m, line, e) => r is Err && is_hex_line_error(r->Err_0, line, e)
            && after.memory() == m,
    }
}

/// `r` is what parsing the text `text` into a new parser gives.
pub open spec fn from_hex_outcome(text: Seq<u8>, r: Result<IntelHexParser, ShdlcError>) -> bool {
    match spec_parse_hex(text, Map::empty()) {
        HexParse::Complete(m) => r matches Ok(p) && p.memory() == m && p.padding() == 0xFF,
        HexParse::Failed(_, line, e) => r is Err && is_hex_line_error(r->Err_0, line, e),
    }
}

/// `from_hex_str` is `new` followed by `load_hex_str`: for every text, where
/// `fresh` is what `new` gives and loading the text into it gives `loaded`
/// and `load_result`, parsing the text fails exactly where the load fails,
/// with the same message, and otherwise gives a parser with the memory image
/// and padding of `loaded` (so that its `min_addr`, `max_addr` and reads agree).
pub proof fn lemma_from_hex_str_is_new_then_load(
    text: Seq<u8>,
    fresh: IntelHexParser,
    loaded: IntelHexParser,
    load_result: Result<(), ShdlcError>,
    parsed: Result<IntelHexParser, ShdlcError>,
)
    requires
        fresh.memory() == Map::<u32, u8>::empty(),
        fresh.padding() == 0xFF,
        load_outcome(text, fresh, loaded, load_result),
        from_hex_outcome(text, parsed),
    ensures
        parsed is Err <==> load_result is Err,
        parsed is Err ==> error_text(parsed->Err_0) == error_text(load_result->Err_0),
        parsed matches Ok(p) ==> p.memory() == loaded.memory() && p.padding() == loaded.padding(),
{
}

proof fn lemma_decode_pairs_not_odd(p: Seq<u8>, i: nat, acc: Seq<u8>)
    ensures
        !(decode_pairs(p, i, acc) is OddLength),
    decreases p.len() - i,
{
    if i + 2 <= p.len() {
        if let Some(v) = hex_pair_value(p[i as int], p[i + 1int]) {
            lemma_decode_pairs_not_odd(p, i + 2, acc.push(v));
        }
    }
}

proof fn lemma_decoded_len(p: Seq<u8>, i: nat, acc: Seq<u8>)
    requires
        i % 2 == 0,
        p.len() % 2 == 0,
        i <= p.len(),
        acc.len() == i / 2,
    ensures
        decode_pairs(p, i, acc) matches HexDecode::Decoded(v) ==> v.len() == p.len() / 2,
    decreases p.len() - i,
{
    if i + 2 <= p.len() {
        if let Some(v) = hex_pair_value(p[i as int], p[i + 1int]) {
            lemma_decoded_len(p, i + 2, acc.push(v));
        }
    }
}

proof fn lemma_decoded_pairs(p: Seq<u8>, i: nat, acc: Seq<u8>)
    requires
        acc.len() * 2 == i,
        i <= p.len(),
    ensures
        decode_pairs(p, i, acc) matches HexDecode::Decoded(v) ==> {
            &&& acc.len() <= v.len()
            &&& v.len() * 2 <= p.len()
            &&& v.take(acc.len() as int) == acc
            &&& forall|k: int|
                acc.len() <= k < v.len() ==> hex_pair_value(p[2 * k], p[2 * k + 1]) == Some(
                    #[trigger] v[k],
                )
        },
    decreases p.len() - i,
{
    if i + 2 <= p.len() {
        if let Some(b) = hex_pair_value(p[i as int], p[i + 1int]) {
            let acc2 = acc.push(b);
            lemma_decoded_pairs(p, i + 2, acc2);
            assert(decode_pairs(p, i, acc) == decode_pairs(p, i + 2, acc2));
            if let HexDecode::Decoded(v) = decode_pairs(p, i, acc) {
                assert(v.take(acc2.len() as int) == acc2);
                assert(v.take(acc.len() as int) =~= acc2.take(acc.len() as int));
                assert(acc2.take(acc.len() as int) =~= acc);
                assert forall|k: int| acc.len() <= k < v.len() implies hex_pair_value(
                    p[2 * k],
                    p[2 * k + 1],
                ) == Some(#[trigger] v[k]) by {
                    if k == acc.len() {
                        assert(v[k] == v.take(acc2.len() as int)[k]);
                        assert(acc2[k] == b);
                        assert(p[2 * k] == p[i as int] && p[2 * k + 1] == p[i + 1int]);
                    }
                }
            }
        }
    } else {
        if let HexDecode::Decoded(v) = decode_pairs(p, i, acc) {
            assert(v.take(acc.len() as int) =~= acc);
        }
    }
}

/// Only data records write to the memory image: for every line (trimmed),
/// memory image and base address, a record whose type, the byte that its
/// eighth and ninth characters encode (after the colon, the byte count and
/// the 16-bit offset), is not 0 leaves the memory image exactly as it was,
/// whether parsing goes on after it, stops at it or rejects it.
pub proof fn lemma_only_data_records_write(t: Seq<u8>, mem: Map<u32, u8>, base: u32)
    requires
        t.len() >= 9,
        hex_pair_value(t[7], t[8]) != Some(0u8),
    ensures
        match parse_line(t, mem, base) {
            LineStep::Next(m, _) => m == mem,
            LineStep::Stop(m) => m == mem,
            LineStep::Fail(_) => true,
        },
{
    if t[0] == 58 {
        let payload = t.skip(1);
        if payload.len() >= 10 && payload.len() % 2 == 0 {
            lemma_decoded_pairs(payload, 0, seq![]);
            lemma_decoded_len(payload, 0, seq![]);
            if let HexDecode::Decoded(bytes) = spec_hex_decode(payload) {
                assert(bytes.len() >= 5);
                assert(hex_pair_value(payload[2 * 3int], payload[2 * 3int + 1]) == Some(bytes[3]));
                assert(payload[6] == t[7] && payload[7] == t[8]);
                assert(bytes[3] != 0);
            }
        }
    }
}

} // verus!
