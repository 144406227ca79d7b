use vstd::prelude::*;
use crate::protocol::checksum::{byte_sum, calculate_checksum, lemma_checksum_completes, spec_checksum};
use crate::protocol::errors::{is_response_error, ShdlcError};

verus! {

pub const START_STOP_BYTE: u8 = 0x7E;
pub const ESCAPE_BYTE: u8 = 0x7D;
pub const ESCAPE_XOR: u8 = 0x20;
pub const CHARS_TO_ESCAPE: [u8; 4] = [START_STOP_BYTE, ESCAPE_BYTE, 0x11, 0x13];
pub const MAX_RAW_FRAME_LENGTH: usize = 522;

/// Bytes that byte-stuffing replaces by an escape sequence.
pub open spec fn needs_escape(b: u8) -> bool {
    b == START_STOP_BYTE || b == ESCAPE_BYTE || b == 0x11u8 || b == 0x13u8
}

/// The stuffed form of a single byte.
pub open spec fn stuff_byte(b: u8) -> Seq<u8> {
    if needs_escape(b) {
        seq![ESCAPE_BYTE, b ^ ESCAPE_XOR]
    } else {
        seq![b]
    }
}

/// SHDLC byte-stuffing of a byte sequence.
pub open spec fn spec_stuff(s: Seq<u8>) -> Seq<u8>
    decreases s.len(),
{
    if s.len() == 0 {
        seq![]
    } else {
        spec_stuff(s.drop_last()) + stuff_byte(s.last())
    }
}

/// One step of un-stuffing: the output so far and the pending XOR mask,
/// updated with the next stuffed byte.
pub open spec fn unstuff_step(acc: (Seq<u8>, u8), b: u8) -> (Seq<u8>, u8) {
    if b == ESCAPE_BYTE {
        (acc.0, ESCAPE_XOR)
    } else {
        (acc.0.push(b ^ acc.1), 0u8)
    }
}

/// Output and pending XOR mask after un-stuffing a whole sequence.
pub open spec fn unstuff_fold(s: Seq<u8>) -> (Seq<u8>, u8)
    decreases s.len(),
{
    if s.len() == 0 {
        (seq![], 0u8)
    } else {
        unstuff_step(unstuff_fold(s.drop_last()), s.last())
    }
}

/// Undoing SHDLC byte-stuffing of a byte sequence.
pub open spec fn spec_unstuff(s: Seq<u8>) -> Seq<u8> {
    unstuff_fold(s).0
}

proof fn lemma_escape_xor(b: u8)
    ensures
        needs_escape(b) ==> (b ^ ESCAPE_XOR) ^ ESCAPE_XOR == b && (b ^ ESCAPE_XOR) != ESCAPE_BYTE
            && (b ^ ESCAPE_XOR) != START_STOP_BYTE,
        b ^ 0u8 == b,
{
    assert(needs_escape(b) ==> (b ^ 0x20u8) ^ 0x20u8 == b && (b ^ 0x20u8) != 0x7Du8 && (b ^ 0x20u8)
        != 0x7Eu8) by (bit_vector);
    assert(b ^ 0u8 == b) by (bit_vector);
}

/// Un-stuffing undoes stuffing: for every byte sequence `s`,
/// un-stuffing the stuffed form of `s` gives back `s`.
pub proof fn lemma_unstuff_stuff(s: Seq<u8>)
    ensures
        spec_unstuff(spec_stuff(s)) == s,
        unstuff_fold(spec_stuff(s)).1 == 0u8,
    decreases s.len(),
{
    if s.len() == 0 {
        assert(spec_stuff(s) =~= seq![]);
    } else {
        let p = s.drop_last();
        let b = s.last();
        lemma_unstuff_stuff(p);
        lemma_escape_xor(b);
        let sp = spec_stuff(p);
        assert(spec_stuff(s) == sp + stuff_byte(b));
        if needs_escape(b) {
            let y = b ^ ESCAPE_XOR;
            let t1 = sp.push(ESCAPE_BYTE);
            let t2 = t1.push(y);
            assert(spec_stuff(s) =~= t2);
            assert(t2.drop_last() =~= t1);
            assert(t1.drop_last() =~= sp);
            assert(unstuff_fold(t1) == unstuff_step(unstuff_fold(sp), ESCAPE_BYTE));
            assert(unstuff_fold(t1) == (p, ESCAPE_XOR));
            assert(unstuff_fold(t2) == unstuff_step(unstuff_fold(t1), y));
            assert(unstuff_fold(t2) == (p.push(b), 0u8));
        } else {
            let t1 = sp.push(b);
            assert(spec_stuff(s) =~= t1);
            assert(t1.drop_last() =~= sp);
            assert(unstuff_fold(t1) == unstuff_step(unstuff_fold(sp), b));
            assert(unstuff_fold(t1) == (p.push(b), 0u8));
        }
        assert(p.push(b) =~= s);
    }
}

/// The stuffed form of any byte sequence contains no start/stop byte.
pub proof fn lemma_stuff_has_no_start_byte(s: Seq<u8>)
    ensures
        forall|i: int| 0 <= i < spec_stuff(s).len() ==> spec_stuff(s)[i] != START_STOP_BYTE,
    decreases s.len(),
{
    if s.len() > 0 {
        let p = s.drop_last();
        lemma_stuff_has_no_start_byte(p);
        lemma_escape_xor(s.last());
        let sp = spec_stuff(p);
        let t = stuff_byte(s.last());
        assert(spec_stuff(s) == sp + t);
        assert forall|i: int| 0 <= i < spec_stuff(s).len() implies spec_stuff(s)[i]
            != START_STOP_BYTE by {
            if i < sp.len() {
                assert(spec_stuff(s)[i] == sp[i]);
            } else {
                assert(spec_stuff(s)[i] == t[i - sp.len()]);
            }
        }
    }
}

/// The stuffed form is never shorter than the input and at most twice as long.
pub proof fn lemma_stuff_len(s: Seq<u8>)
    ensures
        s.len() <= spec_stuff(s).len() <= 2 * s.len(),
    decreases s.len(),
{
    if s.len() > 0 {
        lemma_stuff_len(s.drop_last());
    }
}

/// Perform SHDLC byte-stuffing on a raw byte slice.
pub fn stuff_data_bytes(data: &[u8]) -> (result: Vec<u8>)
    ensures
        result@ == spec_stuff(data@),
{
    let mut result: Vec<u8> = Vec::new();
    let mut i: usize = 0;
    while i < data.len()
        invariant
            i <= data.len(),
            result@ == spec_stuff(data@.take(i as int)),
        decreases data.len() - i,
    {
        let b = data[i];
        assert(data@.take(i as int + 1).drop_last() =~= data@.take(i as int));
        if b == START_STOP_BYTE || b == ESCAPE_BYTE || b == 0x11 || b == 0x13 {
            result.push(ESCAPE_BYTE);
            result.push(b ^ ESCAPE_XOR);
        } else {
            result.push(b);
        }
        i = i + 1;
    }
    assert(data@.take(i as int) =~= data@);
    result
}

/// Undo SHDLC byte-stuffing on a stuffed byte slice.
pub fn unstuff_data_bytes(stuffed_data: &[u8]) -> (data: Vec<u8>)
    ensures
        data@ == spec_unstuff(stuffed_data@),
{
    let mut data: Vec<u8> = Vec::new();
    let mut xor: u8 = 0x00;
    let mut i: usize = 0;
    while i < stuffed_data.len()
        invariant
            i <= stuffed_data.len(),
            (data@, xor) == unstuff_fold(stuffed_data@.take(i as int)),
        decreases stuffed_data.len() - i,
    {
        let b = stuffed_data[i];
        assert(stuffed_data@.take(i as int + 1).drop_last() =~= stuffed_data@.take(i as int));
        if b == ESCAPE_BYTE {
            xor = ESCAPE_XOR;
        } else {
            data.push(b ^ xor);
            xor = 0x00;
        }
        i = i + 1;
    }
    assert(stuffed_data@.take(i as int) =~= stuffed_data@);
    data
}

/// Content of a MOSI frame before checksum and stuffing: address, command,
/// data length (modulo 256, as the length byte holds it) and data.
pub open spec fn mosi_content(slave_address: u8, command_id: u8, data: Seq<u8>) -> Seq<u8> {
    seq![slave_address, command_id, (data.len() % 256) as u8] + data
}

/// Content of a MISO frame before checksum and stuffing: address, command,
/// state, data length (modulo 256) and data.
pub open spec fn miso_content(slave_address: u8, command_id: u8, state: u8, data: Seq<u8>) -> Seq<
    u8,
> {
    seq![slave_address, command_id, state, (data.len() % 256) as u8] + data
}

/// Raw bytes on the wire for a frame content: start byte, the stuffed content
/// followed by its checksum, stop byte.
pub open spec fn spec_wrap_frame(content: Seq<u8>) -> Seq<u8> {
    seq![START_STOP_BYTE] + spec_stuff(content.push(spec_checksum(content))) + seq![START_STOP_BYTE]
}

/// Raw bytes of a MOSI frame.
pub open spec fn spec_mosi_bytes(slave_address: u8, command_id: u8, data: Seq<u8>) -> Seq<u8> {
    spec_wrap_frame(mosi_content(slave_address, command_id, data))
}

/// Raw bytes of a MISO frame, as a device sends them.
pub open spec fn spec_miso_bytes(slave_address: u8, command_id: u8, state: u8, data: Seq<u8>) -> Seq<
    u8,
> {
    spec_wrap_frame(miso_content(slave_address, command_id, state, data))
}

pub(crate) fn copy_bytes(s: &[u8]) -> (v: Vec<u8>)
    ensures
        v@ == s@,
{
    let mut v: Vec<u8> = Vec::new();
    let mut i: usize = 0;
    while i < s.len()
        invariant
            i <= s.len(),
            v@ == s@.take(i as int),
        decreases s.len() - i,
    {
        v.push(s[i]);
        i = i + 1;
        assert(v@ =~= s@.take(i as int));
    }
    assert(s@.take(i as int) =~= s@);
    v
}

fn append_bytes(v: &mut Vec<u8>, s: &[u8])
    ensures
        final(v)@ == old(v)@ + s@,
{
    let ghost start = v@;
    let mut i: usize = 0;
    while i < s.len()
        invariant
            i <= s.len(),
            v@ == start + s@.take(i as int),
        decreases s.len() - i,
    {
        v.push(s[i]);
        i = i + 1;
        assert(v@ =~= start + s@.take(i as int));
    }
    assert(s@.take(i as int) =~= s@);
}

/// Wrap a frame content into raw bytes: checksum, stuffing, start and stop bytes.
fn wrap_frame(content: &mut Vec<u8>) -> (raw: Vec<u8>)
    ensures
        raw@ == spec_wrap_frame(old(content)@),
{
    let checksum = calculate_checksum(content.as_slice());
    content.push(checksum);
    let stuffed = stuff_data_bytes(content.as_slice());
    let mut raw_frame: Vec<u8> = Vec::new();
    raw_frame.push(START_STOP_BYTE);
    append_bytes(&mut raw_frame, stuffed.as_slice());
    raw_frame.push(START_STOP_BYTE);
    assert(raw_frame@ =~= spec_wrap_frame(old(content)@));
    raw_frame
}

/// MOSI (Master Out, Slave In) frame builder.
#[derive(Debug, Clone, PartialEq, Eq)]
pub struct ShdlcMosiFrame {
    pub slave_address: u8,
    pub command_id: u8,
    pub data: Vec<u8>,
}

impl ShdlcMosiFrame {
    pub fn new(slave_address: u8, command_id: u8, data: &[u8]) -> (frame: Self)
        ensures
            frame.slave_address == slave_address,
            frame.command_id == command_id,
            frame.data@ == data@,
    {
        ShdlcMosiFrame { slave_address, command_id, data: copy_bytes(data) }
    }

    /// Encode the MOSI frame to raw SHDLC bytes ready to transmit on the wire.
    pub fn to_bytes(&self) -> (raw: Vec<u8>)
        ensures
            raw@ == spec_mosi_bytes(self.slave_address, self.command_id, self.data@),
    {
        let mut frame_content: Vec<u8> = Vec::new();
        frame_content.push(self.slave_address);
        frame_content.push(self.command_id);
        frame_content.push((self.data.len() % 256) as u8);
        append_bytes(&mut frame_content, self.data.as_slice());
        assert(frame_content@ =~= mosi_content(self.slave_address, self.command_id, self.data@));
        wrap_frame(&mut frame_content)
    }
}

/// MISO (Master In, Slave Out) decoded response frame.
#[derive(Debug, Clone, PartialEq, Eq)]
pub struct ShdlcMisoFrame {
    pub slave_address: u8,
    pub command_id: u8,
    pub state: u8,
    pub data: Vec<u8>,
}

impl ShdlcMisoFrame {
    /// The device flags an error state in the highest bit of the state byte.
    pub fn is_error_state(&self) -> (r: bool)
        ensures
            r == (self.state >= 0x80),
    {
        let st = self.state;
        assert((st & 0x80u8 != 0u8) == (st >= 0x80u8)) by (bit_vector);
        (self.state & 0x80) != 0
    }

    /// The error code in the lower seven bits of the state byte.
    pub fn error_code(&self) -> (r: u8)
        ensures
            r == self.state % 128,
    {
        let st = self.state;
        assert(st & 0x7Fu8 == st % 128) by (bit_vector);
        self.state & 0x7F
    }
}

/// Number of start/stop bytes in a byte sequence.
pub open spec fn count_start_bytes(s: Seq<u8>) -> nat
    decreases s.len(),
{
    if s.len() == 0 {
        0
    } else {
        count_start_bytes(s.drop_last()) + if s.last() == START_STOP_BYTE {
            1nat
        } else {
            0nat
        }
    }
}

/// Index of the first occurrence of `b` in `s` at or after position `i`.
pub open spec fn find_byte_from(s: Seq<u8>, b: u8, i: nat) -> Option<nat>
    decreases s.len() - i,
{
    if i >= s.len() {
        None
    } else if s[i as int] == b {
        Some(i)
    } else {
        find_byte_from(s, b, i + 1)
    }
}

/// Why a received buffer does not hold a valid MISO frame.
#[derive(Debug, Clone, Copy, PartialEq, Eq)]
pub enum MisoFault {
    TooShort,
    WrongLength,
    WrongChecksum,
}

/// The message of the response error for each fault.
pub open spec fn miso_fault_message(f: MisoFault) -> Seq<char> {
    match f {
        MisoFault::TooShort => "Response is too short."@,
        MisoFault::WrongLength => "Wrong length."@,
        MisoFault::WrongChecksum => "Wrong checksum."@,
    }
}

/// Decoding of a received buffer: the frame between the first two start/stop
/// bytes is un-stuffed and checked; on success the result holds address,
/// command, state and data.
pub open spec fn spec_interpret(buf: Seq<u8>) -> Result<(u8, u8, u8, Seq<u8>), MisoFault> {
    match find_byte_from(buf, START_STOP_BYTE, 0) {
        None => Err(MisoFault::TooShort),
        Some(start) => match find_byte_from(buf, START_STOP_BYTE, start + 1) {
            None => Err(MisoFault::TooShort),
            Some(stop) => {
                let u = spec_unstuff(buf.subrange(start + 1int, stop as int));
                if u.len() < 5 {
                    Err(MisoFault::TooShort)
                } else {
                    let frame = u.drop_last();
                    let data = frame.subrange(4, frame.len() as int);
                    if frame[3] as nat != data.len() {
                        Err(MisoFault::WrongLength)
                    } else if u.last() != spec_checksum(frame) {
                        Err(MisoFault::WrongChecksum)
                    } else {
                        Ok((frame[0], frame[1], frame[2], data))
                    }
                }
            },
        },
    }
}

/// MISO Frame Builder / Parser.
#[derive(Debug, Clone)]
pub struct ShdlcMisoFrameBuilder {
    buffer: Vec<u8>,
}

impl View for ShdlcMisoFrameBuilder {
    type V = Seq<u8>;

    /// The bytes received so far.
    closed spec fn view(&self) -> Seq<u8> {
        self.buffer@
    }
}

impl Default for ShdlcMisoFrameBuilder {
    fn default() -> (b: Self)
        ensures
            b@ == Seq::<u8>::empty(),
    {
        ShdlcMisoFrameBuilder::new()
    }
}

pub(crate) fn find_from(s: &[u8], b: u8, from: usize) -> (r: Option<usize>)
    requires
        from <= s.len(),
    ensures
        match r {
            Some(k) => find_byte_from(s@, b, from as nat) == Some(k as nat),
            None => find_byte_from(s@, b, from as nat) is None,
        },
{
    let mut i = from;
    while i < s.len()
        invariant
            from <= i <= s.len(),
            find_byte_from(s@, b, from as nat) == find_byte_from(s@, b, i as nat),
        decreases s.len() - i,
    {
        if s[i] == b {
            return Some(i);
        }
        i = i + 1;
    }
    None
}

impl ShdlcMisoFrameBuilder {
    pub fn new() -> (b: Self)
        ensures
            b@ == Seq::<u8>::empty(),
    {
        ShdlcMisoFrameBuilder { buffer: Vec::new() }
    }

    /// The bytes received so far.
    pub fn data(&self) -> (d: &[u8])
        ensures
            d@ == self@,
    {
        self.buffer.as_slice()
    }

    /// Whether a start byte has been received.
    pub fn start_received(&self) -> (r: bool)
        ensures
            r == self@.contains(START_STOP_BYTE),
    {
        let r = find_from(self.buffer.as_slice(), START_STOP_BYTE, 0);
        proof {
            lemma_find_contains(self@, START_STOP_BYTE, 0);
        }
        r.is_some()
    }

    /// Add incoming bytes. Returns Ok(true) if a full frame is received.
    pub fn add_data(&mut self, chunk: &[u8]) -> (r: Result<bool, ShdlcError>)
        ensures
            final(self)@ == old(self)@ + chunk@,
            count_start_bytes(final(self)@) >= 2 ==> r == Ok::<bool, ShdlcError>(true),
            count_start_bytes(final(self)@) < 2 && final(self)@.len() > MAX_RAW_FRAME_LENGTH ==> r is Err
                && is_response_error(r->Err_0, "Response is too long."@, Some(final(self)@)),
            count_start_bytes(final(self)@) < 2 && final(self)@.len() <= MAX_RAW_FRAME_LENGTH ==> r
                == Ok::<bool, ShdlcError>(false),
    {
        append_bytes(&mut self.buffer, chunk);
        let mut start_count: usize = 0;
        let mut i: usize = 0;
        while i < self.buffer.len()
            invariant
                i <= self.buffer.len(),
                start_count == count_start_bytes(self.buffer@.take(i as int)),
                start_count <= i,
            decreases self.buffer.len() - i,
        {
            assert(self.buffer@.take(i as int + 1).drop_last() =~= self.buffer@.take(i as int));
            if self.buffer[i] == START_STOP_BYTE {
                start_count = start_count + 1;
            }
            i = i + 1;
        }
        assert(self.buffer@.take(i as int) =~= self.buffer@);
        if start_count >= 2 {
            Ok(true)
        } else if self.buffer.len() > MAX_RAW_FRAME_LENGTH {
            Err(
                ShdlcError::response_error(
                    String::from_str("Response is too long."),
                    Some(copy_bytes(self.buffer.as_slice())),
                ),
            )
        } else {
            Ok(false)
        }
    }

    fn fault_error(&self, fault: MisoFault) -> (e: ShdlcError)
        ensures
            is_response_error(e, miso_fault_message(fault), Some(self@)),
    {
        let msg: &str = match fault {
            MisoFault::TooShort => "Response is too short.",
            MisoFault::WrongLength => "Wrong length.",
            MisoFault::WrongChecksum => "Wrong checksum.",
        };
        ShdlcError::response_error(String::from_str(msg), Some(copy_bytes(self.buffer.as_slice())))
    }

    /// Interpret and validate received raw data into a `ShdlcMisoFrame`.
    pub fn interpret_data(&self) -> (r: Result<ShdlcMisoFrame, ShdlcError>)
        ensures
            match spec_interpret(self@) {
                Ok((a, c, st, d)) => r matches Ok(f) && f.slave_address == a && f.command_id == c
                    && f.state == st && f.data@ == d,
                Err(fault) => r is Err && is_response_error(
                    r->Err_0,
                    miso_fault_message(fault),
                    Some(self@),
                ),
            },
    {
        let buf = self.buffer.as_slice();
        let start = match find_from(buf, START_STOP_BYTE, 0) {
            Some(s) => s,
            None => {
                return Err(self.fault_error(MisoFault::TooShort));
            },
        };
        proof {
            lemma_find_bounds(buf@, START_STOP_BYTE, 0);
        }
        assert(start < buf.len());
        let stop = match find_from(buf, START_STOP_BYTE, start + 1) {
            Some(e) => e,
            None => {
                return Err(self.fault_error(MisoFault::TooShort));
            },
        };
        proof {
            lemma_find_bounds(buf@, START_STOP_BYTE, (start + 1) as nat);
        }
        let stuffed = vstd::slice::slice_subrange(buf, start + 1, stop);
        let unstuffed = unstuff_data_bytes(stuffed);
        if unstuffed.len() < 5 {
            return Err(self.fault_error(MisoFault::TooShort));
        }
        let frame = vstd::slice::slice_subrange(unstuffed.as_slice(), 0, unstuffed.len() - 1);
        let address = frame[0];
        let command_id = frame[1];
        let state = frame[2];
        let length = frame[3] as usize;
        let data = copy_bytes(vstd::slice::slice_subrange(frame, 4, frame.len()));
        let checksum = unstuffed[unstuffed.len() - 1];
        assert(frame@ =~= unstuffed@.drop_last());
        if length != data.len() {
            return Err(self.fault_error(MisoFault::WrongLength));
        }
        let calculated = calculate_checksum(frame);
        if checksum != calculated {
            return Err(self.fault_error(MisoFault::WrongChecksum));
        }
        Ok(ShdlcMisoFrame { slave_address: address, command_id, state, data })
    }
}

/// The index `find_byte_from` gives holds the byte and is not before the start.
pub proof fn lemma_find_bounds(s: Seq<u8>, b: u8, i: nat)
    ensures
        find_byte_from(s, b, i) matches Some(k) ==> i <= k < s.len() && s[k as int] == b,
    decreases s.len() - i,
{
    if i < s.len() && s[i as int] != b {
        lemma_find_bounds(s, b, i + 1);
    }
}

proof fn lemma_find_contains(s: Seq<u8>, b: u8, i: nat)
    ensures
        (find_byte_from(s, b, i) is Some) <==> (exists|k: int| i <= k < s.len() && s[k] == b),
    decreases s.len() - i,
{
    if i < s.len() && s[i as int] != b {
        lemma_find_contains(s, b, i + 1);
        assert forall|k: int| i <= k < s.len() && s[k] == b implies i + 1 <= k by {}
    }
}

proof fn lemma_find_first(s: Seq<u8>, b: u8, i: nat, j: nat)
    requires
        i <= j < s.len(),
        s[j as int] == b,
        forall|k: int| i <= k < j ==> s[k] != b,
    ensures
        find_byte_from(s, b, i) == Some(j),
    decreases j - i,
{
    if i < j {
        lemma_find_first(s, b, i + 1, j);
    }
}

proof fn lemma_count_concat(s: Seq<u8>, t: Seq<u8>)
    ensures
        count_start_bytes(s + t) == count_start_bytes(s) + count_start_bytes(t),
    decreases t.len(),
{
    if t.len() == 0 {
        assert(s + t =~= s);
    } else {
        lemma_count_concat(s, t.drop_last());
        assert((s + t).drop_last() =~= s + t.drop_last());
    }
}

proof fn lemma_count_none(s: Seq<u8>)
    requires
        forall|k: int| 0 <= k < s.len() ==> s[k] != START_STOP_BYTE,
    ensures
        count_start_bytes(s) == 0,
    decreases s.len(),
{
    if s.len() > 0 {
        lemma_count_none(s.drop_last());
    }
}

/// A response frame survives the wire: for every address, command, state and
/// data of at most 255 bytes, the raw bytes that a device sends for them hold
/// exactly two start/stop bytes, are no longer than `MAX_RAW_FRAME_LENGTH`,
/// and decode back to the same address, command, state and data.
pub proof fn lemma_interpret_miso_bytes(slave_address: u8, command_id: u8, state: u8, data: Seq<u8>)
    requires
        data.len() <= 255,
    ensures
        spec_interpret(spec_miso_bytes(slave_address, command_id, state, data)) == Ok::<
            (u8, u8, u8, Seq<u8>),
            MisoFault,
        >((slave_address, command_id, state, data)),
        count_start_bytes(spec_miso_bytes(slave_address, command_id, state, data)) == 2,
        spec_miso_bytes(slave_address, command_id, state, data).len() <= MAX_RAW_FRAME_LENGTH,
{
    let content = miso_content(slave_address, command_id, state, data);
    let full = content.push(spec_checksum(content));
    let st = spec_stuff(full);
    let raw = spec_miso_bytes(slave_address, command_id, state, data);
    assert(raw =~= seq![START_STOP_BYTE] + st + seq![START_STOP_BYTE]);
    lemma_stuff_has_no_start_byte(full);
    lemma_stuff_len(full);
    lemma_unstuff_stuff(full);
    let stop = st.len() + 1;
    assert(raw[0] == START_STOP_BYTE);
    assert(raw[stop as int] == START_STOP_BYTE);
    assert forall|k: int| 1 <= k < stop implies raw[k] != START_STOP_BYTE by {
        assert(raw[k] == st[k - 1]);
    }
    lemma_find_first(raw, START_STOP_BYTE, 0, 0);
    lemma_find_first(raw, START_STOP_BYTE, 1, stop);
    assert(raw.subrange(1, stop as int) =~= st);
    let u = spec_unstuff(st);
    assert(u == full);
    assert(u.drop_last() =~= content);
    assert(content.subrange(4, content.len() as int) =~= data);
    assert(content[3] as nat == data.len());
    lemma_count_none(st);
    lemma_count_concat(seq![START_STOP_BYTE], st);
    lemma_count_concat(seq![START_STOP_BYTE] + st, seq![START_STOP_BYTE]);
    assert(seq![START_STOP_BYTE].drop_last() =~= Seq::<u8>::empty());
    assert(count_start_bytes(Seq::<u8>::empty()) == 0);
    assert(count_start_bytes(seq![START_STOP_BYTE]) == 1);
    assert(raw == (seq![START_STOP_BYTE] + st) + seq![START_STOP_BYTE]);
}

proof fn lemma_find_none_before(s: Seq<u8>, b: u8, i: nat)
    ensures
        find_byte_from(s, b, i) matches Some(k) ==> forall|j: int| i <= j < k ==> s[j] != b,
    decreases s.len() - i,
{
    if i < s.len() && s[i as int] != b {
        lemma_find_none_before(s, b, i + 1);
    }
}

/// A command frame survives the wire: for every address, command and data of
/// at most 255 bytes, the raw bytes of the MOSI frame start and end with the
/// start/stop byte and hold no other one; un-stuffing the bytes between them
/// gives the address, the command, the data length and the data, followed by
/// one checksum byte that brings the sum of all these bytes to 255 modulo 256.
pub proof fn lemma_mosi_bytes_decode(slave_address: u8, command_id: u8, data: Seq<u8>)
    requires
        data.len() <= 255,
    ensures
        ({
            let raw = spec_mosi_bytes(slave_address, command_id, data);
            let u = spec_unstuff(raw.subrange(1, raw.len() - 1));
            &&& raw.len() >= 2
            &&& raw[0] == START_STOP_BYTE
            &&& raw[raw.len() - 1] == START_STOP_BYTE
            &&& forall|i: int| 0 < i < raw.len() - 1 ==> raw[i] != START_STOP_BYTE
            &&& u.len() == data.len() + 4
            &&& u.drop_last() == seq![slave_address, command_id, data.len() as u8] + data
            &&& byte_sum(u) % 256 == 255
        }),
{
    let content = mosi_content(slave_address, command_id, data);
    let full = content.push(spec_checksum(content));
    let st = spec_stuff(full);
    let raw = spec_mosi_bytes(slave_address, command_id, data);
    assert(raw =~= seq![START_STOP_BYTE] + st + seq![START_STOP_BYTE]);
    lemma_stuff_has_no_start_byte(full);
    lemma_unstuff_stuff(full);
    lemma_checksum_completes(content);
    assert(raw.subrange(1, raw.len() - 1) =~= st);
    assert forall|i: int| 0 < i < raw.len() - 1 implies raw[i] != START_STOP_BYTE by {
        assert(raw[i] == st[i - 1]);
    }
    assert(full.drop_last() =~= content);
    assert(content =~= seq![slave_address, command_id, data.len() as u8] + data);
}

/// A response is accepted only with its exact checksum: for every received
/// buffer that decodes to address, command, state and data, the bytes between
/// its first two start/stop bytes un-stuff to the address, command, state,
/// data length and data, followed by one byte that brings the sum of all
/// these bytes to 255 modulo 256. So a frame in which any one byte of the
/// content or of the checksum differs does not decode.
pub proof fn lemma_interpret_checks_sum(buf: Seq<u8>)
    ensures
        spec_interpret(buf) matches Ok((a, c, st, d)) ==> exists|s: int, e: int|
            #![trigger buf[s], buf[e]]
            {
                let u = spec_unstuff(buf.subrange(s + 1, e));
                &&& 0 <= s < e < buf.len()
                &&& buf[s] == START_STOP_BYTE
                &&& buf[e] == START_STOP_BYTE
                &&& forall|k: int| 0 <= k < e && k != s ==> buf[k] != START_STOP_BYTE
                &&& u.len() == d.len() + 5
                &&& u.take(4) == seq![a, c, st, d.len() as u8]
                &&& u.subrange(4, u.len() - 1) == d
                &&& byte_sum(u) % 256 == 255
            },
{
    if let Ok((a, c, st, d)) = spec_interpret(buf) {
        let s = find_byte_from(buf, START_STOP_BYTE, 0)->Some_0;
        let e = find_byte_from(buf, START_STOP_BYTE, s + 1)->Some_0;
        lemma_find_bounds(buf, START_STOP_BYTE, 0);
        lemma_find_bounds(buf, START_STOP_BYTE, s + 1);
        lemma_find_none_before(buf, START_STOP_BYTE, 0);
        lemma_find_none_before(buf, START_STOP_BYTE, s + 1);
        let u = spec_unstuff(buf.subrange(s + 1int, e as int));
        let frame = u.drop_last();
        assert(u =~= frame.push(spec_checksum(frame)));
        lemma_checksum_completes(frame);
        assert(u.take(4) =~= seq![a, c, st, d.len() as u8]);
        assert(u.subrange(4, u.len() - 1) =~= d);
        assert(buf[s as int] == START_STOP_BYTE && buf[e as int] == START_STOP_BYTE);
    }
}

} // verus!
