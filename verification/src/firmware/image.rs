use vstd::prelude::*;
use crate::firmware::hex_parser::{
    from_hex_outcome, image_bytes, is_hex_line_error, le32_value, spec_parse_hex, HexParse,
    IntelHexParser,
};
use crate::protocol::checksum::{byte_sum, spec_checksum};
use crate::protocol::errors::ShdlcError;
use crate::protocol::types::FirmwareVersion;
use vstd::string::StringSliceAdditionalSpecFns;

verus! {

const PRODUCT_TYPE_SIZE: u32 = 4;

/// The signature an application image starts with where none is given.
pub open spec fn default_signature() -> Seq<u8> {
    seq![0x4Au8, 0x47u8, 0x4Fu8, 0x4Bu8]
}

/// The offset of the bootloader version from the bootloader start where none is given.
pub open spec fn default_bl_version_offset() -> u32 {
    0x1004
}

/// The highest address of a memory image that holds data, or 0 for an empty image.
pub open spec fn spec_max_addr(mem: Map<u32, u8>) -> u32 {
    if mem.dom().is_empty() {
        0
    } else {
        choose|a: u32| mem.contains_key(a) && forall|b: u32| mem.contains_key(b) ==> b <= a
    }
}

/// The last address of the application data: just before the bootloader
/// where the bootloader follows the application, else the end of the image.
pub open spec fn app_end_addr(mem: Map<u32, u8>, bl_start: u32, app_start: u32) -> u32 {
    if bl_start > app_start {
        (bl_start - 1) as u32
    } else {
        spec_max_addr(mem)
    }
}

/// The application data: from after the signature to the last application address.
pub open spec fn app_data_bytes(mem: Map<u32, u8>, bl_start: u32, app_start: u32, sig_len: nat) -> Seq<
    u8,
> {
    let start = app_start as nat + sig_len;
    let end = app_end_addr(mem, bl_start, app_start) as nat;
    if end < start {
        Seq::empty()
    } else {
        image_bytes(mem, 0xFF, start, (end - start + 1) as nat)
    }
}

/// The image addresses that reading a firmware image from a parsed memory
/// image touches stay within the 32-bit address space.
pub open spec fn image_layout_ok(
    mem: Map<u32, u8>,
    bl_start: u32,
    app_start: u32,
    sig: Seq<u8>,
    bl_version_offset: u32,
) -> bool {
    &&& app_start as nat + (sig.len() as u32) as nat <= u32::MAX
    &&& image_bytes(mem, 0xFF, app_start as nat, (sig.len() as u32) as nat) == sig ==> {
        &&& app_start as nat + sig.len() + 6 <= u32::MAX
        &&& bl_start as nat + bl_version_offset as nat + 2 <= u32::MAX
        &&& (app_end_addr(mem, bl_start, app_start) < app_start + sig.len()
            || app_end_addr(mem, bl_start, app_start) < u32::MAX)
    }
}

/// Loading a firmware image from the text reads no address beyond the 32-bit
/// address space: where the text parses, the layout is in range.
pub open spec fn image_new_admissible(
    text: Seq<u8>,
    bl_start: u32,
    app_start: u32,
    sig: Seq<u8>,
    bl_version_offset: u32,
) -> bool {
    match spec_parse_hex(text, Map::empty()) {
        HexParse::Failed(_, _, _) => true,
        HexParse::Complete(mem) => image_layout_ok(mem, bl_start, app_start, sig, bl_version_offset),
    }
}

/// `r` is what loading a firmware image from the text `text` gives, with the
/// given bootloader and application start, signature and bootloader version
/// offset: the parser's error, a signature error with the bytes found, or the
/// image with product type, versions, application data and checksum read
/// from the memory image, its read position at the start.
pub open spec fn image_loaded(
    text: Seq<u8>,
    bl_start_addr: u32,
    app_start_addr: u32,
    sig: Seq<u8>,
    off: u32,
    r: Result<ShdlcFirmwareImage, ShdlcError>,
) -> bool {
    match spec_parse_hex(text, Map::empty()) {
        HexParse::Failed(_, line, e) => r is Err && is_hex_line_error(r->Err_0, line, e),
        HexParse::Complete(mem) => {
            let found = image_bytes(mem, 0xFF, app_start_addr as nat, (sig.len() as u32) as nat);
            if found != sig {
                r matches Err(ShdlcError::FirmwareImageSignatureError(v)) && v@ == found
            } else {
                r matches Ok(img) && {
                    &&& img.spec_product_type() as nat == le32_value(
                        image_bytes(mem, 0xFF, app_start_addr as nat + sig.len(), 4),
                    )
                    &&& img.spec_bootloader_version() == stored_version(
                        mem,
                        bl_start_addr as nat + off as nat,
                    )
                    &&& img.spec_application_version() == stored_version(
                        mem,
                        app_start_addr as nat + sig.len() + 4,
                    )
                    &&& img.spec_data() == app_data_bytes(mem, bl_start_addr, app_start_addr, sig.len())
                    &&& img.spec_checksum_byte() == spec_checksum(img.spec_data())
                    &&& img.spec_cursor() == 0
                }
            }
        },
    }
}

/// How many bytes `read` takes where `avail` bytes are left: `size` of them,
/// or all that are left where `size` is `None` or larger.
pub open spec fn read_count(avail: nat, size: Option<usize>) -> nat {
    match size {
        Some(s) => if s < avail {
            s as nat
        } else {
            avail
        },
        None => avail,
    }
}

/// A call that moves the read position of a firmware image.
pub enum CursorCall {
    /// `read` with the given size.
    Read(Option<usize>),
    /// `reset_cursor`.
    Reset,
}

/// The read position, and the total length of the chunks read since the
/// last reset, after the calls, in data of `len` bytes, from read position
/// `cursor` with `total` bytes read before: each read moves the position by
/// the length of its chunk as `read` states it, each reset goes back to 0.
pub open spec fn after_calls(len: nat, cursor: nat, total: nat, calls: Seq<CursorCall>) -> (nat, nat)
    decreases calls.len(),
{
    if calls.len() == 0 {
        (cursor, total)
    } else {
        match calls[0] {
            CursorCall::Read(size) => {
                let k = read_count((len - cursor) as nat, size);
                after_calls(len, cursor + k, total + k, calls.drop_first())
            },
            CursorCall::Reset => after_calls(len, 0, 0, calls.drop_first()),
        }
    }
}

/// The bytes left to read count the reads: over any sequence of `read` and
/// `reset_cursor` calls on an image whose read position is at the start (as
/// `new` leaves it), the position never passes the end of the data, and
/// `available_bytes`, the size less the position, is the size less the total
/// length of the chunks read since the image was loaded or last reset.
pub proof fn lemma_available_counts_reads(len: nat, calls: Seq<CursorCall>)
    ensures
        after_calls(len, 0, 0, calls).0 <= len,
        after_calls(len, 0, 0, calls).0 == after_calls(len, 0, 0, calls).1,
{
    lemma_after_calls_in_step(len, 0, calls);
}

proof fn lemma_after_calls_in_step(len: nat, cursor: nat, calls: Seq<CursorCall>)
    requires
        cursor <= len,
    ensures
        after_calls(len, cursor, cursor, calls).0 <= len,
        after_calls(len, cursor, cursor, calls).0 == after_calls(len, cursor, cursor, calls).1,
    decreases calls.len(),
{
    if calls.len() > 0 {
        match calls[0] {
            CursorCall::Read(size) => {
                let k = read_count((len - cursor) as nat, size);
                lemma_after_calls_in_step(len, cursor + k, calls.drop_first());
            },
            CursorCall::Reset => {
                lemma_after_calls_in_step(len, 0, calls.drop_first());
            },
        }
    }
}

/// The firmware version stored as minor byte followed by major byte.
pub open spec fn stored_version(mem: Map<u32, u8>, addr: nat) -> FirmwareVersion {
    let b = image_bytes(mem, 0xFF, addr, 2);
    FirmwareVersion { major: b[1], minor: b[0], debug: false }
}

/// Represents a loaded and validated firmware image for an SHDLC device.
#[derive(Debug)]
pub struct ShdlcFirmwareImage {
    _bl_start_addr: u32,
    _app_start_addr: u32,
    _signature: Vec<u8>,
    _bl_version_offset: u32,
    app_data_index: usize,
    product_type: u32,
    bootloader_version: FirmwareVersion,
    application_version: FirmwareVersion,
    app_data: Vec<u8>,
    checksum: u8,
}

impl Clone for ShdlcFirmwareImage {
    fn clone(&self) -> (c: Self)
        ensures
            c.spec_data() == self.spec_data(),
            c.spec_cursor() == self.spec_cursor(),
            c.spec_product_type() == self.spec_product_type(),
            c.spec_bootloader_version() == self.spec_bootloader_version(),
            c.spec_application_version() == self.spec_application_version(),
            c.spec_checksum_byte() == self.spec_checksum_byte(),
    {
        proof {
            use_type_invariant(self);
        }
        ShdlcFirmwareImage {
            _bl_start_addr: self._bl_start_addr,
            _app_start_addr: self._app_start_addr,
            _signature: vstd::slice::slice_to_vec(self._signature.as_slice()),
            _bl_version_offset: self._bl_version_offset,
            app_data_index: self.app_data_index,
            product_type: self.product_type,
            bootloader_version: self.bootloader_version,
            application_version: self.application_version,
            app_data: vstd::slice::slice_to_vec(self.app_data.as_slice()),
            checksum: self.checksum,
        }
    }
}

fn bytes_equal(a: &[u8], b: &[u8]) -> (r: bool)
    ensures
        r == (a@ == b@),
{
    if a.len() != b.len() {
        return false;
    }
    let mut i: usize = 0;
    while i < a.len()
        invariant
            i <= a.len(),
            a.len() == b.len(),
            forall|k: int| 0 <= k < i ==> a@[k] == b@[k],
        decreases a.len() - i,
    {
        if a[i] != b[i] {
            return false;
        }
        i = i + 1;
    }
    assert(a@ =~= b@);
    true
}

fn sum_mod256(bytes: &[u8]) -> (sum: u32)
    ensures
        sum == byte_sum(bytes@) % 256,
{
    let mut sum: u32 = 0;
    let mut i: usize = 0;
    while i < bytes.len()
        invariant
            i <= bytes.len(),
            sum < 256,
            sum == byte_sum(bytes@.take(i as int)) % 256,
        decreases bytes.len() - i,
    {
        assert(bytes@.take(i as int + 1).drop_last() =~= bytes@.take(i as int));
        sum = (sum + bytes[i] as u32) % 256;
        i = i + 1;
    }
    assert(bytes@.take(i as int) =~= bytes@);
    sum
}

impl ShdlcFirmwareImage {
    #[verifier::type_invariant]
    spec fn cursor_in_data(self) -> bool {
        self.app_data_index <= self.app_data@.len()
    }

    /// The application data that the update sends.
    pub closed spec fn spec_data(self) -> Seq<u8> {
        self.app_data@
    }

    /// How many bytes of the data have been read.
    pub closed spec fn spec_cursor(self) -> nat {
        self.app_data_index as nat
    }

    pub closed spec fn spec_product_type(self) -> u32 {
        self.product_type
    }

    pub closed spec fn spec_bootloader_version(self) -> FirmwareVersion {
        self.bootloader_version
    }

    pub closed spec fn spec_application_version(self) -> FirmwareVersion {
        self.application_version
    }

    pub closed spec fn spec_checksum_byte(self) -> u8 {
        self.checksum
    }

    /// Load a firmware image from an Intel-Hex text: check the signature at
    /// the application start, and read product type, versions and the
    /// application data with its checksum.
    #[verifier::rlimit(40)]
    pub fn new(
        hex_content: &str,
        bl_start_addr: u32,
        app_start_addr: u32,
        signature: Option<&[u8]>,
        bl_version_offset: Option<u32>,
    ) -> (r: Result<Self, ShdlcError>)
        requires
            image_new_admissible(
                hex_content.spec_bytes(),
                bl_start_addr,
                app_start_addr,
                match signature {
                    Some(s) => s@,
                    None => default_signature(),
                },
                bl_version_offset.unwrap_or(default_bl_version_offset()),
            ),
        ensures
            image_loaded(
                hex_content.spec_bytes(),
                bl_start_addr,
                app_start_addr,
                match signature {
                    Some(s) => s@,
                    None => default_signature(),
                },
                bl_version_offset.unwrap_or(default_bl_version_offset()),
                r,
            ),
    {
        let sig: Vec<u8> = match signature {
            Some(s) => vstd::slice::slice_to_vec(s),
            None => vec![0x4Au8, 0x47u8, 0x4Fu8, 0x4Bu8],
        };
        let bl_ver_off: u32 = match bl_version_offset {
            Some(o) => o,
            None => 0x1004,
        };
        assert(sig@ =~= match signature {
            Some(s) => s@,
            None => default_signature(),
        });
        let hex = match IntelHexParser::from_hex_str(hex_content) {
            Ok(h) => h,
            Err(e) => {
                return Err(e);
            },
        };
        let ghost mem = hex.memory();

        // Check signature
        let actual_sig = hex.read_bytes(app_start_addr, sig.len());
        if !bytes_equal(actual_sig.as_slice(), sig.as_slice()) {
            return Err(ShdlcError::FirmwareImageSignatureError(actual_sig));
        }
        assert(sig.len() as u32 == sig.len());

        // Read product type
        let pt_addr: u32 = app_start_addr + sig.len() as u32;
        let product_type = hex.read_u32_le(pt_addr);

        // Read bootloader version
        let bl_ver_minor_addr: u32 = bl_start_addr + bl_ver_off;
        let bl_ver_bytes = hex.read_bytes(bl_ver_minor_addr, 2);
        let bootloader_version = FirmwareVersion::new(bl_ver_bytes[1], bl_ver_bytes[0], false);

        // Read application version
        let app_ver_minor_addr: u32 = app_start_addr + sig.len() as u32 + PRODUCT_TYPE_SIZE;
        let app_ver_bytes = hex.read_bytes(app_ver_minor_addr, 2);
        let application_version = FirmwareVersion::new(app_ver_bytes[1], app_ver_bytes[0], false);

        // Read application data
        let start_addr: u32 = app_start_addr + sig.len() as u32;
        let end_addr: u32 = if bl_start_addr > app_start_addr {
            bl_start_addr - 1
        } else {
            let m = hex.max_addr();
            proof {
                if !mem.dom().is_empty() {
                    let c = choose|a: u32|
                        mem.contains_key(a) && forall|b: u32| mem.contains_key(b) ==> b <= a;
                    assert(mem.contains_key(c) && forall|b: u32| mem.contains_key(b) ==> b <= c);
                    assert(c <= m && m <= c);
                }
            }
            m
        };
        assert(end_addr == app_end_addr(mem, bl_start_addr, app_start_addr));

        let app_data = hex.read_range(start_addr, end_addr);
        assert(app_data@ == app_data_bytes(mem, bl_start_addr, app_start_addr, sig@.len()));
        let sum = sum_mod256(app_data.as_slice());
        let checksum: u8 = 255 - sum as u8;

        let img = Self {
                _bl_start_addr: bl_start_addr,
                _app_start_addr: app_start_addr,
                _signature: sig,
                _bl_version_offset: bl_ver_off,
                app_data_index: 0,
                product_type,
                bootloader_version,
                application_version,
                app_data,
                checksum,
            };
        Ok(img)
    }

    /// Whether `new` takes these arguments: it does unless the text parses
    /// and an address it reads lies beyond the 32-bit address space.
    pub fn can_load(
        hex_content: &str,
        bl_start_addr: u32,
        app_start_addr: u32,
        signature: Option<&[u8]>,
        bl_version_offset: Option<u32>,
    ) -> (ok: bool)
        ensures
            ok == image_new_admissible(
                hex_content.spec_bytes(),
                bl_start_addr,
                app_start_addr,
                match signature {
                    Some(s) => s@,
                    None => default_signature(),
                },
                bl_version_offset.unwrap_or(default_bl_version_offset()),
            ),
    {
        let sig: Vec<u8> = match signature {
            Some(s) => vstd::slice::slice_to_vec(s),
            None => vec![0x4Au8, 0x47u8, 0x4Fu8, 0x4Bu8],
        };
        let bl_ver_off: u32 = match bl_version_offset {
            Some(o) => o,
            None => 0x1004,
        };
        assert(sig@ =~= match signature {
            Some(s) => s@,
            None => default_signature(),
        });
        let hex = match IntelHexParser::from_hex_str(hex_content) {
            Ok(h) => h,
            Err(_) => {
                return true;
            },
        };
        let ghost mem = hex.memory();
        if (app_start_addr as u64) + ((sig.len() as u32) as u64) > 0xFFFF_FFFFu64 {
            return false;
        }
        let actual_sig = hex.read_bytes(app_start_addr, sig.len());
        if !bytes_equal(actual_sig.as_slice(), sig.as_slice()) {
            return true;
        }
        assert(sig.len() as u32 == sig.len());
        if (app_start_addr as u64) + (sig.len() as u64) + 6 > 0xFFFF_FFFFu64 {
            return false;
        }
        if (bl_start_addr as u64) + (bl_ver_off as u64) + 2 > 0xFFFF_FFFFu64 {
            return false;
        }
        let end_addr: u32 = if bl_start_addr > app_start_addr {
            bl_start_addr - 1
        } else {
            let m = hex.max_addr();
            proof {
                if !mem.dom().is_empty() {
                    let c = choose|a: u32|
                        mem.contains_key(a) && forall|b: u32| mem.contains_key(b) ==> b <= a;
                    assert(mem.contains_key(c) && forall|b: u32| mem.contains_key(b) ==> b <= c);
                    assert(c <= m && m <= c);
                }
            }
            m
        };
        assert(end_addr == app_end_addr(mem, bl_start_addr, app_start_addr));
        (end_addr as u64) < (app_start_addr as u64) + (sig.len() as u64) || end_addr < 0xFFFF_FFFFu32
    }

    pub fn product_type(&self) -> (t: u32)
        ensures
            t == self.spec_product_type(),
    {
        self.product_type
    }

    pub fn bootloader_version(&self) -> (v: FirmwareVersion)
        ensures
            v == self.spec_bootloader_version(),
    {
        self.bootloader_version
    }

    pub fn application_version(&self) -> (v: FirmwareVersion)
        ensures
            v == self.spec_application_version(),
    {
        self.application_version
    }

    /// The checksum of the application data that the bootloader checks.
    pub fn checksum(&self) -> (c: u8)
        ensures
            c == self.spec_checksum_byte(),
    {
        self.checksum
    }

    /// The size of the application data in bytes.
    pub fn size(&self) -> (n: usize)
        ensures
            n == self.spec_data().len(),
    {
        self.app_data.len()
    }

    /// How many bytes of the application data are left to read.
    pub fn available_bytes(&self) -> (n: usize)
        ensures
            n == self.spec_data().len() - self.spec_cursor(),
    {
        proof {
            use_type_invariant(self);
        }
        self.app_data.len() - self.app_data_index
    }

    /// Start reading the application data from its beginning again.
    pub fn reset_cursor(&mut self)
        ensures
            final(self).spec_cursor() == 0,
            final(self).spec_data() == old(self).spec_data(),
            final(self).spec_product_type() == old(self).spec_product_type(),
            final(self).spec_bootloader_version() == old(self).spec_bootloader_version(),
            final(self).spec_application_version() == old(self).spec_application_version(),
            final(self).spec_checksum_byte() == old(self).spec_checksum_byte(),
    {
        self.app_data_index = 0;
    }

    /// Read the next `size` bytes of the application data (all that are left
    /// where `size` is `None` or larger).
    pub fn read(&mut self, size: Option<usize>) -> (chunk: Vec<u8>)
        ensures
            old(self).spec_cursor() <= old(self).spec_data().len(),
            ({
                let count = read_count(
                    (old(self).spec_data().len() - old(self).spec_cursor()) as nat,
                    size,
                );
                &&& chunk@ == old(self).spec_data().subrange(
                    old(self).spec_cursor() as int,
                    (old(self).spec_cursor() + count) as int,
                )
                &&& final(self).spec_cursor() == old(self).spec_cursor() + count
            }),
            final(self).spec_data() == old(self).spec_data(),
            final(self).spec_product_type() == old(self).spec_product_type(),
            final(self).spec_bootloader_version() == old(self).spec_bootloader_version(),
            final(self).spec_application_version() == old(self).spec_application_version(),
            final(self).spec_checksum_byte() == old(self).spec_checksum_byte(),
    {
        proof {
            use_type_invariant(&*self);
        }
        let avail = self.available_bytes();
        let len = self.app_data.len();
        let count = match size {
            Some(s) => if s < avail {
                s
            } else {
                avail
            },
            None => avail,
        };
        assert(self.app_data_index + count <= len);
        let chunk = vstd::slice::slice_to_vec(
            vstd::slice::slice_subrange(
                self.app_data.as_slice(),
                self.app_data_index,
                self.app_data_index + count,
            ),
        );
        self.app_data_index = self.app_data_index + count;
        chunk
    }
}

/// A firmware image holds what the parser reads of the same text: for every
/// text that loads as an image, where `parser` is what `from_hex_str` gives
/// for the text and `max` what its `max_addr` gives, the signature is what
/// `read_bytes` gives at the application start; the product type is what
/// `read_u32_le` gives after the signature; the bootloader and application
/// versions are the two bytes `read_bytes` gives at the bootloader version
/// address and after the product type (minor first); the application data is
/// what `read_range` gives from after the signature to the byte before the
/// bootloader (or to `max` where the bootloader does not follow the
/// application); the checksum is `calculate_checksum` of that data; and all
/// of the data is still to be read.
pub proof fn lemma_image_reads_parser(
    text: Seq<u8>,
    bl_start_addr: u32,
    app_start_addr: u32,
    sig: Seq<u8>,
    off: u32,
    parser: IntelHexParser,
    max: u32,
    img: ShdlcFirmwareImage,
)
    requires
        from_hex_outcome(text, Ok(parser)),
        parser.memory().dom().is_empty() ==> max == 0,
        !parser.memory().dom().is_empty() ==> parser.memory().contains_key(max) && forall|b: u32|
            parser.memory().contains_key(b) ==> b <= max,
        image_loaded(text, bl_start_addr, app_start_addr, sig, off, Ok(img)),
    ensures
        ({
            let mem = parser.memory();
            let pad = parser.padding();
            let s = app_start_addr as nat + sig.len();
            let e = if bl_start_addr > app_start_addr {
                (bl_start_addr - 1) as nat
            } else {
                max as nat
            };
            let blv = image_bytes(mem, pad, bl_start_addr as nat + off as nat, 2);
            let appv = image_bytes(mem, pad, s + 4, 2);
            &&& image_bytes(mem, pad, app_start_addr as nat, sig.len()) == sig
            &&& img.spec_product_type() as nat == le32_value(image_bytes(mem, pad, s, 4))
            &&& img.spec_bootloader_version() == FirmwareVersion {
                major: blv[1],
                minor: blv[0],
                debug: false,
            }
            &&& img.spec_application_version() == FirmwareVersion {
                major: appv[1],
                minor: appv[0],
                debug: false,
            }
            &&& img.spec_data() == if e < s {
                Seq::<u8>::empty()
            } else {
                image_bytes(mem, pad, s, (e - s + 1) as nat)
            }
            &&& img.spec_checksum_byte() == spec_checksum(img.spec_data())
            &&& img.spec_data().len() - img.spec_cursor() == img.spec_data().len()
        }),
{
    let mem = parser.memory();
    if !mem.dom().is_empty() {
        let c = spec_max_addr(mem);
        assert(mem.contains_key(max));
        assert(mem.contains_key(c) && forall|b: u32| mem.contains_key(b) ==> b <= c);
        assert(c == max);
    }
    assert(app_end_addr(mem, bl_start_addr, app_start_addr) as nat == if bl_start_addr > app_start_addr {
        (bl_start_addr - 1) as nat
    } else {
        max as nat
    });
}

/// Loading with the defaults is loading with the signature 4A 47 4F 4B
/// ("JGOK") and the bootloader version offset 0x1004 given explicitly: for
/// every text and addresses, `new` with `None` for both and `new` with these
/// values succeed and fail together and, where they succeed, give images
/// with the same product type, versions, data and checksum; and `can_load`
/// answers the same for both.
pub proof fn lemma_image_defaults(
    text: Seq<u8>,
    bl_start_addr: u32,
    app_start_addr: u32,
    with_defaults: Result<ShdlcFirmwareImage, ShdlcError>,
    explicit: Result<ShdlcFirmwareImage, ShdlcError>,
)
    requires
        image_loaded(
            text,
            bl_start_addr,
            app_start_addr,
            default_signature(),
            default_bl_version_offset(),
            with_defaults,
        ),
        image_loaded(text, bl_start_addr, app_start_addr, seq![0x4Au8, 0x47u8, 0x4Fu8, 0x4Bu8], 0x1004, explicit),
    ensures
        with_defaults is Ok <==> explicit is Ok,
        with_defaults matches Ok(a) ==> explicit matches Ok(b) && a.spec_product_type()
            == b.spec_product_type() && a.spec_bootloader_version() == b.spec_bootloader_version()
            && a.spec_application_version() == b.spec_application_version() && a.spec_data()
            == b.spec_data() && a.spec_checksum_byte() == b.spec_checksum_byte(),
        image_new_admissible(
            text,
            bl_start_addr,
            app_start_addr,
            default_signature(),
            default_bl_version_offset(),
        ) == image_new_admissible(text, bl_start_addr, app_start_addr, seq![0x4Au8, 0x47u8, 0x4Fu8, 0x4Bu8], 0x1004),
{
    assert(default_signature() =~= seq![0x4Au8, 0x47u8, 0x4Fu8, 0x4Bu8]);
}

/// Without an offset, the bootloader version is the byte pair stored 0x1004
/// bytes after the bootloader start, minor byte first: for every text that
/// loads with the default offset, the version's minor and major numbers are
/// the two bytes that the parser of the same text reads at
/// `bl_start_addr + 0x1004`.
pub proof fn lemma_default_bootloader_version(
    text: Seq<u8>,
    bl_start_addr: u32,
    app_start_addr: u32,
    sig: Seq<u8>,
    parser: IntelHexParser,
    img: ShdlcFirmwareImage,
)
    requires
        from_hex_outcome(text, Ok(parser)),
        image_loaded(text, bl_start_addr, app_start_addr, sig, default_bl_version_offset(), Ok(img)),
    ensures
        img.spec_bootloader_version().minor == image_bytes(
            parser.memory(),
            parser.padding(),
            bl_start_addr as nat + 0x1004,
            2,
        )[0],
        img.spec_bootloader_version().major == image_bytes(
            parser.memory(),
            parser.padding(),
            bl_start_addr as nat + 0x1004,
            2,
        )[1],
        !img.spec_bootloader_version().debug,
{
}

} // verus!
