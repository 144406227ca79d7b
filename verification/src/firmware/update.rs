use vstd::prelude::*;
use crate::firmware::hex_parser::hex_digit_value;
use crate::firmware::image::ShdlcFirmwareImage;
use crate::protocol::commands::{FirmwareUpdateData, FirmwareUpdateStop};
use crate::protocol::errors::ShdlcError;
use vstd::string::StringSliceAdditionalSpecFns;
use vstd::utf8::encode_utf8;

verus! {

/// The bitrate the bootloader talks at.
pub const BOOTLOADER_BITRATE: u32 = 115200;

/// The slave address the bootloader answers on.
pub const BOOTLOADER_SLAVE_ADDRESS: u8 = 0;

/// The most firmware bytes one update data command carries.
pub const FIRMWARE_BLOCK_SIZE: usize = 254;

/// The value of a sequence of hexadecimal digits, if all are digits.
pub open spec fn hex_digits_value(d: Seq<u8>) -> Option<nat>
    decreases d.len(),
{
    if d.len() == 0 {
        Some(0)
    } else {
        match (hex_digits_value(d.drop_last()), hex_digit_value(d.last())) {
            (Some(v), Some(x)) => Some(v * 16 + x as nat),
            _ => None,
        }
    }
}

/// A 32-bit number in hexadecimal text, as `u32::from_str_radix` with radix
/// 16 reads it: an optional `+` sign and at least one digit, the value fitting
/// in 32 bits.
pub open spec fn spec_parse_hex_u32(s: Seq<u8>) -> Option<u32> {
    let digits = if s.len() >= 1 && s[0] == 43 {
        s.skip(1)
    } else {
        s
    };
    if digits.len() == 0 {
        None
    } else {
        match hex_digits_value(digits) {
            Some(v) => if v <= u32::MAX {
                Some(v as u32)
            } else {
                None
            },
            None => None,
        }
    }
}

proof fn lemma_hex_value_grows(d: Seq<u8>, i: int)
    requires
        0 <= i <= d.len(),
    ensures
        hex_digits_value(d) matches Some(v) ==> hex_digits_value(d.take(i)) matches Some(p) && p
            <= v,
    decreases d.len(),
{
    if i < d.len() {
        lemma_hex_value_grows(d.drop_last(), i);
        assert(d.drop_last().take(i) =~= d.take(i));
    } else {
        assert(d.take(i) =~= d);
    }
}

fn hex_digit(b: u8) -> (r: Option<u8>)
    ensures
        r == hex_digit_value(b),
{
    if 48 <= b && b <= 57 {
        Some(b - 48)
    } else if 97 <= b && b <= 102 {
        Some(b - 87)
    } else if 65 <= b && b <= 70 {
        Some(b - 55)
    } else {
        None
    }
}

/// Read a product type, sent by the device as hexadecimal text, as a number.
pub fn parse_product_type(text: &str) -> (r: Option<u32>)
    ensures
        r == spec_parse_hex_u32(text.spec_bytes()),
{
    let s = text.as_bytes();
    let start: usize = if s.len() >= 1 && s[0] == 43 {
        1
    } else {
        0
    };
    let ghost digits = s@.skip(start as int);
    assert(digits =~= if s@.len() >= 1 && s@[0] == 43 {
        s@.skip(1)
    } else {
        s@
    });
    if s.len() == start {
        return None;
    }
    let mut value: u64 = 0;
    let mut i: usize = start;
    while i < s.len()
        invariant
            start <= i <= s.len(),
            s.len() > start,
            s@ == text.spec_bytes(),
            (start == 1) == (s@.len() >= 1 && s@[0] == 43),
            start <= 1,
            digits == s@.skip(start as int),
            digits == (if s@.len() >= 1 && s@[0] == 43 {
                s@.skip(1)
            } else {
                s@
            }),
            hex_digits_value(digits.take(i - start)) == Some(value as nat),
            value <= u32::MAX,
        decreases s.len() - i,
    {
        assert(digits.take(i - start + 1).drop_last() =~= digits.take(i - start));
        assert(digits.take(i - start + 1).last() == s@[i as int]);
        match hex_digit(s[i]) {
            None => {
                assert(hex_digits_value(digits.take(i - start + 1)) is None);
                proof {
                    lemma_hex_value_grows(digits, i - start + 1);
                }
                return None;
            },
            Some(x) => {
                value = value * 16 + x as u64;
                if value > 0xFFFF_FFFF {
                    assert(hex_digits_value(digits.take(i - start + 1)) == Some(value as nat));
                    proof {
                        lemma_hex_value_grows(digits, i - start + 1);
                    }
                    return None;
                }
            },
        }
        i = i + 1;
    }
    assert(digits.take(i - start) =~= digits);
    Some(value as u32)
}

/// The message of the error for a product type that is no hexadecimal number.
pub open spec fn product_type_error_text(text: Seq<char>) -> Seq<char> {
    "Failed to parse product type hex: "@ + text
}

/// `r` is the outcome of checking an image built for product type `expected`
/// against a device that reported its product type as `text`: an error where
/// the text is no hexadecimal number, an incompatibility error where the
/// numbers differ, success where they agree.
pub open spec fn compatibility_result(text: Seq<char>, expected: u32, r: Result<(), ShdlcError>) -> bool {
    match spec_parse_hex_u32(encode_utf8(text)) {
        None => r matches Err(ShdlcError::Other(m)) && m@ == product_type_error_text(text),
        Some(actual) => if actual == expected {
            r is Ok
        } else {
            r == Err::<(), ShdlcError>(ShdlcError::FirmwareImageIncompatibilityError { expected, actual })
        },
    }
}

/// Check that a firmware image fits the device whose product type the
/// device reported as text.
pub fn check_compatibility(product_type_text: &str, image: &ShdlcFirmwareImage) -> (r: Result<
    (),
    ShdlcError,
>)
    ensures
        compatibility_result(product_type_text@, image.spec_product_type(), r),
{
    match parse_product_type(product_type_text) {
        None => {
            let mut m = String::from_str("Failed to parse product type hex: ");
            m.append(product_type_text);
            Err(ShdlcError::Other(m))
        },
        Some(actual) => {
            let expected = image.product_type();
            if actual != expected {
                Err(ShdlcError::FirmwareImageIncompatibilityError { expected, actual })
            } else {
                Ok(())
            }
        },
    }
}

/// The blocks that the update sends of `data` from position `cursor` on:
/// consecutive parts of at most `FIRMWARE_BLOCK_SIZE` bytes.
pub open spec fn update_blocks(data: Seq<u8>, cursor: nat) -> Seq<Seq<u8>>
    decreases data.len() - cursor,
{
    if cursor >= data.len() {
        seq![]
    } else {
        let end = if cursor + FIRMWARE_BLOCK_SIZE < data.len() {
            cursor + FIRMWARE_BLOCK_SIZE
        } else {
            data.len() as int
        };
        seq![data.subrange(cursor as int, end)] + update_blocks(data, end as nat)
    }
}

/// The concatenation of a sequence of byte blocks.
pub open spec fn concat_blocks(blocks: Seq<Seq<u8>>) -> Seq<u8>
    decreases blocks.len(),
{
    if blocks.len() == 0 {
        seq![]
    } else {
        blocks[0] + concat_blocks(blocks.drop_first())
    }
}

/// The update sends the whole application data in order: for every data and
/// every cursor position in it, the blocks sent from that position are each
/// non-empty and at most `FIRMWARE_BLOCK_SIZE` bytes long, and together they
/// are exactly the data from that position on.
pub proof fn lemma_update_blocks_cover_data(data: Seq<u8>, cursor: nat)
    requires
        cursor <= data.len(),
    ensures
        concat_blocks(update_blocks(data, cursor)) == data.subrange(cursor as int, data.len() as int),
        forall|i: int|
            0 <= i < update_blocks(data, cursor).len() ==> 0 < #[trigger] update_blocks(
                data,
                cursor,
            )[i].len() <= FIRMWARE_BLOCK_SIZE,
    decreases data.len() - cursor,
{
    let blocks = update_blocks(data, cursor);
    if cursor >= data.len() {
        assert(data.subrange(cursor as int, data.len() as int) =~= Seq::<u8>::empty());
    } else {
        let end = if cursor + FIRMWARE_BLOCK_SIZE < data.len() {
            cursor + FIRMWARE_BLOCK_SIZE
        } else {
            data.len() as int
        };
        lemma_update_blocks_cover_data(data, end as nat);
        let rest = update_blocks(data, end as nat);
        assert(blocks.drop_first() =~= rest);
        assert(data.subrange(cursor as int, end) + data.subrange(end, data.len() as int)
            =~= data.subrange(cursor as int, data.len() as int));
        assert forall|i: int| 0 <= i < blocks.len() implies 0 < #[trigger] blocks[i].len()
            <= FIRMWARE_BLOCK_SIZE by {
            if i > 0 {
                assert(blocks[i] == rest[i - 1]);
            }
        }
    }
}

/// Take the next block of the application data for the update, or `None`
/// when all data has been read.
pub fn next_update_block(image: &mut ShdlcFirmwareImage) -> (block: Option<FirmwareUpdateData>)
    ensures
        final(image).spec_data() == old(image).spec_data(),
        final(image).spec_checksum_byte() == old(image).spec_checksum_byte(),
        final(image).spec_product_type() == old(image).spec_product_type(),
        match block {
            None => update_blocks(old(image).spec_data(), old(image).spec_cursor()).len() == 0
                && final(image).spec_cursor() == old(image).spec_cursor(),
            Some(b) => {
                let blocks = update_blocks(old(image).spec_data(), old(image).spec_cursor());
                &&& blocks.len() > 0
                &&& b.payload@ == blocks[0]
                &&& update_blocks(final(image).spec_data(), final(image).spec_cursor())
                    == blocks.drop_first()
            },
        },
{
    if image.available_bytes() == 0 {
        return None;
    }
    let chunk = image.read(Some(FIRMWARE_BLOCK_SIZE));
    let block = FirmwareUpdateData::new(chunk.as_slice());
    proof {
        let blocks = update_blocks(old(image).spec_data(), old(image).spec_cursor());
        assert(blocks.drop_first() =~= update_blocks(image.spec_data(), image.spec_cursor()));
    }
    Some(block)
}

/// Where a firmware update stands: which action it waits for the result of.
#[derive(Debug, Clone, Copy, PartialEq, Eq, Structural)]
pub enum UpdateStage {
    /// Waits for the transport's bitrate.
    ReadingBitrate,
    /// Waits for the transport to take its own bitrate again.
    TestingBitrate,
    /// Waits for the product type of the device.
    CheckingProductType,
    /// Waits for the device to enter its bootloader.
    EnteringBootloader,
    /// Waits for the transport to switch to the bootloader bitrate.
    SwitchingBitrate,
    /// Waits for the bootloader to clear the flash.
    ClearingFlash,
    /// Waits for the bootloader to take a block of data.
    WritingData,
    /// Waits for the bootloader to verify the checksum.
    VerifyingChecksum,
    /// Waits for the transport to switch back to the original bitrate.
    RestoringBitrate,
    /// The update is over.
    Finished,
}

/// What the firmware update asks to be done next.
#[derive(Debug)]
pub enum UpdateAction {
    /// Read the bitrate of the transport.
    ReadBitrate,
    /// Set the bitrate of the transport.
    SetBitrate(u32),
    /// Ask the device for its product type.
    ReadProductType,
    /// Send `EnterBootloader` to the device.
    EnterBootloader,
    /// Send `FirmwareUpdateStart` to the bootloader, which clears the flash.
    ClearFlash,
    /// Send a block of application data to the bootloader.
    WriteBlock(FirmwareUpdateData),
    /// Send `FirmwareUpdateStop` with the checksum of the image.
    VerifyChecksum(FirmwareUpdateStop),
    /// The update is over with this result.
    Finish(Result<(), ShdlcError>),
}

/// What came back from the action asked for last.
#[derive(Debug)]
pub enum UpdateEvent {
    /// The bitrate of the transport, or why it could not be read.
    Bitrate(Result<u32, ShdlcError>),
    /// The product type the device reported, or why it could not be read.
    ProductType(Result<String, ShdlcError>),
    /// The result of setting the bitrate or of sending a command.
    Done(Result<(), ShdlcError>),
}

/// The event that answers the action a stage waits for.
pub open spec fn answers(stage: UpdateStage, event: UpdateEvent) -> bool {
    match stage {
        UpdateStage::ReadingBitrate => event is Bitrate,
        UpdateStage::CheckingProductType => event is ProductType,
        UpdateStage::Finished => false,
        _ => event is Done,
    }
}

/// The stages in which the bootloader bitrate is set and commands go to the bootloader.
pub open spec fn talks_to_bootloader(stage: UpdateStage) -> bool {
    stage == UpdateStage::ClearingFlash || stage == UpdateStage::WritingData || stage
        == UpdateStage::VerifyingChecksum
}

/// The decisions of a firmware update: from the result of each action to the
/// next action. The image keeps its data, product type and checksum
/// throughout; only its read position moves as blocks are taken.
#[derive(Debug)]
pub struct FirmwareUpdateSequence {
    image: ShdlcFirmwareImage,
    emergency: bool,
    stage: UpdateStage,
    original_bitrate: u32,
    outcome: Result<(), ShdlcError>,
}

impl FirmwareUpdateSequence {
    pub closed spec fn spec_image(self) -> ShdlcFirmwareImage {
        self.image
    }

    /// An emergency update skips the compatibility check and does not ask the
    /// device to enter its bootloader: the device is taken to be in it already.
    pub closed spec fn spec_emergency(self) -> bool {
        self.emergency
    }

    pub closed spec fn spec_stage(self) -> UpdateStage {
        self.stage
    }

    /// The bitrate the transport had when the update started.
    pub closed spec fn spec_original_bitrate(self) -> u32 {
        self.original_bitrate
    }

    /// The result of the bootloader commands, reported once the bitrate is restored.
    pub closed spec fn spec_outcome(self) -> Result<(), ShdlcError> {
        self.outcome
    }

    /// A new update of `image`; its first action is `ReadBitrate`.
    pub fn new(image: ShdlcFirmwareImage, emergency: bool) -> (u: Self)
        ensures
            u.spec_stage() == UpdateStage::ReadingBitrate,
            u.spec_emergency() == emergency,
            u.spec_image() == image,
    {
        FirmwareUpdateSequence {
            image,
            emergency,
            stage: UpdateStage::ReadingBitrate,
            original_bitrate: 0,
            outcome: Ok(()),
        }
    }

    /// The action an update starts with.
    pub fn first_action(&self) -> (a: UpdateAction)
        ensures
            a is ReadBitrate,
    {
        UpdateAction::ReadBitrate
    }

    /// The image being written.
    pub fn image(&self) -> (img: &ShdlcFirmwareImage)
        ensures
            *img == self.spec_image(),
    {
        &self.image
    }

    pub fn stage(&self) -> (s: UpdateStage)
        ensures
            s == self.spec_stage(),
    {
        self.stage
    }

    /// Whether `event` answers the action the update waits for.
    pub fn awaits(&self, event: &UpdateEvent) -> (r: bool)
        ensures
            r == answers(self.spec_stage(), *event),
    {
        match (self.stage, event) {
            (UpdateStage::ReadingBitrate, UpdateEvent::Bitrate(_)) => true,
            (UpdateStage::ReadingBitrate, _) => false,
            (UpdateStage::CheckingProductType, UpdateEvent::ProductType(_)) => true,
            (UpdateStage::CheckingProductType, _) => false,
            (UpdateStage::Finished, _) => false,
            (_, UpdateEvent::Done(_)) => true,
            _ => false,
        }
    }

    /// Take the next block of the image, or go on to the checksum where all
    /// data is written.
    fn write_next(&mut self) -> (a: UpdateAction)
        requires
            talks_to_bootloader(old(self).spec_stage()),
        ensures
            final(self).spec_emergency() == old(self).spec_emergency(),
            final(self).spec_original_bitrate() == old(self).spec_original_bitrate(),
            final(self).spec_outcome() == old(self).spec_outcome(),
            final(self).spec_image().spec_data() == old(self).spec_image().spec_data(),
            final(self).spec_image().spec_product_type() == old(self).spec_image().spec_product_type(),
            final(self).spec_image().spec_checksum_byte() == old(self).spec_image().spec_checksum_byte(),
            ({
                let blocks = update_blocks(old(self).spec_image().spec_data(), old(self).spec_image().spec_cursor());
                if blocks.len() == 0 {
                    &&& final(self).spec_stage() == UpdateStage::VerifyingChecksum
                    &&& a matches UpdateAction::VerifyChecksum(c)
                    &&& c.checksum == old(self).spec_image().spec_checksum_byte()
                } else {
                    &&& final(self).spec_stage() == UpdateStage::WritingData
                    &&& a matches UpdateAction::WriteBlock(b)
                    &&& b.payload@ == blocks[0]
                    &&& update_blocks(final(self).spec_image().spec_data(), final(self).spec_image().spec_cursor())
                        == blocks.drop_first()
                }
            }),
    {
        match next_update_block(&mut self.image) {
            Some(block) => {
                self.stage = UpdateStage::WritingData;
                UpdateAction::WriteBlock(block)
            },
            None => {
                self.stage = UpdateStage::VerifyingChecksum;
                UpdateAction::VerifyChecksum(FirmwareUpdateStop::new(self.image.checksum()))
            },
        }
    }

    /// Go on from the result of the last action to the next action.
    ///
    /// An error before the bootloader bitrate is set ends the update with that
    /// error. Once the bootloader bitrate is set, the original bitrate is
    /// restored whatever the bootloader answers, and the update then ends with
    /// the bootloader's result. The blocks are written from the start of the
    /// application data on, each taken where the one before ended.
    pub fn step(&mut self, event: UpdateEvent) -> (action: UpdateAction)
        requires
            answers(old(self).spec_stage(), event),
        ensures
            final(self).spec_emergency() == old(self).spec_emergency(),
            final(self).spec_image().spec_data() == old(self).spec_image().spec_data(),
            final(self).spec_image().spec_product_type() == old(self).spec_image().spec_product_type(),
            final(self).spec_image().spec_checksum_byte() == old(self).spec_image().spec_checksum_byte(),
            old(self).spec_stage() != UpdateStage::ReadingBitrate ==> final(self).spec_original_bitrate()
                == old(self).spec_original_bitrate(),
            ({
                let old_stage = old(self).spec_stage();
                let original = old(self).spec_original_bitrate();
                match event {
                    UpdateEvent::Bitrate(Ok(b)) => {
                        &&& final(self).spec_stage() == UpdateStage::TestingBitrate
                        &&& final(self).spec_original_bitrate() == b
                        &&& action == UpdateAction::SetBitrate(b)
                    },
                    UpdateEvent::Bitrate(Err(e)) => {
                        &&& final(self).spec_stage() == UpdateStage::Finished
                        &&& action == UpdateAction::Finish(Err(e))
                    },
                    UpdateEvent::ProductType(Ok(text)) => {
                        if compatibility_result(text@, old(self).spec_image().spec_product_type(), Ok(())) {
                            &&& final(self).spec_stage() == UpdateStage::EnteringBootloader
                            &&& action is EnterBootloader
                        } else {
                            &&& final(self).spec_stage() == UpdateStage::Finished
                            &&& action matches UpdateAction::Finish(r)
                            &&& r is Err
                            &&& compatibility_result(text@, old(self).spec_image().spec_product_type(), r)
                        }
                    },
                    UpdateEvent::ProductType(Err(e)) => {
                        &&& final(self).spec_stage() == UpdateStage::Finished
                        &&& action == UpdateAction::Finish(Err(e))
                    },
                    UpdateEvent::Done(r) => {
                        if old_stage == UpdateStage::RestoringBitrate {
                            &&& final(self).spec_stage() == UpdateStage::Finished
                            &&& action == UpdateAction::Finish(old(self).spec_outcome())
                        } else if r is Err && talks_to_bootloader(old_stage) {
                            &&& final(self).spec_stage() == UpdateStage::RestoringBitrate
                            &&& final(self).spec_outcome() == r
                            &&& action == UpdateAction::SetBitrate(original)
                        } else if r is Err {
                            &&& final(self).spec_stage() == UpdateStage::Finished
                            &&& action == UpdateAction::Finish(r)
                        } else if old_stage == UpdateStage::TestingBitrate {
                            if old(self).spec_emergency() {
                                &&& final(self).spec_stage() == UpdateStage::SwitchingBitrate
                                &&& action == UpdateAction::SetBitrate(BOOTLOADER_BITRATE)
                            } else {
                                &&& final(self).spec_stage() == UpdateStage::CheckingProductType
                                &&& action is ReadProductType
                            }
                        } else if old_stage == UpdateStage::EnteringBootloader {
                            &&& final(self).spec_stage() == UpdateStage::SwitchingBitrate
                            &&& action == UpdateAction::SetBitrate(BOOTLOADER_BITRATE)
                        } else if old_stage == UpdateStage::SwitchingBitrate {
                            &&& final(self).spec_stage() == UpdateStage::ClearingFlash
                            &&& action is ClearFlash
                        } else if old_stage == UpdateStage::VerifyingChecksum {
                            &&& final(self).spec_stage() == UpdateStage::RestoringBitrate
                            &&& final(self).spec_outcome() == r
                            &&& action == UpdateAction::SetBitrate(original)
                        } else {
                            let data = old(self).spec_image().spec_data();
                            let from = if old_stage == UpdateStage::ClearingFlash {
                                0
                            } else {
                                old(self).spec_image().spec_cursor()
                            };
                            let blocks = update_blocks(data, from);
                            if blocks.len() == 0 {
                                &&& final(self).spec_stage() == UpdateStage::VerifyingChecksum
                                &&& action matches UpdateAction::VerifyChecksum(c)
                                &&& c.checksum == old(self).spec_image().spec_checksum_byte()
                            } else {
                                &&& final(self).spec_stage() == UpdateStage::WritingData
                                &&& action matches UpdateAction::WriteBlock(b)
                                &&& b.payload@ == blocks[0]
                                &&& update_blocks(data, final(self).spec_image().spec_cursor())
                                    == blocks.drop_first()
                            }
                        }
                    },
                }
            }),
    {
        match event {
            UpdateEvent::Bitrate(Ok(b)) => {
                self.original_bitrate = b;
                self.stage = UpdateStage::TestingBitrate;
                UpdateAction::SetBitrate(b)
            },
            UpdateEvent::Bitrate(Err(e)) => {
                self.stage = UpdateStage::Finished;
                UpdateAction::Finish(Err(e))
            },
            UpdateEvent::ProductType(Ok(text)) => {
                match check_compatibility(text.as_str(), &self.image) {
                    Ok(()) => {
                        self.stage = UpdateStage::EnteringBootloader;
                        UpdateAction::EnterBootloader
                    },
                    Err(e) => {
                        self.stage = UpdateStage::Finished;
                        UpdateAction::Finish(Err(e))
                    },
                }
            },
            UpdateEvent::ProductType(Err(e)) => {
                self.stage = UpdateStage::Finished;
                UpdateAction::Finish(Err(e))
            },
            UpdateEvent::Done(r) => {
                match self.stage {
                    UpdateStage::RestoringBitrate => {
                        self.stage = UpdateStage::Finished;
                        let mut outcome = Ok(());
                        std::mem::swap(&mut outcome, &mut self.outcome);
                        UpdateAction::Finish(outcome)
                    },
                    UpdateStage::ClearingFlash | UpdateStage::WritingData
                    | UpdateStage::VerifyingChecksum => {
                        if r.is_err() || self.stage == UpdateStage::VerifyingChecksum {
                            self.stage = UpdateStage::RestoringBitrate;
                            self.outcome = r;
                            UpdateAction::SetBitrate(self.original_bitrate)
                        } else {
                            if self.stage == UpdateStage::ClearingFlash {
                                self.image.reset_cursor();
                            }
                            self.write_next()
                        }
                    },
                    _ => {
                        if r.is_err() {
                            self.stage = UpdateStage::Finished;
                            UpdateAction::Finish(r)
                        } else {
                            match self.stage {
                                UpdateStage::TestingBitrate => {
                                    if self.emergency {
                                        self.stage = UpdateStage::SwitchingBitrate;
                                        UpdateAction::SetBitrate(BOOTLOADER_BITRATE)
                                    } else {
                                        self.stage = UpdateStage::CheckingProductType;
                                        UpdateAction::ReadProductType
                                    }
                                },
                                UpdateStage::EnteringBootloader => {
                                    self.stage = UpdateStage::SwitchingBitrate;
                                    UpdateAction::SetBitrate(BOOTLOADER_BITRATE)
                                },
                                _ => {
                                    self.stage = UpdateStage::ClearingFlash;
                                    UpdateAction::ClearFlash
                                },
                            }
                        }
                    },
                }
            },
        }
    }
}

} // verus!
