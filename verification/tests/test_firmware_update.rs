use shdlc_driver::firmware::image::ShdlcFirmwareImage;
use shdlc_driver::firmware::update::{
    FirmwareUpdateSequence, UpdateAction, UpdateEvent, UpdateStage, BOOTLOADER_BITRATE,
};
use shdlc_driver::protocol::{ShdlcCommand, ShdlcError};

const SMALL_IMAGE: &str = ":0C1000004A474F4B000014000100AABB3F\n:020200000001FB\n:00000001FF\n";

fn small_image() -> ShdlcFirmwareImage {
    ShdlcFirmwareImage::new(SMALL_IMAGE, 0x0000, 0x1000, None, Some(0x200)).unwrap()
}

/// An image of 600 application bytes, sent in blocks of 254, 254 and 92 bytes.
fn large_image() -> ShdlcFirmwareImage {
    let mut lines = String::new();
    lines.push_str(":041000004A474F4B");
    let sum: u32 = 0x04 + 0x10 + 0x4A + 0x47 + 0x4F + 0x4B;
    lines.push_str(&format!("{:02X}\n", (256 - sum % 256) % 256));
    for block in 0..30u32 {
        let addr = 0x1004 + block * 20;
        let mut rec = vec![20u8, (addr >> 8) as u8, addr as u8, 0];
        rec.extend((0..20).map(|i| ((block * 20 + i) % 251) as u8));
        let s: u32 = rec.iter().map(|&b| b as u32).sum();
        rec.push(((256 - s % 256) % 256) as u8);
        lines.push(':');
        for b in rec {
            lines.push_str(&format!("{:02X}", b));
        }
        lines.push('\n');
    }
    ShdlcFirmwareImage::new(&lines, 0, 0x1000, None, Some(0)).unwrap()
}

fn ok() -> UpdateEvent {
    UpdateEvent::Done(Ok(()))
}

#[test]
fn test_update_sequence_success() {
    let mut seq = FirmwareUpdateSequence::new(small_image(), false);
    assert!(matches!(seq.first_action(), UpdateAction::ReadBitrate));
    assert!(matches!(seq.step(UpdateEvent::Bitrate(Ok(460800))), UpdateAction::SetBitrate(460800)));
    assert!(matches!(seq.step(ok()), UpdateAction::ReadProductType));
    assert!(matches!(
        seq.step(UpdateEvent::ProductType(Ok("00140000".to_string()))),
        UpdateAction::EnterBootloader
    ));
    assert!(matches!(seq.step(ok()), UpdateAction::SetBitrate(BOOTLOADER_BITRATE)));
    assert!(matches!(seq.step(ok()), UpdateAction::ClearFlash));
    match seq.step(ok()) {
        UpdateAction::WriteBlock(block) => {
            assert_eq!(block.payload, vec![0x00, 0x00, 0x14, 0x00, 0x01, 0x00, 0xAA, 0xBB]);
        }
        other => panic!("expected a block, got {:?}", other),
    }
    match seq.step(ok()) {
        UpdateAction::VerifyChecksum(stop) => {
            assert_eq!(stop.checksum, 0x85);
            assert_eq!(stop.data(), vec![0x03, 0x85]);
        }
        other => panic!("expected the checksum, got {:?}", other),
    }
    assert!(matches!(seq.step(ok()), UpdateAction::SetBitrate(460800)));
    assert_eq!(seq.stage(), UpdateStage::RestoringBitrate);
    assert!(matches!(seq.step(ok()), UpdateAction::Finish(Ok(()))));
    assert_eq!(seq.stage(), UpdateStage::Finished);
    assert!(!seq.awaits(&ok()));
}

#[test]
fn test_update_sequence_writes_all_blocks_in_order() {
    let img = large_image();
    let mut expected = img.clone();
    let expected = expected.read(None);
    let mut seq = FirmwareUpdateSequence::new(img, true);
    seq.step(UpdateEvent::Bitrate(Ok(115200)));
    // An emergency update goes straight to the bootloader bitrate.
    assert!(matches!(seq.step(ok()), UpdateAction::SetBitrate(BOOTLOADER_BITRATE)));
    assert!(matches!(seq.step(ok()), UpdateAction::ClearFlash));
    let mut written = Vec::new();
    let mut sizes = Vec::new();
    let mut action = seq.step(ok());
    while let UpdateAction::WriteBlock(block) = action {
        sizes.push(block.payload.len());
        written.extend_from_slice(&block.payload);
        action = seq.step(ok());
    }
    assert!(matches!(action, UpdateAction::VerifyChecksum(_)));
    assert_eq!(sizes, vec![254, 254, 92]);
    assert_eq!(written, expected);
}

#[test]
fn test_update_sequence_restores_bitrate_after_failed_write() {
    let mut seq = FirmwareUpdateSequence::new(large_image(), true);
    seq.step(UpdateEvent::Bitrate(Ok(19200)));
    seq.step(ok());
    seq.step(ok());
    assert!(matches!(seq.step(ok()), UpdateAction::WriteBlock(_)));
    let action = seq.step(UpdateEvent::Done(Err(ShdlcError::Timeout)));
    assert!(matches!(action, UpdateAction::SetBitrate(19200)));
    // A failure to restore the bitrate does not hide the failure of the write.
    let action = seq.step(UpdateEvent::Done(Err(ShdlcError::Io("gone".to_string()))));
    assert!(matches!(action, UpdateAction::Finish(Err(ShdlcError::Timeout))));
}

#[test]
fn test_update_sequence_restores_bitrate_after_failed_checksum() {
    let mut seq = FirmwareUpdateSequence::new(small_image(), true);
    seq.step(UpdateEvent::Bitrate(Ok(57600)));
    seq.step(ok());
    seq.step(ok());
    seq.step(ok());
    assert!(matches!(seq.step(ok()), UpdateAction::VerifyChecksum(_)));
    let failure = ShdlcError::device_error(6);
    assert!(matches!(seq.step(UpdateEvent::Done(Err(failure.clone()))), UpdateAction::SetBitrate(57600)));
    match seq.step(ok()) {
        UpdateAction::Finish(Err(e)) => assert_eq!(e, failure),
        other => panic!("expected the device error, got {:?}", other),
    }
}

#[test]
fn test_update_sequence_rejects_incompatible_device() {
    let mut seq = FirmwareUpdateSequence::new(small_image(), false);
    seq.step(UpdateEvent::Bitrate(Ok(115200)));
    seq.step(ok());
    match seq.step(UpdateEvent::ProductType(Ok("00060000".to_string()))) {
        UpdateAction::Finish(Err(e)) => assert_eq!(
            e,
            ShdlcError::FirmwareImageIncompatibilityError { expected: 0x0014_0000, actual: 0x0006_0000 }
        ),
        other => panic!("expected an incompatibility, got {:?}", other),
    }
    assert_eq!(seq.stage(), UpdateStage::Finished);
}

#[test]
fn test_update_sequence_errors_before_the_bootloader_end_it() {
    let mut seq = FirmwareUpdateSequence::new(small_image(), false);
    assert!(matches!(
        seq.step(UpdateEvent::Bitrate(Err(ShdlcError::PortError("closed".to_string())))),
        UpdateAction::Finish(Err(ShdlcError::PortError(_)))
    ));

    let mut seq = FirmwareUpdateSequence::new(small_image(), false);
    seq.step(UpdateEvent::Bitrate(Ok(115200)));
    seq.step(ok());
    seq.step(UpdateEvent::ProductType(Ok("00140000".to_string())));
    assert!(matches!(
        seq.step(UpdateEvent::Done(Err(ShdlcError::Timeout))),
        UpdateAction::Finish(Err(ShdlcError::Timeout))
    ));

    // Switching to the bootloader bitrate fails: nothing to restore yet.
    let mut seq = FirmwareUpdateSequence::new(small_image(), true);
    seq.step(UpdateEvent::Bitrate(Ok(115200)));
    seq.step(ok());
    assert!(matches!(
        seq.step(UpdateEvent::Done(Err(ShdlcError::Timeout))),
        UpdateAction::Finish(Err(ShdlcError::Timeout))
    ));
}

#[test]
fn test_update_sequence_unparsable_product_type() {
    let mut seq = FirmwareUpdateSequence::new(small_image(), false);
    seq.step(UpdateEvent::Bitrate(Ok(115200)));
    seq.step(ok());
    assert!(seq.awaits(&UpdateEvent::ProductType(Ok(String::new()))));
    assert!(!seq.awaits(&ok()));
    match seq.step(UpdateEvent::ProductType(Ok("SHT".to_string()))) {
        UpdateAction::Finish(Err(ShdlcError::Other(m))) => {
            assert_eq!(m, "Failed to parse product type hex: SHT")
        }
        other => panic!("expected a parse error, got {:?}", other),
    }
}
