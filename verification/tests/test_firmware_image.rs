use shdlc_driver::firmware::hex_parser::{decode, IntelHexParser};
use shdlc_driver::firmware::image::ShdlcFirmwareImage;
use shdlc_driver::firmware::update::{
    check_compatibility, next_update_block, parse_product_type, FIRMWARE_BLOCK_SIZE,
};
use shdlc_driver::protocol::{ShdlcCommand, ShdlcError};

const SMALL_IMAGE: &str = ":0C1000004A474F4B000014000100AABB3F\n:020200000001FB\n:00000001FF\n";

fn other_message(e: ShdlcError) -> String {
    match e {
        ShdlcError::Other(m) => m,
        other => panic!("expected Other, got {:?}", other),
    }
}

#[test]
fn test_hex_parser_data_records() {
    let p = IntelHexParser::from_hex_str(SMALL_IMAGE).unwrap();
    assert_eq!(p.min_addr(), 0x0200);
    assert_eq!(p.max_addr(), 0x100B);
    assert_eq!(p.read_bytes(0x1000, 4), vec![0x4A, 0x47, 0x4F, 0x4B]);
    // Addresses without data read as the 0xFF padding.
    assert_eq!(p.read_bytes(0x01FF, 4), vec![0xFF, 0x00, 0x01, 0xFF]);
    assert_eq!(p.read_u32_le(0x1004), 0x0014_0000);
    assert_eq!(p.read_range(0x100A, 0x100B), vec![0xAA, 0xBB]);
    assert_eq!(p.read_range(0x100B, 0x100A), Vec::<u8>::new());
}

#[test]
fn test_hex_parser_empty_text() {
    let p = IntelHexParser::from_hex_str("").unwrap();
    assert_eq!(p.min_addr(), 0);
    assert_eq!(p.max_addr(), 0);
    assert_eq!(p.read_bytes(5, 2), vec![0xFF, 0xFF]);
}

#[test]
fn test_hex_parser_extended_addresses_and_whitespace() {
    // Extended linear address 0x0800 -> base 0x08000000; blank and indented lines, CRLF.
    let text = "  :020000040800F2\r\n\n\t:020010001122BB  \r\n:020000021234B6\n:0100010033CB\n";
    let p = IntelHexParser::from_hex_str(text).unwrap();
    assert_eq!(p.read_bytes(0x0800_0010, 2), vec![0x11, 0x22]);
    // Extended segment address 0x1234 -> base 0x12340.
    assert_eq!(p.read_bytes(0x0001_2341, 1), vec![0x33]);
}

#[test]
fn test_hex_parser_stops_at_end_of_file_record() {
    let text = ":00000001FF\nthis line is never read\n";
    let p = IntelHexParser::from_hex_str(text).unwrap();
    assert_eq!(p.max_addr(), 0);
}

#[test]
fn test_hex_parser_later_records_overwrite() {
    let text = ":020200000001FB\n:0102000055A8\n";
    let p = IntelHexParser::from_hex_str(text).unwrap();
    assert_eq!(p.read_bytes(0x0200, 2), vec![0x55, 0x01]);
}

#[test]
fn test_hex_parser_errors() {
    let e = IntelHexParser::from_hex_str(":00000001FF\n").map(|_| ());
    assert!(e.is_ok());

    let e = IntelHexParser::from_hex_str("\n020200000001FB\n").map(|_| ()).unwrap_err();
    assert_eq!(other_message(e), "Invalid Intel-Hex line 2 (missing ':' prefix)");

    let e = IntelHexParser::from_hex_str(":0000FF").map(|_| ()).unwrap_err();
    assert_eq!(other_message(e), "Intel-Hex line 1 too short");

    let e = IntelHexParser::from_hex_str(":020200000001F").map(|_| ()).unwrap_err();
    assert_eq!(other_message(e), "Invalid hex encoding on line 1: Odd length");

    let e = IntelHexParser::from_hex_str(":020200000001FG").map(|_| ()).unwrap_err();
    assert_eq!(other_message(e), "Invalid hex encoding on line 1: Invalid hex char");

    let e = IntelHexParser::from_hex_str(":020200000001FC").map(|_| ()).unwrap_err();
    assert_eq!(other_message(e), "Intel-Hex checksum mismatch on line 1");
}

#[test]
fn test_hex_parser_is_robust() {
    // A byte count of 5 in a record that holds one data byte.
    let e = IntelHexParser::from_hex_str(":050000000100").map(|_| ()).unwrap_err();
    assert_eq!(other_message(e), "Intel-Hex line 1 byte count exceeds the record");

    // Base 0xFFFF0000 plus offset 0xFFFF: the second byte would lie past 0xFFFFFFFF.
    let e = IntelHexParser::from_hex_str(":02000004FFFFFC\n:02FFFF00AABB9B\n").map(|_| ()).unwrap_err();
    assert_eq!(other_message(e), "Intel-Hex line 2 data exceeds the 32-bit address space");
    let p = IntelHexParser::from_hex_str(":02000004FFFFFC\n:01FFFF00AA57\n").unwrap();
    assert_eq!(p.max_addr(), 0xFFFF_FFFF);

    // A two-character group that cuts a multi-byte character.
    let e = IntelHexParser::from_hex_str(":020200000\u{e9}001FB").map(|_| ()).unwrap_err();
    assert_eq!(other_message(e), "Invalid hex encoding on line 1: Invalid hex char");
}

#[test]
fn test_hex_parser_load_keeps_earlier_lines_on_error() {
    let mut p = IntelHexParser::new();
    let r = p.load_hex_str(":020200000001FB\n:020200000001FC\n");
    assert!(r.is_err());
    assert_eq!(p.read_bytes(0x0200, 2), vec![0x00, 0x01]);
}

#[test]
fn test_hex_decode() {
    assert_eq!(decode("0aFF"), Ok(vec![0x0A, 0xFF]));
    assert_eq!(decode("+A10"), Ok(vec![0x0A, 0x10]));
    assert_eq!(decode("abc"), Err("Odd length"));
    assert_eq!(decode("0g"), Err("Invalid hex char"));
    assert_eq!(decode("-1"), Err("Invalid hex char"));
    assert_eq!(decode(""), Ok(vec![]));
    assert_eq!(decode("0\u{e9}0"), Err("Invalid hex char"));
    assert_eq!(decode("\u{e9}"), Err("Invalid hex char"));
}

fn small_image() -> ShdlcFirmwareImage {
    ShdlcFirmwareImage::new(SMALL_IMAGE, 0x0000, 0x1000, None, Some(0x200)).unwrap()
}

#[test]
fn test_firmware_image_small() {
    let img = small_image();
    assert_eq!(img.product_type(), 0x0014_0000);
    assert_eq!(img.bootloader_version().major, 1);
    assert_eq!(img.bootloader_version().minor, 0);
    assert_eq!(img.application_version().major, 0);
    assert_eq!(img.application_version().minor, 1);
    assert_eq!(img.size(), 8);
    // 0x14 + 0x01 + 0xAA + 0xBB = 378; 378 % 256 = 122; 122 ^ 0xFF = 0x85
    assert_eq!(img.checksum(), 0x85);
}

#[test]
fn test_firmware_image_bootloader_after_application() {
    // The application data ends just before the bootloader start.
    let img = ShdlcFirmwareImage::new(SMALL_IMAGE, 0x1008, 0x1000, None, Some(0)).unwrap();
    assert_eq!(img.size(), 4);
    let mut img = img;
    assert_eq!(img.read(None), vec![0x00, 0x00, 0x14, 0x00]);
    // Bootloader version at 0x1008: minor 0x01, major 0x00.
    assert_eq!(img.bootloader_version().major, 0);
    assert_eq!(img.bootloader_version().minor, 1);
}

#[test]
fn test_firmware_image_wrong_signature() {
    let res = ShdlcFirmwareImage::new(SMALL_IMAGE, 0x0000, 0x1001, None, None);
    match res {
        Err(ShdlcError::FirmwareImageSignatureError(found)) => {
            assert_eq!(found, vec![0x47, 0x4F, 0x4B, 0x00]);
        }
        _ => panic!("expected a signature error"),
    }
}

#[test]
fn test_firmware_image_custom_signature() {
    let img = ShdlcFirmwareImage::new(SMALL_IMAGE, 0x0000, 0x1000, Some(&[0x4A, 0x47]), Some(0x200))
        .unwrap();
    // The product type is read right after the two signature bytes.
    assert_eq!(img.product_type(), 0x0000_4B4F);
    assert_eq!(img.size(), 10);
}

#[test]
fn test_firmware_image_parse_error_propagates() {
    let res = ShdlcFirmwareImage::new("garbage", 0, 0x1000, None, None);
    match res {
        Err(ShdlcError::Other(m)) => assert_eq!(m, "Invalid Intel-Hex line 1 (missing ':' prefix)"),
        _ => panic!("expected a parse error"),
    }
}

#[test]
fn test_firmware_image_read_cursor() {
    let mut img = small_image();
    assert_eq!(img.available_bytes(), 8);
    assert_eq!(img.read(Some(3)), vec![0x00, 0x00, 0x14]);
    assert_eq!(img.available_bytes(), 5);
    assert_eq!(img.read(Some(100)), vec![0x00, 0x01, 0x00, 0xAA, 0xBB]);
    assert_eq!(img.available_bytes(), 0);
    assert_eq!(img.read(Some(4)), Vec::<u8>::new());
    img.reset_cursor();
    assert_eq!(img.read(None).len(), 8);
}

#[test]
fn test_update_blocks_cover_image() {
    // 600 data bytes after the signature: 254 + 254 + 92.
    let mut lines = String::new();
    lines.push_str(":04100000");
    lines.push_str("4A474F4B");
    let sum: u32 = 0x04 + 0x10 + 0x4A + 0x47 + 0x4F + 0x4B;
    lines.push_str(&format!("{:02X}\n", (256 - sum % 256) % 256));
    let mut expected = Vec::new();
    for block in 0..30u32 {
        let addr = 0x1004 + block * 20;
        let data: Vec<u8> = (0..20).map(|i| ((block * 20 + i) % 251) as u8).collect();
        expected.extend_from_slice(&data);
        let mut rec = vec![20u8, (addr >> 8) as u8, addr as u8, 0];
        rec.extend_from_slice(&data);
        let s: u32 = rec.iter().map(|&b| b as u32).sum();
        rec.push(((256 - s % 256) % 256) as u8);
        lines.push(':');
        for b in rec {
            lines.push_str(&format!("{:02X}", b));
        }
        lines.push('\n');
    }
    let mut img = ShdlcFirmwareImage::new(&lines, 0, 0x1000, None, Some(0)).unwrap();
    assert_eq!(img.size(), 600);
    let mut sent = Vec::new();
    let mut sizes = Vec::new();
    while let Some(cmd) = next_update_block(&mut img) {
        sizes.push(cmd.payload.len());
        let data = cmd.data();
        assert_eq!(data[0], 0x02);
        sent.extend_from_slice(&cmd.payload);
    }
    assert_eq!(sizes, vec![FIRMWARE_BLOCK_SIZE, FIRMWARE_BLOCK_SIZE, 92]);
    assert_eq!(sent, expected);
    assert!(next_update_block(&mut img).is_none());
}

#[test]
fn test_product_type_parsing() {
    assert_eq!(parse_product_type("00140000"), Some(0x0014_0000));
    assert_eq!(parse_product_type("+ff"), Some(0xFF));
    assert_eq!(parse_product_type("FFFFFFFF"), Some(u32::MAX));
    assert_eq!(parse_product_type("100000000"), None);
    assert_eq!(parse_product_type(""), None);
    assert_eq!(parse_product_type("+"), None);
    assert_eq!(parse_product_type("12 4"), None);
    assert_eq!(parse_product_type("0000000000000001"), Some(1));
}

#[test]
fn test_compatibility_check() {
    let img = small_image();
    assert!(check_compatibility("00140000", &img).is_ok());
    assert_eq!(
        check_compatibility("00060000", &img),
        Err(ShdlcError::FirmwareImageIncompatibilityError { expected: 0x0014_0000, actual: 0x0006_0000 })
    );
    assert_eq!(
        check_compatibility("SHT", &img),
        Err(ShdlcError::Other("Failed to parse product type hex: SHT".to_string()))
    );
}

#[test]
fn test_from_hex_str_is_new_then_load() {
    for text in [SMALL_IMAGE, ":020200000001FB\n:020200000001FC\n", "", ":050000000100"] {
        let parsed = IntelHexParser::from_hex_str(text);
        let mut loaded = IntelHexParser::new();
        let load_result = loaded.load_hex_str(text);
        match (parsed, load_result) {
            (Ok(p), Ok(())) => {
                assert_eq!(p.min_addr(), loaded.min_addr());
                assert_eq!(p.max_addr(), loaded.max_addr());
                assert_eq!(p.read_bytes(0x01F0, 0x20), loaded.read_bytes(0x01F0, 0x20));
                assert_eq!(p.read_bytes(0x1000, 12), loaded.read_bytes(0x1000, 12));
            }
            (Err(a), Err(b)) => assert_eq!(a.to_string(), b.to_string()),
            _ => panic!("from_hex_str and load_hex_str disagree on {:?}", text),
        }
    }
}

#[test]
fn test_image_reads_parser() {
    let parser = IntelHexParser::from_hex_str(SMALL_IMAGE).unwrap();
    let mut img = small_image();
    assert_eq!(parser.read_bytes(0x1000, 4), vec![0x4A, 0x47, 0x4F, 0x4B]);
    assert_eq!(img.product_type(), parser.read_u32_le(0x1004));
    let bl = parser.read_bytes(0x0200, 2);
    assert_eq!(img.bootloader_version().major, bl[1]);
    assert_eq!(img.bootloader_version().minor, bl[0]);
    let app = parser.read_bytes(0x1008, 2);
    assert_eq!(img.application_version().major, app[1]);
    assert_eq!(img.application_version().minor, app[0]);
    let data = parser.read_range(0x1004, parser.max_addr());
    assert_eq!(img.size(), data.len());
    assert_eq!(img.available_bytes(), data.len());
    assert_eq!(img.checksum(), shdlc_driver::protocol::calculate_checksum(&data));
    assert_eq!(img.read(None), data);
}

#[test]
fn test_available_bytes_count_reads() {
    let mut img = small_image();
    let size = img.size();
    let mut read_since_reset = 0;
    for step in [Some(3), Some(0), None, Some(2), Some(100)] {
        read_since_reset += img.read(step).len();
        assert!(img.available_bytes() <= size);
        assert_eq!(img.available_bytes(), size - read_since_reset);
    }
    img.reset_cursor();
    assert_eq!(img.available_bytes(), size);
    read_since_reset = img.read(Some(5)).len();
    assert_eq!(img.available_bytes(), size - read_since_reset);
}

#[test]
fn test_firmware_image_can_load() {
    assert!(ShdlcFirmwareImage::can_load(SMALL_IMAGE, 0x0000, 0x1000, None, Some(0x200)));
    // A text that does not parse is rejected by `new` with an error.
    assert!(ShdlcFirmwareImage::can_load("garbage", 0, 0x1000, None, None));
    // A signature that does not match ends loading before any further read.
    assert!(ShdlcFirmwareImage::can_load(SMALL_IMAGE, 0x0000, 0xFFFF_FFF0, None, None));
    // The signature would be read past the end of the address space.
    assert!(!ShdlcFirmwareImage::can_load(SMALL_IMAGE, 0x0000, 0xFFFF_FFFE, None, None));
    // The bootloader version would be read past the end of the address space.
    assert!(!ShdlcFirmwareImage::can_load(SMALL_IMAGE, 0xFFFF_FFFF, 0x1000, None, Some(0)));
}
