pub mod hex_parser;
pub mod image;
pub mod update;

pub use hex_parser::IntelHexParser;
pub use image::ShdlcFirmwareImage;
pub use update::{BOOTLOADER_BITRATE, BOOTLOADER_SLAVE_ADDRESS};
