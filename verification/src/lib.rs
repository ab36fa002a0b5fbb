//! Assembly of raw disk images that carry a protective MBR and a GUID
//! Partition Table, together with the bounded partition access that
//! filesystem formatters work through.

pub mod bytes;
pub mod crc;
pub mod err;
pub mod guid;
pub mod file;
pub mod utf16;
pub mod mbr;
pub mod gpt;
pub mod header;
pub mod entry;
pub mod partition;
pub mod image;
pub mod fat;
pub mod elf;
pub mod cmd;
pub mod parse;
