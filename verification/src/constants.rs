//! Wire-format constants: header layout, flag masks and record type codes.

use vstd::prelude::*;

verus! {

/// Size of the fixed DNS header that every packet must carry.
pub const DNS_HEADER_SIZE: usize = 12;

/// Byte offset of the 16-bit flags field inside the header.
pub const DNS_FLAGS_OFFSET: usize = 2;

/// Largest total encoded length of a domain name, label length bytes
/// included, terminator excluded.
pub const DNS_MAX_HOSTNAME_LEN: usize = 255;

/// Largest length of a single label.
pub const DNS_MAX_LABEL_LEN: usize = 63;

/// QR bit of the combined flags value.
pub const DNS_FLAG_QR: u32 = 0x8000;
/// AA bit of the combined flags value.
pub const DNS_FLAG_AA: u32 = 0x0400;
/// TC bit of the combined flags value.
pub const DNS_FLAG_TC: u32 = 0x0200;
/// RD bit of the combined flags value.
pub const DNS_FLAG_RD: u32 = 0x0100;
/// RA bit of the combined flags value.
pub const DNS_FLAG_RA: u32 = 0x0080;
/// AD bit of the combined flags value.
pub const DNS_FLAG_AD: u32 = 0x0020;
/// CD bit of the combined flags value.
pub const DNS_FLAG_CD: u32 = 0x0010;
/// DNSSEC OK bit, carried in the OPT record's extended flags and exposed in
/// the high half of the combined flags value.
pub const DNS_FLAG_DO: u32 = 0x8000_0000;

/// Record type code of an A record (IPv4 address, 4 bytes of RDATA).
pub const DNS_TYPE_A: u16 = 1;
/// Record type code of an AAAA record (IPv6 address, 16 bytes of RDATA).
pub const DNS_TYPE_AAAA: u16 = 28;
/// Record type code of the OPT pseudo-record that carries EDNS0 data.
pub const DNS_TYPE_OPT: u16 = 41;

/// The five sections a record or pseudo-record can belong to.
#[derive(Clone, Copy, Debug, PartialEq, Eq, Structural)]
pub enum Section {
    Question,
    Answer,
    NameServers,
    Additional,
    Edns,
}

} // verus!
