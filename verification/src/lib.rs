//! Zero-copy parsing, validation, iteration and in-place rewriting of DNS
//! wire-format messages (RFC 1035 with EDNS0/RFC 6891 extensions).
//!
//! A raw packet is wrapped in a [`DNSSector`], whose `parse` method runs a
//! single validation pass over the buffer and, on success, yields a
//! [`ParsedPacket`]: the original bytes plus the section offsets computed
//! during validation.  Section iterators walk the records lazily from those
//! offsets, and the [`Renamer`] substitutes equal-shape raw names in place.

pub mod constants;
pub mod dns_sector;
pub mod edns_iterator;
pub mod errors;
pub mod name;
pub mod parsed_packet;
pub mod question_iterator;
pub mod renamer;
pub mod response_iterator;
pub mod wire;

pub use constants::DNS_FLAG_AA;
pub use constants::DNS_FLAG_AD;
pub use constants::DNS_FLAG_CD;
pub use constants::DNS_FLAG_DO;
pub use constants::DNS_FLAG_QR;
pub use constants::DNS_FLAG_RA;
pub use constants::DNS_FLAG_RD;
pub use constants::DNS_FLAG_TC;
pub use constants::Section;
pub use dns_sector::DNSSector;
pub use edns_iterator::EdnsIterator;
pub use errors::DSError;
pub use errors::ErrorKind;
pub use errors::RenameError;
pub use parsed_packet::ParsedPacket;
pub use question_iterator::QuestionIterator;
pub use renamer::Renamer;
pub use response_iterator::ResponseIterator;
