//! The generic lazy record iterator shared by the answer, name servers and
//! additional sections.

use vstd::prelude::*;
use crate::constants::Section;
use crate::dns_sector::rr_step;
use crate::name::name_check;
use crate::parsed_packet::ParsedPacket;
use crate::parsed_packet::wf_weak;
use crate::wire::be16;
use crate::wire::be32;

verus! {

/// One resource record of a response section, decoded lazily over the
/// parsed packet it borrows.
pub struct ResponseIterator<'a> {
    /// The packet being traversed.  The shared borrow keeps every mutation
    /// of the packet out for the iterator's lifetime.
    pub pp: &'a ParsedPacket,
    /// Which section this record belongs to.
    pub section: Section,
    /// Offset of the record's name.
    pub offset: usize,
    /// Offset of the record's fixed fields, right after the name.
    pub after: usize,
    /// Offset of the next record.
    pub next_offset: usize,
    /// How many declared records of the section follow this one.
    pub remaining: u16,
}

impl<'a> ResponseIterator<'a> {
    /// What a live item guarantees: the record at `offset` decodes, fixed
    /// fields at `after`, and ends at `next_offset`.
    pub open spec fn inv(self) -> bool {
        rr_step(self.pp@.bytes, self.offset as int)
            matches Ok(p) && p.0 == self.after as int && p.1 == self.next_offset as int
    }

    /// The record's 16-bit type, read without re-decoding the record.
    pub fn rr_type(&self) -> (r: u16)
        requires
            self.inv(),
        ensures
            r as int == be16(self.pp@.bytes, self.after as int),
    {
        self.pp.u16_at(self.after)
    }

    /// The record's 16-bit class.
    pub fn rr_class(&self) -> (r: u16)
        requires
            self.inv(),
        ensures
            r as int == be16(self.pp@.bytes, self.after as int + 2),
    {
        let _n: usize = self.pp.packet_len();
        self.pp.u16_at(self.after + 2)
    }

    /// The record's 32-bit time to live.
    pub fn rr_ttl(&self) -> (r: u32)
        requires
            self.inv(),
        ensures
            r as int == be32(self.pp@.bytes, self.after as int + 4),
    {
        let _n: usize = self.pp.packet_len();
        self.pp.u32_at(self.after + 4)
    }

    /// The declared length of the record's RDATA.
    pub fn rr_rdlen(&self) -> (r: u16)
        requires
            self.inv(),
        ensures
            r as int == be16(self.pp@.bytes, self.after as int + 8),
            self.after + 10 + r as int == self.next_offset as int,
    {
        let _n: usize = self.pp.packet_len();
        self.pp.u16_at(self.after + 8)
    }

    /// Offset of the record's RDATA inside the packet.  The RDATA spans
    /// from here to `rdata_offset() + rr_rdlen()`, which the validator
    /// proved to lie inside the buffer.
    pub fn rdata_offset(&self) -> (r: usize)
        requires
            self.inv(),
        ensures
            r as int == self.after as int + 10,
            r <= self.pp@.bytes.len(),
    {
        let _n: usize = self.pp.packet_len();
        self.after + 10
    }

    /// The record's name in canonical uncompressed form.
    pub fn name(&self) -> (r: Vec<u8>)
        requires
            self.inv(),
        ensures
            name_check(self.pp@.bytes, self.offset as int) matches Ok(p) && r@ == p.1,
    {
        match self.pp.name_at(self.offset) {
            Ok(v) => v.0,
            Err(_) => {
                proof {
                    assert(false);
                }
                Vec::new()
            },
        }
    }

    /// Advances to the section's next record: its item, or `None` once the
    /// declared count is exhausted.
    pub fn next(self) -> (r: Option<ResponseIterator<'a>>)
        requires
            self.inv(),
        ensures
            (r is Some) <==> (self.remaining > 0
                && rr_step(self.pp@.bytes, self.next_offset as int) is Ok),
            self.remaining > 0 ==> (rr_step(self.pp@.bytes, self.next_offset as int)
                matches Ok(p) ==> (r matches Some(it) && it.inv()
                    && it.pp@ == self.pp@
                    && it.offset == self.next_offset
                    && it.section == self.section
                    && it.remaining as int == self.remaining - 1)),
    {
        if self.remaining == 0 {
            return None;
        }
        match self.pp.rr_step_at(self.next_offset) {
            Err(_) => None,
            Ok(v) => Some(ResponseIterator {
                pp: self.pp,
                section: self.section,
                offset: self.next_offset,
                after: v.0,
                next_offset: v.1,
                remaining: self.remaining - 1,
            }),
        }
    }
}

impl ParsedPacket {
    /// The first answer record as a lazy item, when the section is not
    /// empty.
    pub fn into_iter_answer<'a>(&'a self) -> (r: Option<ResponseIterator<'a>>)
        requires
            wf_weak(self@),
        ensures
            (r is Some) <==> (self@.an > 0 && rr_step(self@.bytes, self@.answers) is Ok),
            self@.an > 0 ==> (rr_step(self@.bytes, self@.answers) matches Ok(p) ==> (
                r matches Some(it) && it.inv() && it.pp@ == self@
                    && it.offset as int == self@.answers
                    && it.section == Section::Answer
                    && it.remaining as int == self@.an - 1)),
    {
        let count = self.ancount();
        let start = self.offset_answers();
        if count == 0 {
            return None;
        }
        match self.rr_step_at(start) {
            Err(_) => None,
            Ok(v) => Some(ResponseIterator {
                pp: self,
                section: Section::Answer,
                offset: start,
                after: v.0,
                next_offset: v.1,
                remaining: count - 1,
            }),
        }
    }

    /// The first name server record as a lazy item, when the section is
    /// not empty.
    pub fn into_iter_nameservers<'a>(&'a self) -> (r: Option<ResponseIterator<'a>>)
        requires
            wf_weak(self@),
        ensures
            (r is Some) <==> (self@.ns > 0 && rr_step(self@.bytes, self@.nameservers) is Ok),
            self@.ns > 0 ==> (rr_step(self@.bytes, self@.nameservers) matches Ok(p) ==> (
                r matches Some(it) && it.inv() && it.pp@ == self@
                    && it.offset as int == self@.nameservers
                    && it.section == Section::NameServers
                    && it.remaining as int == self@.ns - 1)),
    {
        let count = self.nscount();
        let start = self.offset_nameservers();
        if count == 0 {
            return None;
        }
        match self.rr_step_at(start) {
            Err(_) => None,
            Ok(v) => Some(ResponseIterator {
                pp: self,
                section: Section::NameServers,
                offset: start,
                after: v.0,
                next_offset: v.1,
                remaining: count - 1,
            }),
        }
    }

    /// The first additional record as a lazy item, when the section is not
    /// empty.
    pub fn into_iter_additional<'a>(&'a self) -> (r: Option<ResponseIterator<'a>>)
        requires
            wf_weak(self@),
        ensures
            (r is Some) <==> (self@.ar > 0 && rr_step(self@.bytes, self@.additional) is Ok),
            self@.ar > 0 ==> (rr_step(self@.bytes, self@.additional) matches Ok(p) ==> (
                r matches Some(it) && it.inv() && it.pp@ == self@
                    && it.offset as int == self@.additional
                    && it.section == Section::Additional
                    && it.remaining as int == self@.ar - 1)),
    {
        let count = self.arcount();
        let start = self.offset_additional();
        if count == 0 {
            return None;
        }
        match self.rr_step_at(start) {
            Err(_) => None,
            Ok(v) => Some(ResponseIterator {
                pp: self,
                section: Section::Additional,
                offset: start,
                after: v.0,
                next_offset: v.1,
                remaining: count - 1,
            }),
        }
    }
}

} // verus!
