//! Lazy view of the question section's single record.

use vstd::prelude::*;
use crate::dns_sector::question_step;
use crate::name::name_check;
use crate::parsed_packet::ParsedPacket;
use crate::parsed_packet::wf_weak;
use crate::wire::be16;

verus! {

/// The (zero or one) question record, decoded lazily over the parsed
/// packet it borrows.
pub struct QuestionIterator<'a> {
    /// The packet being traversed.  The shared borrow keeps every mutation
    /// of the packet out for the iterator's lifetime.
    pub pp: &'a ParsedPacket,
    /// Offset of the question record's name.
    pub offset: usize,
    /// Offset of the record's fixed fields, right after the name.
    pub after: usize,
}

impl<'a> QuestionIterator<'a> {
    /// What a live question item guarantees: the validator placed a
    /// question here and its record decodes, fixed fields at `after`.
    pub open spec fn inv(self) -> bool {
        &&& self.pp@.question == Some(self.offset as int)
        &&& question_step(self.pp@.bytes, self.offset as int) matches Ok(p) && p.0 == self.after as int
    }

    /// The question's 16-bit record type.
    pub fn rr_type(&self) -> (r: u16)
        requires
            self.inv(),
        ensures
            r as int == be16(self.pp@.bytes, self.after as int),
    {
        self.pp.u16_at(self.after)
    }

    /// The question's 16-bit record class.
    pub fn rr_class(&self) -> (r: u16)
        requires
            self.inv(),
        ensures
            r as int == be16(self.pp@.bytes, self.after as int + 2),
    {
        let _n: usize = self.pp.packet_len();
        self.pp.u16_at(self.after + 2)
    }

    /// The question's name in canonical uncompressed form.
    pub fn name(&self) -> (r: Vec<u8>)
        requires
            self.inv(),
        ensures
            name_check(self.pp@.bytes, self.offset as int) matches Ok(p) && r@ == p.1,
    {
        match self.pp.name_at(self.offset) {
            Ok(v) => v.0,
            Err(_) => {
                proof {
                    assert(false);
                }
                Vec::new()
            },
        }
    }

    /// The question section holds at most one record, so there is never a
    /// next item.
    pub fn next(self) -> (r: Option<QuestionIterator<'a>>)
        ensures
            r is None,
    {
        None
    }
}

impl ParsedPacket {
    /// The question section as a lazy item, when the header declares one.
    pub fn into_iter_question<'a>(&'a self) -> (r: Option<QuestionIterator<'a>>)
        requires
            wf_weak(self@),
        ensures
            (r is Some) <==> (self@.question is Some
                && question_step(self@.bytes, 12) is Ok),
            self@.question matches Some(q) ==> (question_step(self@.bytes, q) matches Ok(p) ==> (
                r matches Some(it) && it.inv() && it.pp@ == self@)),
    {
        match self.offset_question() {
            None => None,
            Some(q) => match self.question_step_at(q) {
                Err(_) => None,
                Ok(v) => Some(QuestionIterator { pp: self, offset: q, after: v.0 }),
            },
        }
    }
}

} // verus!
