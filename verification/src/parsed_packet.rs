//! The zero-copy parsed representation: the raw buffer together with the
//! section offsets the validator computed, and the accessors and mutators
//! that work directly at the fixed header offsets.

use vstd::prelude::*;
use crate::errors::DSError;
use crate::name::check_compressed_name;
use crate::name::name_check;
use crate::name::opt_int;
use crate::name::resolve_name;
use crate::wire::be16;
use crate::wire::be16_put;
use crate::wire::be32;
use crate::wire::lemma_be16_put_get;
use crate::wire::read_be16;
use crate::wire::read_be32;
use crate::wire::write_be16;

verus! {

/// The mathematical content of a parsed packet: the bytes and the offsets
/// and counts the single validation pass established.
#[verifier::ext_equal]
pub ghost struct PacketModel {
    /// The packet bytes.
    pub bytes: Seq<u8>,
    /// Offset of the question record, when the header declares one.
    pub question: Option<int>,
    /// Start offset of the answer section.
    pub answers: int,
    /// Start offset of the name servers section.
    pub nameservers: int,
    /// Start offset of the additional section.
    pub additional: int,
    /// Offset of the OPT record's fixed fields (right after its name), when
    /// the additional section carries one.
    pub opt: Option<int>,
    /// Declared answer record count.
    pub an: int,
    /// Declared name server record count.
    pub ns: int,
    /// Declared additional record count.
    pub ar: int,
}

/// The bounds every accessor and mutator relies on: the header is present,
/// the section offsets sit inside the buffer in order, and the OPT record's
/// fixed fields fit.  Byte-level mutation preserves this, a full reparse is
/// not needed.
pub open spec fn wf_weak(m: PacketModel) -> bool {
    &&& m.bytes.len() >= 12
    &&& 12 <= m.answers <= m.nameservers <= m.additional <= m.bytes.len()
    &&& (m.question matches Some(q) ==> q == 12)
    &&& (m.opt matches Some(o) ==> 12 <= o && o + 10 <= m.bytes.len())
    &&& 0 <= m.an < 0x10000
    &&& 0 <= m.ns < 0x10000
    &&& 0 <= m.ar < 0x10000
}

/// The combined flags value: the 16-bit header flags in the low half and,
/// when an OPT record is present, its extended flags in the high half.
pub open spec fn spec_flags(m: PacketModel) -> int {
    be16(m.bytes, 2) + (match m.opt {
        Some(o) => be16(m.bytes, o + 6) * 0x10000,
        None => 0,
    })
}

/// The bytes after writing the combined flags value `v`: the low half over
/// the header flags field and, with an OPT record, the high half over its
/// extended flags.
pub open spec fn spec_set_flags(m: PacketModel, v: int) -> Seq<u8> {
    let b1 = be16_put(m.bytes, 2, v % 0x10000);
    match m.opt {
        Some(o) => be16_put(b1, o + 6, v / 0x10000),
        None => b1,
    }
}

/// The 4-bit response code held in the low bits of header byte 3.
pub open spec fn spec_rcode(m: PacketModel) -> int {
    m.bytes[3] as int % 16
}

/// The 4-bit opcode held in bits 3 to 6 of header byte 2.
pub open spec fn spec_opcode(m: PacketModel) -> int {
    (m.bytes[2] as int / 8) % 16
}

/// Header byte 2 with the opcode bits replaced by `v`'s low four bits.
pub open spec fn opcode_byte(b: int, v: int) -> int {
    (b / 128) * 128 + (v % 16) * 8 + b % 8
}

/// Header byte 3 with the rcode bits replaced by `v`'s low four bits.
pub open spec fn rcode_byte(b: int, v: int) -> int {
    b - b % 16 + v % 16
}

/// A successfully validated packet: the buffer plus the offsets recorded by
/// the single validation pass.
pub struct ParsedPacket {
    packet: Vec<u8>,
    offset_question: Option<usize>,
    offset_answers: usize,
    offset_nameservers: usize,
    offset_additional: usize,
    offset_edns: Option<usize>,
    ancount: u16,
    nscount: u16,
    arcount: u16,
}

impl View for ParsedPacket {
    type V = PacketModel;

    closed spec fn view(&self) -> PacketModel {
        PacketModel {
            bytes: self.packet@,
            question: opt_int(self.offset_question),
            answers: self.offset_answers as int,
            nameservers: self.offset_nameservers as int,
            additional: self.offset_additional as int,
            opt: opt_int(self.offset_edns),
            an: self.ancount as int,
            ns: self.nscount as int,
            ar: self.arcount as int,
        }
    }
}

impl ParsedPacket {
    /// Full validity: this packet is exactly what the validation pass
    /// computes from its own bytes.  `parse` establishes it; the byte-level
    /// mutators keep the weaker [`wf_weak`], which is all the accessors
    /// need.
    pub open spec fn wf(self) -> bool {
        crate::dns_sector::spec_parse(self@.bytes) == Ok::<PacketModel, crate::errors::ErrorKind>(
            self@)
    }

    /// Packs the validator's results into the parsed representation.
    pub(crate) fn assemble(
        packet: Vec<u8>,
        offset_question: Option<usize>,
        offset_answers: usize,
        offset_nameservers: usize,
        offset_additional: usize,
        offset_edns: Option<usize>,
        ancount: u16,
        nscount: u16,
        arcount: u16,
    ) -> (r: ParsedPacket)
        ensures
            r@ == (PacketModel {
                bytes: packet@,
                question: opt_int(offset_question),
                answers: offset_answers as int,
                nameservers: offset_nameservers as int,
                additional: offset_additional as int,
                opt: opt_int(offset_edns),
                an: ancount as int,
                ns: nscount as int,
                ar: arcount as int,
            }),
    {
        ParsedPacket {
            packet,
            offset_question,
            offset_answers,
            offset_nameservers,
            offset_additional,
            offset_edns,
            ancount,
            nscount,
            arcount,
        }
    }

    /// Gives the buffer back to the caller, ending this packet's lifetime.
    pub fn into_packet(self) -> (r: Vec<u8>)
        ensures
            r@ == self@.bytes,
    {
        self.packet
    }

    /// A copy of the packet bytes.
    pub fn packet_copy(&self) -> (r: Vec<u8>)
        ensures
            r@ == self@.bytes,
    {
        let n: usize = self.packet.len();
        let mut out: Vec<u8> = Vec::new();
        let mut i: usize = 0;
        while i < n
            invariant
                n == self.packet@.len(),
                i <= n,
                out@ == self.packet@.subrange(0, i as int),
            decreases n - i,
        {
            out.push(self.packet[i]);
            proof {
                assert(out@ =~= self.packet@.subrange(0, i + 1));
            }
            i = i + 1;
        }
        proof {
            assert(out@ =~= self@.bytes);
        }
        out
    }

    /// The packet length in bytes.
    pub fn packet_len(&self) -> (r: usize)
        ensures
            r == self@.bytes.len(),
    {
        self.packet.len()
    }

    /// The byte at `i`.
    pub fn byte_at(&self, i: usize) -> (r: u8)
        requires
            i < self@.bytes.len(),
        ensures
            r == self@.bytes[i as int],
    {
        self.packet[i]
    }

    /// The 16-bit big-endian value at `i`.
    pub fn u16_at(&self, i: usize) -> (r: u16)
        requires
            i + 2 <= self@.bytes.len(),
        ensures
            r as int == be16(self@.bytes, i as int),
    {
        read_be16(&self.packet, i)
    }

    /// The 32-bit big-endian value at `i`.
    pub fn u32_at(&self, i: usize) -> (r: u32)
        requires
            i + 4 <= self@.bytes.len(),
        ensures
            r as int == be32(self@.bytes, i as int),
    {
        read_be32(&self.packet, i)
    }

    /// Offset of the question record, when one is present.
    pub fn offset_question(&self) -> (r: Option<usize>)
        ensures
            opt_int(r) == self@.question,
    {
        self.offset_question
    }

    /// Start offset of the answer section.
    pub fn offset_answers(&self) -> (r: usize)
        ensures
            r as int == self@.answers,
    {
        self.offset_answers
    }

    /// Start offset of the name servers section.
    pub fn offset_nameservers(&self) -> (r: usize)
        ensures
            r as int == self@.nameservers,
    {
        self.offset_nameservers
    }

    /// Start offset of the additional section.
    pub fn offset_additional(&self) -> (r: usize)
        ensures
            r as int == self@.additional,
    {
        self.offset_additional
    }

    /// Offset of the OPT record's fixed fields, when one is present.
    pub fn offset_edns(&self) -> (r: Option<usize>)
        ensures
            opt_int(r) == self@.opt,
    {
        self.offset_edns
    }

    /// Declared answer record count.
    pub fn ancount(&self) -> (r: u16)
        ensures
            r as int == self@.an,
    {
        self.ancount
    }

    /// Declared name server record count.
    pub fn nscount(&self) -> (r: u16)
        ensures
            r as int == self@.ns,
    {
        self.nscount
    }

    /// Declared additional record count.
    pub fn arcount(&self) -> (r: u16)
        ensures
            r as int == self@.ar,
    {
        self.arcount
    }

    /// Walks over the name encoded at `offset` and returns the offset right
    /// after it.
    pub fn skip_name_at(&self, offset: usize) -> (r: Result<usize, DSError>)
        ensures
            match name_check(self@.bytes, offset as int) {
                Ok(p) => r matches Ok(a) && a as int == p.0,
                Err(k) => r matches Err(e) && e.kind() == k,
            },
    {
        check_compressed_name(&self.packet, offset)
    }

    /// Decodes the name at `offset` into its canonical uncompressed form and
    /// returns it with the offset right after its encoding.
    pub fn name_at(&self, offset: usize) -> (r: Result<(Vec<u8>, usize), DSError>)
        ensures
            match name_check(self@.bytes, offset as int) {
                Ok(p) => r matches Ok(v) && v.0@ == p.1 && v.1 as int == p.0,
                Err(k) => r matches Err(e) && e.kind() == k,
            },
    {
        resolve_name(&self.packet, offset)
    }

    /// Decodes the question record at `offset`: fixed-field offset and next
    /// record offset.
    pub fn question_step_at(&self, offset: usize) -> (r: Result<(usize, usize), DSError>)
        ensures
            match crate::dns_sector::question_step(self@.bytes, offset as int) {
                Ok(p) => r matches Ok(v) && v.0 as int == p.0 && v.1 as int == p.1,
                Err(k) => r matches Err(e) && e.kind() == k,
            },
            r matches Ok(v) ==> offset < v.0 && v.0 + 4 == v.1 && v.1 <= self@.bytes.len(),
    {
        crate::dns_sector::question_step_exec(&self.packet, offset)
    }

    /// Decodes the resource record at `offset`: fixed-field offset and next
    /// record offset.
    pub fn rr_step_at(&self, offset: usize) -> (r: Result<(usize, usize), DSError>)
        ensures
            match crate::dns_sector::rr_step(self@.bytes, offset as int) {
                Ok(p) => r matches Ok(v) && v.0 as int == p.0 && v.1 as int == p.1,
                Err(k) => r matches Err(e) && e.kind() == k,
            },
            r matches Ok(v) ==> offset < v.0 && v.0 + 10 <= v.1 && v.1 <= self@.bytes.len(),
    {
        crate::dns_sector::rr_step_exec(&self.packet, offset)
    }

    /// The combined flags value: header flags in the low half, the OPT
    /// record's extended flags (DNSSEC OK bit included) in the high half.
    pub fn flags(&self) -> (r: u32)
        requires
            wf_weak(self@),
        ensures
            r as int == spec_flags(self@),
    {
        let _n: usize = self.packet.len();
        let lo: u32 = read_be16(&self.packet, 2) as u32;
        match self.offset_edns {
            Some(o) => lo + (read_be16(&self.packet, o + 6) as u32) * 0x10000,
            None => lo,
        }
    }

    /// Writes the combined flags value.  Without an OPT record only the low
    /// 16 bits are representable and the high half is dropped; with one,
    /// reading the flags back returns exactly `v`.
    pub fn set_flags(&mut self, v: u32)
        requires
            wf_weak(old(self)@),
        ensures
            final(self)@ == (PacketModel { bytes: spec_set_flags(old(self)@, v as int), ..old(self)@ }),
            wf_weak(final(self)@),
            spec_flags(final(self)@) == if old(self)@.opt is Some { v as int } else { v as int % 0x10000 },
    {
        let _n: usize = self.packet.len();
        let lo: u16 = (v % 0x10000) as u16;
        write_be16(&mut self.packet, 2, lo);
        match self.offset_edns {
            Some(o) => {
                let hi: u16 = (v / 0x10000) as u16;
                write_be16(&mut self.packet, o + 6, hi);
                proof {
                    lemma_be16_put_get(old(self)@.bytes, 2, v as int % 0x10000);
                    lemma_be16_put_get(be16_put(old(self)@.bytes, 2, v as int % 0x10000),
                        o as int + 6, v as int / 0x10000);
                    assert(v as int == 0x10000 * (v as int / 0x10000) + v as int % 0x10000)
                        by (nonlinear_arith);
                }
            },
            None => {
                proof {
                    lemma_be16_put_get(old(self)@.bytes, 2, v as int % 0x10000);
                }
            },
        }
    }

    /// The 4-bit response code from the header.  The OPT record's extended
    /// rcode byte is not folded in; the EDNS iterator exposes that byte.
    pub fn rcode(&self) -> (r: u8)
        requires
            wf_weak(self@),
        ensures
            r as int == spec_rcode(self@),
    {
        let _n: usize = self.packet.len();
        self.packet[3] % 16
    }

    /// Replaces the header's 4-bit response code with `v`'s low four bits,
    /// touching nothing else.
    pub fn set_rcode(&mut self, v: u8)
        requires
            wf_weak(old(self)@),
        ensures
            final(self)@ == (PacketModel {
                bytes: old(self)@.bytes.update(3, rcode_byte(old(self)@.bytes[3] as int, v as int) as u8),
                ..old(self)@
            }),
            wf_weak(final(self)@),
            spec_rcode(final(self)@) == v as int % 16,
    {
        let _n: usize = self.packet.len();
        let b = self.packet[3];
        let nb: u8 = b - b % 16 + v % 16;
        self.packet.set(3, nb);
        proof {
            let bi = b as int;
            let vi = v as int;
            assert((bi - bi % 16 + vi % 16) % 16 == vi % 16) by (nonlinear_arith);
        }
    }

    /// The 4-bit opcode from the header.
    pub fn opcode(&self) -> (r: u8)
        requires
            wf_weak(self@),
        ensures
            r as int == spec_opcode(self@),
    {
        let _n: usize = self.packet.len();
        (self.packet[2] / 8) % 16
    }

    /// Replaces the header's 4-bit opcode with `v`'s low four bits, touching
    /// nothing else.
    pub fn set_opcode(&mut self, v: u8)
        requires
            wf_weak(old(self)@),
        ensures
            final(self)@ == (PacketModel {
                bytes: old(self)@.bytes.update(2, opcode_byte(old(self)@.bytes[2] as int, v as int) as u8),
                ..old(self)@
            }),
            wf_weak(final(self)@),
            spec_opcode(final(self)@) == v as int % 16,
    {
        let _n: usize = self.packet.len();
        let b = self.packet[2];
        proof {
            let bi = b as int;
            let vi = v as int;
            assert(0 <= (bi / 128) * 128 + (vi % 16) * 8 + bi % 8 < 256) by (nonlinear_arith)
                requires 0 <= bi < 256 && 0 <= vi < 256;
            assert((((bi / 128) * 128 + (vi % 16) * 8 + bi % 8) / 8) % 16 == vi % 16)
                by (nonlinear_arith)
                requires 0 <= bi < 256 && 0 <= vi < 256;
        }
        let nb: u8 = (b / 128) * 128 + (v % 16) * 8 + b % 8;
        self.packet.set(2, nb);
    }
}

} // verus!
