//! The header/section validator: a single forward pass that checks the
//! 12-byte header, the declared counts, and every record of every section,
//! recording the section start offsets as it goes.
//!
//! [`spec_parse`] is the mathematical definition of the pass; `parse` is the
//! executable validator, proved to return exactly what the definition says:
//! the model of the packet on success, and the kind the definition picks on
//! every rejected input.

use vstd::prelude::*;
use crate::constants::DNS_HEADER_SIZE;
use crate::constants::DNS_TYPE_A;
use crate::constants::DNS_TYPE_AAAA;
use crate::constants::DNS_TYPE_OPT;
use crate::errors::DSError;
use crate::errors::ErrorKind;
use crate::name::check_compressed_name;
use crate::name::lemma_name_check_bounds;
use crate::name::name_check;
use crate::name::opt_int;
use crate::parsed_packet::PacketModel;
use crate::parsed_packet::ParsedPacket;
use crate::parsed_packet::wf_weak;
use crate::wire::be16;
use crate::wire::read_be16;

verus! {

/// One question record decoded at `offset`: its name followed by the
/// four bytes of type and class.  Returns the offset of the fixed fields
/// and the offset of the next record.
pub open spec fn question_step(pkt: Seq<u8>, offset: int) -> Result<(int, int), ErrorKind> {
    match name_check(pkt, offset) {
        Err(k) => Err(k),
        Ok(p) => {
            let after = p.0;
            if after + 4 > pkt.len() {
                Err(ErrorKind::PacketTooSmall)
            } else {
                Ok((after, after + 4))
            }
        },
    }
}

/// One resource record decoded at `offset`: its name, the ten bytes of
/// type, class, TTL and RDLENGTH, and the RDATA it declares.  An address
/// record whose RDLENGTH contradicts the fixed address size of its type is
/// structurally invalid.  Returns the offset of the fixed fields and the
/// offset of the next record.
pub open spec fn rr_step(pkt: Seq<u8>, offset: int) -> Result<(int, int), ErrorKind> {
    match name_check(pkt, offset) {
        Err(k) => Err(k),
        Ok(p) => {
            let after = p.0;
            if after + 10 > pkt.len() {
                Err(ErrorKind::PacketTooSmall)
            } else {
                let t = be16(pkt, after);
                let rdlen = be16(pkt, after + 8);
                if t == DNS_TYPE_A as int && rdlen != 4 {
                    Err(ErrorKind::InvalidPacket)
                } else if t == DNS_TYPE_AAAA as int && rdlen != 16 {
                    Err(ErrorKind::InvalidPacket)
                } else if after + 10 + rdlen > pkt.len() {
                    Err(ErrorKind::PacketTooSmall)
                } else {
                    Ok((after, after + 10 + rdlen))
                }
            }
        },
    }
}

/// `count` resource records walked from `offset`.  In the additional
/// section (`track_opt`) the walk records the one OPT pseudo-record and
/// rejects a second one.  Returns the offset right after the section and
/// the OPT record's fixed-field offset, if one was seen.
pub open spec fn rrs_scan(
    pkt: Seq<u8>,
    offset: int,
    count: int,
    opt: Option<int>,
    track_opt: bool,
) -> Result<(int, Option<int>), ErrorKind>
    decreases count,
{
    if count <= 0 {
        Ok((offset, opt))
    } else {
        match rr_step(pkt, offset) {
            Err(k) => Err(k),
            Ok(p) => {
                if track_opt && be16(pkt, p.0) == DNS_TYPE_OPT as int {
                    if opt is Some {
                        Err(ErrorKind::InvalidPacket)
                    } else {
                        rrs_scan(pkt, p.1, count - 1, Some(p.0), track_opt)
                    }
                } else {
                    rrs_scan(pkt, p.1, count - 1, opt, track_opt)
                }
            },
        }
    }
}

/// The whole validation pass over a packet: reject a missing header, more
/// than one question, or sections declared without a question; then walk
/// the question and the three record sections in order; finally reject
/// trailing bytes that no declared record accounts for.
pub open spec fn spec_parse(pkt: Seq<u8>) -> Result<PacketModel, ErrorKind> {
    if pkt.len() < 12 {
        Err(ErrorKind::PacketTooSmall)
    } else {
        let qd = be16(pkt, 4);
        let an = be16(pkt, 6);
        let ns = be16(pkt, 8);
        let ar = be16(pkt, 10);
        if qd > 1 {
            Err(ErrorKind::InvalidPacket)
        } else if qd == 0 && (an > 0 || ns > 0 || ar > 0) {
            Err(ErrorKind::InvalidPacket)
        } else {
            let q_res: Result<int, ErrorKind> = if qd == 1 {
                match question_step(pkt, 12) {
                    Err(k) => Err(k),
                    Ok(p) => Ok(p.1),
                }
            } else {
                Ok(12)
            };
            match q_res {
                Err(k) => Err(k),
                Ok(o1) => match rrs_scan(pkt, o1, an, None, false) {
                    Err(k) => Err(k),
                    Ok(p2) => match rrs_scan(pkt, p2.0, ns, None, false) {
                        Err(k) => Err(k),
                        Ok(p3) => match rrs_scan(pkt, p3.0, ar, None, true) {
                            Err(k) => Err(k),
                            Ok(p4) => if p4.0 != pkt.len() {
                                Err(ErrorKind::InternalError)
                            } else {
                                Ok(PacketModel {
                                    bytes: pkt,
                                    question: if qd == 1 { Some(12int) } else { None },
                                    answers: o1,
                                    nameservers: p2.0,
                                    additional: p3.0,
                                    opt: p4.1,
                                    an: an,
                                    ns: ns,
                                    ar: ar,
                                })
                            },
                        },
                    },
                },
            }
        }
    }
}

/// `count` records decode one after the other from `offset`.  This is what
/// a validated packet guarantees of each of its sections, and what lets a
/// caller drive a record iterator through every declared record.
pub open spec fn section_decodes(pkt: Seq<u8>, offset: int, count: int) -> bool
    decreases count,
{
    count <= 0 || (rr_step(pkt, offset) matches Ok(p) && section_decodes(pkt, p.1, count - 1))
}

proof fn lemma_rrs_scan_decodes(pkt: Seq<u8>, offset: int, count: int, opt: Option<int>,
    track_opt: bool)
    requires
        rrs_scan(pkt, offset, count, opt, track_opt) is Ok,
    ensures
        section_decodes(pkt, offset, count),
    decreases count,
{
    if count > 0 {
        match rr_step(pkt, offset) {
            Ok(p) => {
                if track_opt && be16(pkt, p.0) == DNS_TYPE_OPT as int {
                    if !(opt is Some) {
                        lemma_rrs_scan_decodes(pkt, p.1, count - 1, Some(p.0), track_opt);
                    }
                } else {
                    lemma_rrs_scan_decodes(pkt, p.1, count - 1, opt, track_opt);
                }
            },
            Err(_) => {},
        }
    }
}

/// What a packet's validity owes the iterators: the question record
/// decodes, and every section's records decode in sequence from the
/// section's start, as many as the header declares.
pub proof fn lemma_wf_sections_decode(m: PacketModel)
    requires
        spec_parse(m.bytes) == Ok::<PacketModel, ErrorKind>(m),
    ensures
        m.question matches Some(q) ==> question_step(m.bytes, q) is Ok,
        section_decodes(m.bytes, m.answers, m.an),
        section_decodes(m.bytes, m.nameservers, m.ns),
        section_decodes(m.bytes, m.additional, m.ar),
{
    let pkt = m.bytes;
    let an = be16(pkt, 6);
    let ns = be16(pkt, 8);
    let ar = be16(pkt, 10);
    match rrs_scan(pkt, m.answers, an, None, false) {
        Ok(_) => {
            lemma_rrs_scan_decodes(pkt, m.answers, an, None, false);
        },
        Err(_) => {},
    }
    match rrs_scan(pkt, m.nameservers, ns, None, false) {
        Ok(_) => {
            lemma_rrs_scan_decodes(pkt, m.nameservers, ns, None, false);
        },
        Err(_) => {},
    }
    match rrs_scan(pkt, m.additional, ar, None, true) {
        Ok(_) => {
            lemma_rrs_scan_decodes(pkt, m.additional, ar, None, true);
        },
        Err(_) => {},
    }
}

/// Unrolls [`section_decodes`] by one record.
pub proof fn lemma_section_decodes_step(pkt: Seq<u8>, offset: int, count: int)
    requires
        section_decodes(pkt, offset, count),
        count > 0,
    ensures
        rr_step(pkt, offset) is Ok,
        rr_step(pkt, offset) matches Ok(p) ==> section_decodes(pkt, p.1, count - 1),
{
}

/// Every input shorter than the 12-byte header is rejected as too small,
/// whatever its bytes hold.
pub proof fn lemma_parse_short_packet(pkt: Seq<u8>)
    requires
        pkt.len() < 12,
    ensures
        spec_parse(pkt) == Err::<PacketModel, ErrorKind>(ErrorKind::PacketTooSmall),
{
}

/// A header that declares more than one question is rejected as an invalid
/// packet, regardless of what the sections hold.
pub proof fn lemma_parse_too_many_questions(pkt: Seq<u8>)
    requires
        pkt.len() >= 12,
        be16(pkt, 4) > 1,
    ensures
        spec_parse(pkt) == Err::<PacketModel, ErrorKind>(ErrorKind::InvalidPacket),
{
}

/// A header that declares no question but a nonempty answer, name server
/// or additional section is rejected as an invalid packet.
pub proof fn lemma_parse_sections_without_question(pkt: Seq<u8>)
    requires
        pkt.len() >= 12,
        be16(pkt, 4) == 0,
        be16(pkt, 6) > 0 || be16(pkt, 8) > 0 || be16(pkt, 10) > 0,
    ensures
        spec_parse(pkt) == Err::<PacketModel, ErrorKind>(ErrorKind::InvalidPacket),
{
}

/// A bare header that still declares one question fails as the validator's
/// own bookkeeping error: the question's name would have to start exactly
/// at the end of the buffer.
pub proof fn lemma_parse_question_at_buffer_end(pkt: Seq<u8>)
    requires
        pkt.len() == 12,
        be16(pkt, 4) == 1,
    ensures
        spec_parse(pkt) == Err::<PacketModel, ErrorKind>(ErrorKind::InternalError),
{
}

/// Decodes one question record at `offset`.
pub fn question_step_exec(pkt: &Vec<u8>, offset: usize) -> (r: Result<(usize, usize), DSError>)
    ensures
        match question_step(pkt@, offset as int) {
            Ok(p) => r matches Ok(v) && v.0 as int == p.0 && v.1 as int == p.1,
            Err(k) => r matches Err(e) && e.kind() == k,
        },
        r matches Ok(v) ==> offset < v.0 && v.0 + 4 == v.1 && v.1 <= pkt@.len(),
{
    let n: usize = pkt.len();
    match check_compressed_name(pkt, offset) {
        Err(e) => Err(e),
        Ok(after) => {
            proof {
                lemma_name_check_bounds(pkt@, offset as int);
            }
            if n - after < 4 {
                Err(DSError::PacketTooSmall)
            } else {
                Ok((after, after + 4))
            }
        },
    }
}

/// Decodes one resource record at `offset`.
pub fn rr_step_exec(pkt: &Vec<u8>, offset: usize) -> (r: Result<(usize, usize), DSError>)
    ensures
        match rr_step(pkt@, offset as int) {
            Ok(p) => r matches Ok(v) && v.0 as int == p.0 && v.1 as int == p.1,
            Err(k) => r matches Err(e) && e.kind() == k,
        },
        r matches Ok(v) ==> offset < v.0 && v.0 + 10 <= v.1 && v.1 <= pkt@.len(),
{
    let n: usize = pkt.len();
    match check_compressed_name(pkt, offset) {
        Err(e) => Err(e),
        Ok(after) => {
            proof {
                lemma_name_check_bounds(pkt@, offset as int);
            }
            if n - after < 10 {
                return Err(DSError::PacketTooSmall);
            }
            let t = read_be16(pkt, after);
            let rdlen = read_be16(pkt, after + 8);
            if t == DNS_TYPE_A && rdlen != 4 {
                return Err(DSError::InvalidPacket("A record doesn't include a 4 bytes IP address"));
            }
            if t == DNS_TYPE_AAAA && rdlen != 16 {
                return Err(DSError::InvalidPacket(
                    "AAAA record doesn't include a 16 bytes IP address"));
            }
            if (rdlen as usize) > n - (after + 10) {
                return Err(DSError::PacketTooSmall);
            }
            Ok((after, after + 10 + rdlen as usize))
        },
    }
}

/// Walks `count` records from `start`, tracking the OPT record when asked.
fn walk_rrs(pkt: &Vec<u8>, start: usize, count: u16, track_opt: bool)
    -> (r: Result<(usize, Option<usize>), DSError>)
    requires
        12 <= start <= pkt@.len(),
    ensures
        match rrs_scan(pkt@, start as int, count as int, None, track_opt) {
            Ok(p) => r matches Ok(v) && v.0 as int == p.0 && opt_int(v.1) == p.1,
            Err(k) => r matches Err(e) && e.kind() == k,
        },
        r matches Ok(v) ==> start <= v.0 <= pkt@.len()
            && (v.1 matches Some(o) ==> 12 <= o && o + 10 <= pkt@.len()),
{
    let mut cur: usize = start;
    let mut remaining: u16 = count;
    let mut opt: Option<usize> = None;
    loop
        invariant
            12 <= start <= cur <= pkt@.len(),
            opt matches Some(o) ==> 12 <= o && o + 10 <= pkt@.len(),
            rrs_scan(pkt@, start as int, count as int, None, track_opt)
                == rrs_scan(pkt@, cur as int, remaining as int, opt_int(opt), track_opt),
        decreases remaining,
    {
        if remaining == 0 {
            return Ok((cur, opt));
        }
        match rr_step_exec(pkt, cur) {
            Err(e) => {
                return Err(e);
            },
            Ok(v) => {
                let after = v.0;
                let next = v.1;
                if track_opt {
                    let t = read_be16(pkt, after);
                    if t == DNS_TYPE_OPT {
                        if opt.is_some() {
                            return Err(DSError::InvalidPacket("Duplicate OPT record"));
                        }
                        opt = Some(after);
                    }
                }
                cur = next;
                remaining = remaining - 1;
            },
        }
    }
}

/// A raw packet, wrapped and ready to be validated.
pub struct DNSSector {
    packet: Vec<u8>,
}

impl View for DNSSector {
    type V = Seq<u8>;

    closed spec fn view(&self) -> Seq<u8> {
        self.packet@
    }
}

impl DNSSector {
    /// Wraps a raw packet.  Construction never fails; every check is
    /// deferred to `parse`.
    pub fn new(packet: Vec<u8>) -> (r: Result<DNSSector, DSError>)
        ensures
            r matches Ok(ds) && ds@ == packet@,
    {
        Ok(DNSSector { packet })
    }

    /// Runs the validation pass and hands back the parsed packet, or the
    /// error that [`spec_parse`] assigns to this input.  The buffer is
    /// carried over unchanged into the parsed representation.
    pub fn parse(self) -> (r: Result<ParsedPacket, DSError>)
        ensures
            match spec_parse(self@) {
                Ok(m) => r matches Ok(pp) && pp@ == m && pp.wf() && wf_weak(m),
                Err(k) => r matches Err(e) && e.kind() == k,
            },
    {
        let packet = self.packet;
        let n: usize = packet.len();
        if n < DNS_HEADER_SIZE {
            return Err(DSError::PacketTooSmall);
        }
        let qd = read_be16(&packet, 4);
        let an = read_be16(&packet, 6);
        let ns = read_be16(&packet, 8);
        let ar = read_be16(&packet, 10);
        if qd > 1 {
            return Err(DSError::InvalidPacket("Too many questions"));
        }
        if qd == 0 && (an > 0 || ns > 0 || ar > 0) {
            return Err(DSError::InvalidPacket("A question shouldn't also contain answers"));
        }
        let offset_question: Option<usize> = if qd == 1 { Some(12) } else { None };
        let o1: usize = if qd == 1 {
            match question_step_exec(&packet, 12) {
                Err(e) => {
                    return Err(e);
                },
                Ok(v) => v.1,
            }
        } else {
            12
        };
        let (o2, _) = match walk_rrs(&packet, o1, an, false) {
            Err(e) => {
                return Err(e);
            },
            Ok(v) => v,
        };
        let (o3, _) = match walk_rrs(&packet, o2, ns, false) {
            Err(e) => {
                return Err(e);
            },
            Ok(v) => v,
        };
        let (o4, opt) = match walk_rrs(&packet, o3, ar, true) {
            Err(e) => {
                return Err(e);
            },
            Ok(v) => v,
        };
        if o4 != n {
            return Err(DSError::InternalError("Unprocessed bytes after the last section"));
        }
        Ok(ParsedPacket::assemble(packet, offset_question, o1, o2, o3, opt, an, ns, ar))
    }
}

} // verus!
