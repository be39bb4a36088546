//! Lazy traversal of the EDNS pseudo-section: the OPT record's extended
//! fields and its sequence of options.

use vstd::prelude::*;
use crate::parsed_packet::ParsedPacket;
use crate::parsed_packet::wf_weak;
use crate::wire::be16;

verus! {

/// One option of the OPT pseudo-record, decoded lazily over the parsed
/// packet it borrows.  The record-level EDNS fields are exposed here too.
pub struct EdnsIterator<'a> {
    /// The packet being traversed.  The shared borrow keeps every mutation
    /// of the packet out for the iterator's lifetime.
    pub pp: &'a ParsedPacket,
    /// Offset of the OPT record's fixed fields, right after its name.
    pub opt: usize,
    /// Offset of the current option's 16-bit code.
    pub off: usize,
    /// Offset right after the OPT record's RDATA.
    pub rd_end: usize,
}

impl<'a> EdnsIterator<'a> {
    /// What a live option item guarantees: the OPT record's fixed fields
    /// and RDATA lie inside the buffer, and the current option's header
    /// and value fit inside that RDATA.
    pub open spec fn inv(self) -> bool {
        &&& self.pp@.opt == Some(self.opt as int)
        &&& self.opt + 10 <= self.pp@.bytes.len()
        &&& self.rd_end as int == self.opt + 10 + be16(self.pp@.bytes, self.opt as int + 8)
        &&& self.rd_end <= self.pp@.bytes.len()
        &&& self.opt + 10 <= self.off
        &&& self.off + 4 <= self.rd_end
        &&& self.off + 4 + be16(self.pp@.bytes, self.off as int + 2) <= self.rd_end
    }

    /// The upper byte of the extended response code, from the OPT record.
    pub fn ext_rcode(&self) -> (r: u8)
        requires
            self.inv(),
        ensures
            r == self.pp@.bytes[self.opt as int + 4],
    {
        let _n: usize = self.pp.packet_len();
        self.pp.byte_at(self.opt + 4)
    }

    /// The EDNS version byte, from the OPT record.
    pub fn version(&self) -> (r: u8)
        requires
            self.inv(),
        ensures
            r == self.pp@.bytes[self.opt as int + 5],
    {
        let _n: usize = self.pp.packet_len();
        self.pp.byte_at(self.opt + 5)
    }

    /// The 16-bit extended flags, DNSSEC OK bit included.
    pub fn ext_flags(&self) -> (r: u16)
        requires
            self.inv(),
        ensures
            r as int == be16(self.pp@.bytes, self.opt as int + 6),
    {
        let _n: usize = self.pp.packet_len();
        self.pp.u16_at(self.opt + 6)
    }

    /// The UDP payload size the OPT record advertises in its class field.
    pub fn max_payload(&self) -> (r: u16)
        requires
            self.inv(),
        ensures
            r as int == be16(self.pp@.bytes, self.opt as int + 2),
    {
        let _n: usize = self.pp.packet_len();
        self.pp.u16_at(self.opt + 2)
    }

    /// The current option's 16-bit code.
    pub fn option_code(&self) -> (r: u16)
        requires
            self.inv(),
        ensures
            r as int == be16(self.pp@.bytes, self.off as int),
    {
        self.pp.u16_at(self.off)
    }

    /// The current option's declared value length.
    pub fn option_len(&self) -> (r: u16)
        requires
            self.inv(),
        ensures
            r as int == be16(self.pp@.bytes, self.off as int + 2),
            self.off + 4 + r as int <= self.pp@.bytes.len(),
    {
        let _n: usize = self.pp.packet_len();
        self.pp.u16_at(self.off + 2)
    }

    /// Offset of the current option's raw value bytes.
    pub fn option_data_offset(&self) -> (r: usize)
        requires
            self.inv(),
        ensures
            r as int == self.off as int + 4,
            r <= self.pp@.bytes.len(),
    {
        let _n: usize = self.pp.packet_len();
        self.off + 4
    }

    /// Advances to the OPT record's next option: its item whenever another
    /// option's header and declared value fit in the RDATA, and `None` only
    /// at the end of the RDATA or on a truncated option.
    pub fn next(self) -> (r: Option<EdnsIterator<'a>>)
        requires
            self.inv(),
        ensures
            r matches Some(it) ==> it.inv() && it.pp@ == self.pp@ && it.opt == self.opt
                && it.off as int == self.off + 4 + be16(self.pp@.bytes, self.off as int + 2),
            ({
                let off2 = self.off + 4 + be16(self.pp@.bytes, self.off as int + 2);
                (r is Some) <==> (off2 + 4 <= self.rd_end
                    && off2 + 4 + be16(self.pp@.bytes, off2 + 2) <= self.rd_end)
            }),
    {
        let _n: usize = self.pp.packet_len();
        let optlen = self.pp.u16_at(self.off + 2);
        option_at(self.pp, self.opt, self.off + 4 + optlen as usize, self.rd_end)
    }
}

/// Builds the option item at `off`: `Some` exactly when an option header
/// and its declared value fit between `off` and the end of the RDATA.
fn option_at<'a>(pp: &'a ParsedPacket, opt: usize, off: usize, rd_end: usize)
    -> (r: Option<EdnsIterator<'a>>)
    requires
        pp@.opt == Some(opt as int),
        opt + 10 <= pp@.bytes.len(),
        rd_end as int == opt + 10 + be16(pp@.bytes, opt as int + 8),
        rd_end <= pp@.bytes.len(),
        opt + 10 <= off,
    ensures
        r matches Some(it) ==> it.inv() && it.pp@ == pp@ && it.opt == opt && it.off == off
            && it.rd_end == rd_end,
        (r is Some) <==> (off + 4 <= rd_end
            && off as int + 4 + be16(pp@.bytes, off as int + 2) <= rd_end),
{
    let _n: usize = pp.packet_len();
    if off > rd_end || rd_end - off < 4 {
        return None;
    }
    let optlen = pp.u16_at(off + 2);
    if (optlen as usize) > rd_end - (off + 4) {
        return None;
    }
    Some(EdnsIterator { pp, opt, off, rd_end })
}

impl ParsedPacket {
    /// The OPT record's first option as a lazy item.  With an OPT record
    /// whose RDATA fits the buffer and opens with a complete option, the
    /// item is owed; `None` comes only without an OPT record, without
    /// options, or on a truncated OPT record.
    pub fn into_iter_edns<'a>(&'a self) -> (r: Option<EdnsIterator<'a>>)
        requires
            wf_weak(self@),
        ensures
            self@.opt is None ==> r is None,
            r matches Some(it) ==> it.inv() && it.pp@ == self@
                && self@.opt == Some(it.opt as int) && it.off as int == it.opt + 10,
            self@.opt matches Some(o) ==> ({
                let rd_end = o + 10 + be16(self@.bytes, o + 8);
                (r is Some) <==> (rd_end <= self@.bytes.len()
                    && o + 14 <= rd_end
                    && o + 14 + be16(self@.bytes, o + 12) <= rd_end)
            }),
    {
        let n: usize = self.packet_len();
        match self.offset_edns() {
            None => None,
            Some(o) => {
                let rdlen = self.u16_at(o + 8);
                if (rdlen as usize) > n - (o + 10) {
                    return None;
                }
                let rd_end = o + 10 + rdlen as usize;
                option_at(self, o, o + 10, rd_end)
            },
        }
    }
}

} // verus!
