//! The domain-name compression resolver.
//!
//! A name is a run of length-prefixed labels closed by a zero byte, where any
//! label position may instead hold a two-byte compression pointer (top two
//! bits of the length byte set) that redirects decoding to an earlier offset.
//! [`name_scan`] is the mathematical definition of one decoding: it carries
//! the offset under scrutiny, the strictly decreasing pointer barrier, the
//! labels decoded so far and the position right after the name's own bytes.
//! Its `decreases` clause is the termination argument demanded of the wire
//! format itself: every pointer must jump strictly backward, and the decoded
//! labels may never exceed 255 bytes.

use vstd::prelude::*;
use crate::errors::DSError;
use crate::errors::ErrorKind;

verus! {

/// `Some(f)` as an `int` offset, for relating exec state to the spec.
pub open spec fn opt_int(o: Option<usize>) -> Option<int> {
    match o {
        Some(v) => Some(v as int),
        None => None,
    }
}

/// Decodes the name that continues at `offset`.
///
/// `prev` is the barrier every further compression pointer must jump
/// strictly below (initially the name's start offset), `acc` the label bytes
/// decoded so far (length prefixes included), and `fin` the offset right
/// after the name's encoding once the first pointer fixed it.  On success
/// the result carries that end offset and the full decoded label sequence,
/// terminator included.
///
/// Seeding the barrier with the name's start makes the rule slightly
/// stricter than "target below the pointer's own offset": a name's first
/// pointer may not target the name's own earlier bytes either.  Targets
/// then fall monotonically along the whole chain, which is what the
/// termination measure rests on.
pub open spec fn name_scan(
    pkt: Seq<u8>,
    offset: int,
    prev: int,
    acc: Seq<u8>,
    fin: Option<int>,
) -> Result<(int, Seq<u8>), ErrorKind>
    decreases prev, 700 - acc.len(),
    when 0 <= offset
{
    if acc.len() > 255 {
        Err(ErrorKind::InvalidName)
    } else {
        let b = pkt[offset] as int;
        if b >= 192 {
            if offset + 2 > pkt.len() {
                Err(ErrorKind::PacketTooSmall)
            } else {
                let target = (b - 192) * 256 + pkt[offset + 1] as int;
                if target >= prev {
                    Err(ErrorKind::InvalidName)
                } else {
                    name_scan(pkt, target, target, acc,
                        if fin is Some { fin } else { Some(offset + 2) })
                }
            }
        } else if b > 63 {
            Err(ErrorKind::InvalidName)
        } else if b == 0 {
            Ok((match fin { Some(f) => f, None => offset + 1 }, acc.push(0u8)))
        } else {
            if offset + 1 + b >= pkt.len() {
                Err(ErrorKind::PacketTooSmall)
            } else {
                name_scan(pkt, offset + 1 + b, prev, acc + pkt.subrange(offset, offset + 1 + b), fin)
            }
        }
    }
}

/// Decodes the name that starts at `offset`, rejecting a start outside the
/// buffer outright: the validator only asks for names at offsets its own
/// bookkeeping produced, so such a start is its defect, not the packet's.
pub open spec fn name_check(pkt: Seq<u8>, offset: int) -> Result<(int, Seq<u8>), ErrorKind> {
    if offset < 0 || offset >= pkt.len() {
        Err(ErrorKind::InternalError)
    } else {
        name_scan(pkt, offset, offset, Seq::empty(), None)
    }
}

/// What a successful scan guarantees: the end offset stays inside the
/// buffer and strictly behind the start, the decoded name keeps every label
/// already accumulated as its prefix, ends with the terminator, and never
/// exceeds 255 label bytes (256 with the terminator).
pub proof fn lemma_name_scan_bounds(
    pkt: Seq<u8>,
    offset: int,
    prev: int,
    acc: Seq<u8>,
    fin: Option<int>,
)
    requires
        0 <= offset < pkt.len(),
        prev <= pkt.len(),
        fin matches Some(f) ==> 0 < f <= pkt.len(),
    ensures
        name_scan(pkt, offset, prev, acc, fin) matches Ok(p) ==> {
            let (after, c) = p;
            &&& after <= pkt.len()
            &&& (fin matches Some(f) ==> after == f)
            &&& (fin is None ==> offset < after)
            &&& c.len() <= 256
            &&& acc.len() < c.len()
            &&& c[c.len() - 1] == 0u8
            &&& c.subrange(0, acc.len() as int) == acc
        },
    decreases prev, 700 - acc.len(),
{
    if acc.len() > 255 {
        // rejected, nothing to show
    } else {
        let b = pkt[offset] as int;
        if b >= 192 {
            if offset + 2 <= pkt.len() {
                let target = (b - 192) * 256 + pkt[offset + 1] as int;
                if target < prev {
                    let fin2 = if fin is Some { fin } else { Some(offset + 2) };
                    lemma_name_scan_bounds(pkt, target, target, acc, fin2);
                }
            }
        } else if b > 63 {
            // rejected
        } else if b == 0 {
            let c = acc.push(0u8);
            assert(c.subrange(0, acc.len() as int) =~= acc);
        } else {
            if offset + 1 + b < pkt.len() {
                let acc2 = acc + pkt.subrange(offset, offset + 1 + b);
                lemma_name_scan_bounds(pkt, offset + 1 + b, prev, acc2, fin);
                match name_scan(pkt, offset + 1 + b, prev, acc2, fin) {
                    Ok(p) => {
                        let c = p.1;
                        assert(c.subrange(0, acc2.len() as int) == acc2);
                        assert(c.subrange(0, acc.len() as int) =~= acc) by {
                            assert forall|i: int| 0 <= i < acc.len() implies
                                c.subrange(0, acc.len() as int)[i] == acc[i] by {
                                assert(c[i] == c.subrange(0, acc2.len() as int)[i]);
                                assert(acc2[i] == acc[i]);
                            }
                        }
                    },
                    Err(_) => {},
                }
            }
        }
    }
}

/// A successful decode at a start inside the buffer lands strictly behind
/// the start, inside the buffer, and yields at most 255 label bytes.
pub proof fn lemma_name_check_bounds(pkt: Seq<u8>, offset: int)
    requires
        0 <= offset,
    ensures
        name_check(pkt, offset) matches Ok(p) ==> {
            let (after, c) = p;
            &&& offset < after <= pkt.len()
            &&& 1 <= c.len() <= 256
            &&& c[c.len() - 1] == 0u8
        },
{
    if offset < pkt.len() {
        lemma_name_scan_bounds(pkt, offset, offset, Seq::empty(), None);
    }
}

/// A label length byte above 63 that is not a compression pointer is
/// rejected as an invalid name, whatever follows it.
pub proof fn lemma_invalid_label_rejected(pkt: Seq<u8>, offset: int)
    requires
        0 <= offset < pkt.len(),
        63 < pkt[offset] < 192,
    ensures
        name_check(pkt, offset) == Err::<(int, Seq<u8>), ErrorKind>(ErrorKind::InvalidName),
{
}

/// Walks over the encoding of the name at `offset` and returns the offset
/// right after it: after its terminator, or after the first compression
/// pointer if the name is compressed.
pub fn check_compressed_name(pkt: &Vec<u8>, offset: usize) -> (r: Result<usize, DSError>)
    ensures
        match name_check(pkt@, offset as int) {
            Ok(p) => r matches Ok(a) && a as int == p.0,
            Err(k) => r matches Err(e) && e.kind() == k,
        },
{
    let n: usize = pkt.len();
    if offset >= n {
        return Err(DSError::InternalError("Offset outside packet boundaries"));
    }
    let mut pos: usize = offset;
    let mut prev: usize = offset;
    let mut nlen: usize = 0;
    let mut fin: Option<usize> = None;
    let ghost mut acc: Seq<u8> = Seq::empty();
    loop
        invariant
            n == pkt@.len(),
            pos < n,
            prev <= n,
            nlen == acc.len(),
            nlen <= 400,
            fin matches Some(f) ==> 0 < f <= n,
            name_check(pkt@, offset as int)
                == name_scan(pkt@, pos as int, prev as int, acc, opt_int(fin)),
        decreases prev, 700 - nlen,
    {
        if nlen > 255 {
            return Err(DSError::InvalidName("Label length too long"));
        }
        let b = pkt[pos];
        if b >= 192 {
            if n - pos < 2 {
                return Err(DSError::PacketTooSmall);
            }
            let target: usize = (b as usize - 192) * 256 + pkt[pos + 1] as usize;
            if target >= prev {
                return Err(DSError::InvalidName("Forward references"));
            }
            if fin.is_none() {
                fin = Some(pos + 2);
            }
            pos = target;
            prev = target;
        } else if b > 63 {
            return Err(DSError::InvalidName("Label length too long"));
        } else if b == 0 {
            let r = match fin {
                Some(f) => f,
                None => pos + 1,
            };
            return Ok(r);
        } else {
            let chunk: usize = b as usize + 1;
            if chunk >= n - pos {
                return Err(DSError::PacketTooSmall);
            }
            proof {
                acc = acc + pkt@.subrange(pos as int, pos as int + chunk as int);
            }
            nlen = nlen + chunk;
            pos = pos + chunk;
        }
    }
}

/// Decodes the name at `offset` into its canonical uncompressed form: the
/// label bytes in order, length prefixes included, closed by the zero
/// terminator.  Also returns the offset right after the name's encoding.
pub fn resolve_name(pkt: &Vec<u8>, offset: usize) -> (r: Result<(Vec<u8>, usize), DSError>)
    ensures
        match name_check(pkt@, offset as int) {
            Ok(p) => r matches Ok(v) && v.0@ == p.1 && v.1 as int == p.0,
            Err(k) => r matches Err(e) && e.kind() == k,
        },
{
    let n: usize = pkt.len();
    if offset >= n {
        return Err(DSError::InternalError("Offset outside packet boundaries"));
    }
    let mut pos: usize = offset;
    let mut prev: usize = offset;
    let mut fin: Option<usize> = None;
    let mut out: Vec<u8> = Vec::new();
    loop
        invariant
            n == pkt@.len(),
            pos < n,
            prev <= n,
            out@.len() <= 400,
            fin matches Some(f) ==> 0 < f <= n,
            name_check(pkt@, offset as int)
                == name_scan(pkt@, pos as int, prev as int, out@, opt_int(fin)),
        decreases prev, 700 - out@.len(),
    {
        if out.len() > 255 {
            return Err(DSError::InvalidName("Label length too long"));
        }
        let b = pkt[pos];
        if b >= 192 {
            if n - pos < 2 {
                return Err(DSError::PacketTooSmall);
            }
            let target: usize = (b as usize - 192) * 256 + pkt[pos + 1] as usize;
            if target >= prev {
                return Err(DSError::InvalidName("Forward references"));
            }
            if fin.is_none() {
                fin = Some(pos + 2);
            }
            pos = target;
            prev = target;
        } else if b > 63 {
            return Err(DSError::InvalidName("Label length too long"));
        } else if b == 0 {
            let r = match fin {
                Some(f) => f,
                None => pos + 1,
            };
            out.push(0u8);
            return Ok((out, r));
        } else {
            let chunk: usize = b as usize + 1;
            if chunk >= n - pos {
                return Err(DSError::PacketTooSmall);
            }
            let ghost acc0: Seq<u8> = out@;
            let mut j: usize = 0;
            while j < chunk
                invariant
                    n == pkt@.len(),
                    pos < n,
                    pos + chunk < n,
                    chunk == b + 1,
                    j <= chunk,
                    out@ == acc0 + pkt@.subrange(pos as int, pos as int + j as int),
                    acc0.len() <= 400,
                decreases chunk - j,
            {
                out.push(pkt[pos + j]);
                proof {
                    assert(out@ =~= acc0 + pkt@.subrange(pos as int, pos as int + j as int + 1));
                }
                j = j + 1;
            }
            proof {
                assert(out@ == acc0 + pkt@.subrange(pos as int, pos as int + 1 + b as int));
            }
            pos = pos + chunk;
        }
    }
}

} // verus!
