//! The raw in-place name rewriter.
//!
//! Given two raw uncompressed names of one label-length shape, the renamer
//! scans every name the section iterators can reach — the question's name
//! and every record's name — for a decompressed byte-exact match of the old
//! name, and substitutes the new name over each match, label by label along
//! its compression chain.  Pointers and length bytes are never touched, so
//! every compression target stays valid and the packet keeps its shape.

use vstd::prelude::*;
use crate::dns_sector::rr_step;
use crate::errors::RenameError;
use crate::name::lemma_name_scan_bounds;
use crate::name::name_check;
use crate::name::name_scan;
use crate::name::opt_int;
use crate::name::resolve_name;
use crate::parsed_packet::PacketModel;
use crate::parsed_packet::ParsedPacket;

verus! {

/// A well-formed raw uncompressed name tail from `i`: length-prefixed
/// labels of at most 63 bytes, closed by a zero byte that ends the buffer
/// exactly.
pub open spec fn valid_raw_from(s: Seq<u8>, i: int) -> bool
    decreases s.len() - i,
    when i >= 0
{
    if i >= s.len() {
        false
    } else {
        let b = s[i] as int;
        if b == 0 {
            i == s.len() - 1
        } else if b > 63 {
            false
        } else if i + 1 + b > s.len() {
            false
        } else {
            valid_raw_from(s, i + 1 + b)
        }
    }
}

/// A well-formed raw uncompressed name: what a decoded name can be, so at
/// most 255 label bytes plus the terminator.
pub open spec fn valid_raw_name(s: Seq<u8>) -> bool {
    s.len() <= 256 && valid_raw_from(s, 0)
}

/// `a` and `b` carry the same label lengths at the same positions from
/// `i`; the label contents in between are free.
pub open spec fn same_shape_from(a: Seq<u8>, b: Seq<u8>, i: int) -> bool
    decreases a.len() - i,
    when i >= 0
{
    if i >= a.len() || i >= b.len() {
        false
    } else {
        let l = a[i] as int;
        if b[i] != a[i] {
            false
        } else if l == 0 {
            true
        } else if l > 63 {
            false
        } else if i + 1 + l > a.len() {
            false
        } else {
            same_shape_from(a, b, i + 1 + l)
        }
    }
}

/// The two names the renamer accepts: both well formed, of equal length
/// and of one label-length shape, so that the new name can replace the old
/// one label by label wherever the old one is laid out in a buffer.
pub open spec fn compatible_names(a: Seq<u8>, b: Seq<u8>) -> bool {
    valid_raw_name(a) && valid_raw_name(b) && a.len() == b.len() && same_shape_from(a, b, 0)
}

/// The name encoded at `offset` decodes successfully to exactly `oldn`.
pub open spec fn name_matches_at(pkt: Seq<u8>, offset: int, oldn: Seq<u8>) -> bool {
    name_check(pkt, offset) matches Ok(p) && p.1 == oldn
}

/// The offsets, among `count` records walked from `offset`, whose names
/// decode to `oldn`, in walk order.  A record that does not decode ends
/// the walk, as it ends the validator's.
pub open spec fn matched_locs_rrs(pkt: Seq<u8>, offset: int, count: int, oldn: Seq<u8>) -> Seq<int>
    decreases count,
{
    if count <= 0 {
        Seq::empty()
    } else {
        match rr_step(pkt, offset) {
            Err(_) => Seq::empty(),
            Ok(p) => (if name_matches_at(pkt, offset, oldn) { seq![offset] } else { Seq::empty() })
                + matched_locs_rrs(pkt, p.1, count - 1, oldn),
        }
    }
}

/// The offsets of every name reachable from the section iterators that
/// decodes to `oldn`: the question's name and the names of the answer,
/// name server and additional records, in scan order.
pub open spec fn matched_locs(m: PacketModel, oldn: Seq<u8>) -> Seq<int> {
    (match m.question {
        Some(q) => if name_matches_at(m.bytes, q, oldn) { seq![q] } else { Seq::empty() },
        None => Seq::empty(),
    }) + matched_locs_rrs(m.bytes, m.answers, m.an, oldn)
        + matched_locs_rrs(m.bytes, m.nameservers, m.ns, oldn)
        + matched_locs_rrs(m.bytes, m.additional, m.ar, oldn)
}

/// How many names reachable from the section iterators decode to `oldn`.
pub open spec fn spec_match_count(m: PacketModel, oldn: Seq<u8>) -> int {
    matched_locs(m, oldn).len() as int
}

/// `buf` with `len` bytes from `pos` replaced by the bytes of `newn` from
/// index `i`.
pub open spec fn write_chunk(buf: Seq<u8>, pos: int, newn: Seq<u8>, i: int, len: int) -> Seq<u8> {
    Seq::new(buf.len(), |k: int| (if pos <= k < pos + len && 0 <= i + (k - pos) < newn.len() {
        newn[i + (k - pos)]
    } else {
        buf[k]
    }))
}

/// The buffer after one rewrite: the walk follows the chain of the name at
/// `offset` as encoded in `pkt`, and each literal label — length byte
/// included — and the terminator are replaced in `buf` by the bytes of
/// `newn` at the same decoded positions, `i` of them already consumed.
/// Pointer bytes are skipped, and a state that would stop the decoder
/// leaves `buf` as it stands.
pub open spec fn spec_rewrite_name(
    buf: Seq<u8>,
    pkt: Seq<u8>,
    offset: int,
    prev: int,
    i: int,
    newn: Seq<u8>,
) -> Seq<u8>
    decreases prev, 700 - i,
    when 0 <= offset && 0 <= i
{
    if i > 255 {
        buf
    } else {
        let b = pkt[offset] as int;
        if b >= 192 {
            if offset + 2 > pkt.len() {
                buf
            } else {
                let target = (b - 192) * 256 + pkt[offset + 1] as int;
                if target >= prev {
                    buf
                } else {
                    spec_rewrite_name(buf, pkt, target, target, i, newn)
                }
            }
        } else if b > 63 {
            buf
        } else if b == 0 {
            if i < newn.len() && offset < buf.len() {
                buf.update(offset, newn[i])
            } else {
                buf
            }
        } else {
            if offset + 1 + b >= pkt.len() {
                buf
            } else {
                spec_rewrite_name(write_chunk(buf, offset, newn, i, 1 + b), pkt, offset + 1 + b,
                    prev, i + 1 + b, newn)
            }
        }
    }
}

/// The buffer after rewriting each of the names at `locs` in order.
pub open spec fn spec_rename_bytes(pkt: Seq<u8>, locs: Seq<int>, newn: Seq<u8>) -> Seq<u8>
    decreases locs.len(),
{
    if locs.len() == 0 {
        pkt
    } else {
        spec_rewrite_name(spec_rename_bytes(pkt, locs.drop_last(), newn), pkt, locs.last(),
            locs.last(), 0, newn)
    }
}


/// Position `k` lies on the name at `offset` as the rewriter walks it:
/// inside a literal label (length byte included) or on the terminator.
/// Pointer bytes are not part of it, and a state that stops the decoder
/// covers nothing.
pub open spec fn in_name_at(pkt: Seq<u8>, offset: int, prev: int, i: int, k: int) -> bool
    decreases prev, 700 - i,
    when 0 <= offset && 0 <= i
{
    if i > 255 {
        false
    } else {
        let b = pkt[offset] as int;
        if b >= 192 {
            if offset + 2 > pkt.len() {
                false
            } else {
                let target = (b - 192) * 256 + pkt[offset + 1] as int;
                if target >= prev {
                    false
                } else {
                    in_name_at(pkt, target, target, i, k)
                }
            }
        } else if b > 63 {
            false
        } else if b == 0 {
            k == offset
        } else {
            if offset + 1 + b >= pkt.len() {
                false
            } else {
                (offset <= k < offset + 1 + b) || in_name_at(pkt, offset + 1 + b, prev, i + 1 + b, k)
            }
        }
    }
}

/// One rewrite keeps the buffer's length and moves no byte off the
/// rewritten name: a changed position lies on that name's chain.
pub proof fn lemma_rewrite_name_frame(
    buf: Seq<u8>,
    pkt: Seq<u8>,
    offset: int,
    prev: int,
    i: int,
    newn: Seq<u8>,
    k: int,
)
    requires
        0 <= offset,
        0 <= i,
        0 <= k < buf.len(),
    ensures
        spec_rewrite_name(buf, pkt, offset, prev, i, newn).len() == buf.len(),
        spec_rewrite_name(buf, pkt, offset, prev, i, newn)[k] != buf[k]
            ==> in_name_at(pkt, offset, prev, i, k),
    decreases prev, 700 - i,
{
    if i > 255 {
    } else {
        let b = pkt[offset] as int;
        if b >= 192 {
            if offset + 2 <= pkt.len() {
                let target = (b - 192) * 256 + pkt[offset + 1] as int;
                if target < prev {
                    lemma_rewrite_name_frame(buf, pkt, target, target, i, newn, k);
                }
            }
        } else if b > 63 {
        } else if b == 0 {
        } else {
            if offset + 1 + b < pkt.len() {
                let buf2 = write_chunk(buf, offset, newn, i, 1 + b);
                lemma_rewrite_name_frame(buf2, pkt, offset + 1 + b, prev, i + 1 + b, newn, k);
            }
        }
    }
}

/// The whole rewriting pass keeps the buffer's length and changes a byte
/// only on the chain of one of the rewritten names.
pub proof fn lemma_rename_bytes_frame(pkt: Seq<u8>, locs: Seq<int>, newn: Seq<u8>, k: int)
    requires
        0 <= k < pkt.len(),
        forall|j: int| 0 <= j < locs.len() ==> #[trigger] locs[j] >= 0,
    ensures
        spec_rename_bytes(pkt, locs, newn).len() == pkt.len(),
        spec_rename_bytes(pkt, locs, newn)[k] != pkt[k]
            ==> exists|j: int| 0 <= j < locs.len()
                && in_name_at(pkt, #[trigger] locs[j], locs[j], 0, k),
    decreases locs.len(),
{
    if locs.len() > 0 {
        lemma_rename_bytes_frame(pkt, locs.drop_last(), newn, k);
        let prevbuf = spec_rename_bytes(pkt, locs.drop_last(), newn);
        lemma_rewrite_name_frame(prevbuf, pkt, locs.last(), locs.last(), 0, newn, k);
        if spec_rename_bytes(pkt, locs, newn)[k] != pkt[k] {
            if prevbuf[k] != pkt[k] {
                let j = choose|j: int| 0 <= j < locs.drop_last().len()
                    && in_name_at(pkt, #[trigger] locs.drop_last()[j], locs.drop_last()[j], 0, k);
                assert(locs[j] == locs.drop_last()[j]);
                assert(in_name_at(pkt, locs[j], locs[j], 0, k));
            } else {
                assert(in_name_at(pkt, locs[locs.len() - 1], locs[locs.len() - 1], 0, k));
            }
        }
    }
}

/// Every offset collected is a match of `oldn`.
pub open spec fn all_matched(pkt: Seq<u8>, locs: Seq<usize>, oldn: Seq<u8>) -> bool {
    forall|k: int| 0 <= k < locs.len() ==> name_matches_at(pkt, locs[k] as int, oldn)
}

/// Whether `s` is a well-formed raw uncompressed name.
#[verifier::loop_isolation(false)]
fn check_raw_name(s: &Vec<u8>) -> (r: bool)
    ensures
        r == valid_raw_name(s@),
{
    let n: usize = s.len();
    if n > 256 {
        return false;
    }
    let mut i: usize = 0;
    loop
        invariant
            n == s@.len(),
            i <= n,
            valid_raw_from(s@, 0) == valid_raw_from(s@, i as int),
        decreases n - i,
    {
        if i >= n {
            return false;
        }
        let b = s[i];
        if b == 0 {
            return i == n - 1;
        }
        if b > 63 {
            return false;
        }
        let step: usize = b as usize + 1;
        if step > n - i {
            return false;
        }
        i = i + step;
    }
}

/// Whether `a` and `b` have equal length and one label-length shape.
#[verifier::loop_isolation(false)]
fn check_same_shape(a: &Vec<u8>, b: &Vec<u8>) -> (r: bool)
    ensures
        r == (a@.len() == b@.len() && same_shape_from(a@, b@, 0)),
{
    let n: usize = a.len();
    if b.len() != n {
        return false;
    }
    let mut i: usize = 0;
    loop
        invariant
            n == a@.len(),
            n == b@.len(),
            i <= n,
            same_shape_from(a@, b@, 0) == same_shape_from(a@, b@, i as int),
        decreases n - i,
    {
        if i >= n {
            return false;
        }
        let l = a[i];
        if b[i] != l {
            return false;
        }
        if l == 0 {
            return true;
        }
        if l > 63 {
            return false;
        }
        let step: usize = l as usize + 1;
        if step > n - i {
            return false;
        }
        i = i + step;
    }
}

/// Whether two byte vectors hold the same bytes.
fn bytes_eq(a: &Vec<u8>, b: &Vec<u8>) -> (r: bool)
    ensures
        r == (a@ == b@),
{
    let n: usize = a.len();
    if b.len() != n {
        return false;
    }
    let mut i: usize = 0;
    while i < n
        invariant
            n == a@.len(),
            n == b@.len(),
            i <= n,
            forall|k: int| 0 <= k < i ==> a@[k] == b@[k],
        decreases n - i,
    {
        if a[i] != b[i] {
            return false;
        }
        i = i + 1;
    }
    proof {
        assert(a@ =~= b@);
    }
    true
}

/// Records `offset` when the name there decodes to exactly `oldn`.
fn check_match(pp: &ParsedPacket, offset: usize, oldn: &Vec<u8>, locs: &mut Vec<usize>)
    ensures
        final(locs)@ == if name_matches_at(pp@.bytes, offset as int, oldn@) {
            old(locs)@.push(offset)
        } else {
            old(locs)@
        },
{
    match pp.name_at(offset) {
        Err(_) => {},
        Ok(v) => {
            if bytes_eq(&v.0, oldn) {
                locs.push(offset);
            }
        },
    }
}

/// Walks `count` records from `start` and appends every offset whose name
/// decodes to exactly `oldn` — precisely the offsets of
/// [`matched_locs_rrs`], in order.
#[verifier::loop_isolation(false)]
fn scan_section(pp: &ParsedPacket, start: usize, count: u16, oldn: &Vec<u8>, locs: &mut Vec<usize>)
    ensures
        final(locs)@.len() == old(locs)@.len()
            + matched_locs_rrs(pp@.bytes, start as int, count as int, oldn@).len(),
        forall|k: int| 0 <= k < old(locs)@.len() ==> final(locs)@[k] == old(locs)@[k],
        forall|k: int| 0 <= k < matched_locs_rrs(pp@.bytes, start as int, count as int,
            oldn@).len() ==> final(locs)@[old(locs)@.len() + k] as int
                == #[trigger] matched_locs_rrs(pp@.bytes, start as int, count as int, oldn@)[k],
        forall|k: int| old(locs)@.len() <= k < final(locs)@.len()
            ==> name_matches_at(pp@.bytes, final(locs)@[k] as int, oldn@),
{
    let ghost pkt: Seq<u8> = pp@.bytes;
    let mut cur: usize = start;
    let mut remaining: u16 = count;
    let ghost mut gadded: Seq<int> = Seq::empty();
    loop
        invariant
            matched_locs_rrs(pkt, start as int, count as int, oldn@)
                == gadded + matched_locs_rrs(pkt, cur as int, remaining as int, oldn@),
            locs@.len() == old(locs)@.len() + gadded.len(),
            forall|k: int| 0 <= k < old(locs)@.len() ==> locs@[k] == old(locs)@[k],
            forall|k: int| 0 <= k < gadded.len()
                ==> locs@[old(locs)@.len() + k] as int == #[trigger] gadded[k],
            forall|k: int| old(locs)@.len() <= k < locs@.len()
                ==> name_matches_at(pkt, locs@[k] as int, oldn@),
        decreases remaining,
    {
        if remaining == 0 {
            proof {
                assert(gadded + matched_locs_rrs(pkt, cur as int, 0, oldn@) =~= gadded);
            }
            return;
        }
        match pp.rr_step_at(cur) {
            Err(_) => {
                proof {
                    assert(gadded + matched_locs_rrs(pkt, cur as int, remaining as int, oldn@)
                        =~= gadded);
                }
                return;
            },
            Ok(v) => {
                check_match(pp, cur, oldn, locs);
                proof {
                    let rest = matched_locs_rrs(pkt, v.1 as int, remaining - 1, oldn@);
                    if name_matches_at(pkt, cur as int, oldn@) {
                        assert(gadded + (seq![cur as int] + rest)
                            =~= (gadded + seq![cur as int]) + rest);
                        gadded = gadded + seq![cur as int];
                    } else {
                        assert(gadded + (Seq::<int>::empty() + rest) =~= gadded + rest);
                    }
                }
                cur = v.1;
                remaining = remaining - 1;
            },
        }
    }
}

/// Writes `newn` over the name encoded at `offset`, following its
/// compression chain: each literal label's content is replaced by the new
/// name's label of the same position, while length bytes, pointers and the
/// terminator's position stay untouched.  Writing the very name that is
/// already decoded there changes no byte at all.
#[verifier::loop_isolation(false)]
fn rewrite_at(out: &mut Vec<u8>, pp: &ParsedPacket, offset: usize, newn: &Vec<u8>)
    requires
        name_check(pp@.bytes, offset as int) matches Ok(p) && p.1.len() == newn@.len(),
        old(out)@.len() == pp@.bytes.len(),
    ensures
        final(out)@.len() == old(out)@.len(),
        final(out)@ == spec_rewrite_name(old(out)@, pp@.bytes, offset as int, offset as int, 0,
            newn@),
        ({
            let c = match name_check(pp@.bytes, offset as int) {
                Ok(p) => p.1,
                Err(_) => Seq::empty(),
            };
            c == newn@ && old(out)@ == pp@.bytes ==> final(out)@ == pp@.bytes
        }),
{
    let ghost pkt: Seq<u8> = pp@.bytes;
    let ghost gafter: int = match name_check(pkt, offset as int) {
        Ok(p) => p.0,
        Err(_) => 0int,
    };
    let ghost c: Seq<u8> = match name_check(pkt, offset as int) {
        Ok(p) => p.1,
        Err(_) => Seq::empty(),
    };
    let n: usize = pp.packet_len();
    let nn: usize = newn.len();
    let mut pos: usize = offset;
    let mut prev: usize = offset;
    let mut i: usize = 0;
    let mut fin: Option<usize> = None;
    proof {
        assert(c.subrange(0, 0) =~= Seq::<u8>::empty());
    }
    loop
        invariant
            n == pkt.len(),
            pkt == pp@.bytes,
            out@.len() == n,
            pos < n,
            prev <= n,
            i <= c.len(),
            nn == newn@.len(),
            c.len() == newn@.len(),
            fin matches Some(f) ==> 0 < f <= n,
            name_scan(pkt, pos as int, prev as int, c.subrange(0, i as int), opt_int(fin))
                == Ok::<(int, Seq<u8>), crate::errors::ErrorKind>((gafter, c)),
            spec_rewrite_name(old(out)@, pkt, offset as int, offset as int, 0, newn@)
                == spec_rewrite_name(out@, pkt, pos as int, prev as int, i as int, newn@),
            c == newn@ && old(out)@ == pkt ==> out@ == pkt,
        decreases prev, 700 - i,
    {
        proof {
            lemma_name_scan_bounds(pkt, pos as int, prev as int, c.subrange(0, i as int),
                opt_int(fin));
        }
        if i > 255 {
            proof {
                assert(false);
            }
            return;
        }
        let b = pp.byte_at(pos);
        if b >= 192 {
            if n - pos < 2 {
                proof {
                    assert(false);
                }
                return;
            }
            let target: usize = (b as usize - 192) * 256 + pp.byte_at(pos + 1) as usize;
            if target >= prev {
                proof {
                    assert(false);
                }
                return;
            }
            if fin.is_none() {
                fin = Some(pos + 2);
            }
            pos = target;
            prev = target;
        } else if b > 63 {
            proof {
                assert(false);
            }
            return;
        } else if b == 0 {
            // the terminator: the decoded name ends here, and so does the
            // new one, whose last byte is written over it
            proof {
                assert(c == c.subrange(0, i as int).push(0u8));
                assert(c.len() == i + 1);
                assert(c[i as int] == 0u8);
                if c == newn@ && old(out)@ == pkt {
                    assert(newn@[i as int] == 0u8);
                    assert(out@.update(pos as int, newn@[i as int]) =~= out@);
                }
            }
            let v = newn[i];
            proof {
                assert(spec_rewrite_name(out@, pkt, pos as int, prev as int, i as int, newn@)
                    == out@.update(pos as int, newn@[i as int]));
            }
            out.set(pos, v);
            return;
        } else {
            let chunk: usize = b as usize + 1;
            if chunk >= n - pos {
                proof {
                    assert(false);
                }
                return;
            }
            proof {
                let acc2 = c.subrange(0, i as int) + pkt.subrange(pos as int,
                    pos as int + chunk as int);
                lemma_name_scan_bounds(pkt, pos as int + chunk as int, prev as int, acc2,
                    opt_int(fin));
                assert(c.subrange(0, acc2.len() as int) == acc2);
                assert(i + chunk < c.len());
                assert forall|j: int| 0 <= j < chunk implies #[trigger] c[i + j] == pkt[pos + j] by {
                    assert(c[i + j] == c.subrange(0, acc2.len() as int)[i + j]);
                    assert(acc2[i + j] == pkt.subrange(pos as int, pos as int + chunk as int)[j]);
                }
            }
            let ghost out0: Seq<u8> = out@;
            let mut j: usize = 0;
            while j < chunk
                invariant
                    n == pkt.len(),
                    out@.len() == n,
                    pos < n,
                    pos + chunk < n,
                    j <= chunk,
                    i + chunk < c.len(),
                    nn == newn@.len(),
                    c.len() == newn@.len(),
                    forall|k: int| 0 <= k < chunk ==> #[trigger] c[i + k] == pkt[pos as int + k],
                    forall|k: int| 0 <= k < n && !(pos <= k < pos + j) ==> #[trigger] out@[k] == out0[k],
                    forall|k: int| 0 <= k < j ==> #[trigger] out@[pos + k] == newn@[i + k],
                decreases chunk - j,
            {
                let v = newn[i + j];
                out.set(pos + j, v);
                j = j + 1;
            }
            proof {
                assert(out@ =~= write_chunk(out0, pos as int, newn@, i as int, 1 + b as int)) by {
                    assert forall|k: int| 0 <= k < n implies
                        out@[k] == write_chunk(out0, pos as int, newn@, i as int,
                            1 + b as int)[k] by {
                        if pos <= k < pos + chunk {
                            let j2 = k - pos;
                            assert(out@[pos + j2] == newn@[i + j2]);
                        }
                    }
                }
                if c == newn@ && old(out)@ == pkt {
                    assert(out0 == pkt);
                    assert(out@ =~= pkt) by {
                        assert forall|k: int| 0 <= k < n implies out@[k] == pkt[k] by {
                            if pos <= k < pos + chunk {
                                assert(out@[k] == newn@[i + (k - pos)]);
                                assert(newn@[i + (k - pos)] == c[i + (k - pos)]);
                                assert(c[i + (k - pos)] == pkt[k]);
                            }
                        }
                    }
                }
                let acc2 = c.subrange(0, i as int) + pkt.subrange(pos as int,
                    pos as int + chunk as int);
                assert(c.subrange(0, i as int + chunk as int) =~= acc2);
            }
            i = i + chunk;
            pos = pos + chunk;
        }
    }
}

/// The raw name rewriter.
pub struct Renamer;

impl Renamer {
    /// Substitutes `new_name` for every name in the packet that decodes to
    /// exactly `old_name`.  Both are raw uncompressed names and must share
    /// one label-length shape, so that the substitution never moves a byte:
    /// differing shapes would force the whole packet's compression offsets
    /// to be rebuilt, and are rejected.  When nothing matches, the packet
    /// comes back unchanged — or, when `match_whole_packet` asks for a
    /// match, the "no match" failure is reported instead.
    ///
    /// The result is pinned exactly: it is the buffer with `new_name`
    /// written over every matched name's compression chain, whenever each
    /// matched name then reads back as `new_name` — which a final verified
    /// pass checks.  On the degenerate packets where that cannot hold (two
    /// matched chains, or one self-overlapping chain, sharing a byte under
    /// two different label positions), the packet comes back unchanged
    /// rather than half rewritten.
    #[verifier::loop_isolation(false)]
    pub fn rename_with_raw_names(
        pp: &ParsedPacket,
        old_name: &Vec<u8>,
        new_name: &Vec<u8>,
        match_whole_packet: bool,
    ) -> (r: Result<Vec<u8>, RenameError>)
        ensures
            r == Err::<Vec<u8>, RenameError>(RenameError::InvalidRawName)
                <==> !compatible_names(old_name@, new_name@),
            compatible_names(old_name@, new_name@) ==> ({
                let locs = matched_locs(pp@, old_name@);
                let rw = spec_rename_bytes(pp@.bytes, locs, new_name@);
                let good = forall|j: int| 0 <= j < locs.len()
                    ==> ((#[trigger] name_check(rw, locs[j])) matches Ok(p) && p.1 == new_name@);
                if locs.len() == 0 && match_whole_packet {
                    r == Err::<Vec<u8>, RenameError>(RenameError::NoMatch)
                } else {
                    r matches Ok(out)
                        && out@.len() == pp@.bytes.len()
                        && out@ == (if good { rw } else { pp@.bytes })
                        && (locs.len() == 0 ==> out@ == pp@.bytes)
                        && (old_name@ == new_name@ ==> out@ == pp@.bytes)
                }
            }),
            compatible_names(old_name@, new_name@) ==> (r matches Ok(out)
                ==> forall|k: int| 0 <= k < pp@.bytes.len() && out@[k] != pp@.bytes[k]
                    ==> exists|j: int| 0 <= j < matched_locs(pp@, old_name@).len()
                        && in_name_at(pp@.bytes, #[trigger] matched_locs(pp@, old_name@)[j],
                            matched_locs(pp@, old_name@)[j], 0, k)),
    {
        if !check_raw_name(old_name) || !check_raw_name(new_name)
            || !check_same_shape(old_name, new_name) {
            return Err(RenameError::InvalidRawName);
        }
        let ghost pkt: Seq<u8> = pp@.bytes;
        let ghost gml: Seq<int> = matched_locs(pp@, old_name@);
        let mut locs: Vec<usize> = Vec::new();
        match pp.offset_question() {
            Some(q) => {
                check_match(pp, q, old_name, &mut locs);
            },
            None => {},
        }
        let ghost q_s: Seq<int> = (match pp@.question {
            Some(q) => if name_matches_at(pkt, q, old_name@) { seq![q] } else { Seq::empty() },
            None => Seq::empty(),
        });
        proof {
            assert(locs@.len() == q_s.len());
            assert(forall|j: int| 0 <= j < q_s.len() ==> locs@[j] as int == #[trigger] q_s[j]);
        }
        let ghost l0: Seq<usize> = locs@;
        scan_section(pp, pp.offset_answers(), pp.ancount(), old_name, &mut locs);
        let ghost l1: Seq<usize> = locs@;
        scan_section(pp, pp.offset_nameservers(), pp.nscount(), old_name, &mut locs);
        let ghost l2: Seq<usize> = locs@;
        scan_section(pp, pp.offset_additional(), pp.arcount(), old_name, &mut locs);
        proof {
            let a_s = matched_locs_rrs(pkt, pp@.answers, pp@.an, old_name@);
            let n_s = matched_locs_rrs(pkt, pp@.nameservers, pp@.ns, old_name@);
            let r_s = matched_locs_rrs(pkt, pp@.additional, pp@.ar, old_name@);
            assert(gml == q_s + a_s + n_s + r_s);
            assert(locs@.len() == gml.len());
            assert forall|j: int| 0 <= j < gml.len() implies
                locs@[j] as int == #[trigger] gml[j] by {
                if j < q_s.len() {
                    assert(gml[j] == q_s[j]);
                } else if j < q_s.len() + a_s.len() {
                    assert(gml[j] == a_s[j - q_s.len()]);
                    assert(locs@[j] == l1[j]);
                    assert(l1[l0.len() + (j - l0.len())] as int == a_s[j - l0.len()]);
                } else if j < q_s.len() + a_s.len() + n_s.len() {
                    assert(gml[j] == n_s[j - q_s.len() - a_s.len()]);
                    assert(locs@[j] == l2[j]);
                    assert(l2[l1.len() + (j - l1.len())] as int == n_s[j - l1.len()]);
                } else {
                    assert(gml[j] == r_s[j - q_s.len() - a_s.len() - n_s.len()]);
                    assert(locs@[l2.len() + (j - l2.len())] as int == r_s[j - l2.len()]);
                }
            }
        }
        let total: usize = locs.len();
        if total == 0 && match_whole_packet {
            return Err(RenameError::NoMatch);
        }
        let mut out: Vec<u8> = pp.packet_copy();
        proof {
            assert(gml.subrange(0, 0) =~= Seq::<int>::empty());
        }
        let mut k: usize = 0;
        while k < total
            invariant
                total == locs@.len(),
                locs@.len() == gml.len(),
                forall|j: int| 0 <= j < gml.len() ==> locs@[j] as int == #[trigger] gml[j],
                all_matched(pkt, locs@, old_name@),
                k <= total,
                pkt == pp@.bytes,
                out@.len() == pkt.len(),
                old_name@.len() == new_name@.len(),
                out@ == spec_rename_bytes(pkt, gml.subrange(0, k as int), new_name@),
                old_name@ == new_name@ ==> out@ == pkt,
            decreases total - k,
        {
            let loc = locs[k];
            proof {
                assert(name_matches_at(pkt, loc as int, old_name@));
                assert(gml.subrange(0, k + 1).drop_last() =~= gml.subrange(0, k as int));
                assert(gml.subrange(0, k + 1).last() == gml[k as int]);
            }
            rewrite_at(&mut out, pp, loc, new_name);
            proof {
                assert(out@ == spec_rename_bytes(pkt, gml.subrange(0, k + 1), new_name@));
            }
            k = k + 1;
        }
        proof {
            assert(gml.subrange(0, total as int) =~= gml);
        }
        let ghost rw: Seq<u8> = spec_rename_bytes(pkt, gml, new_name@);
        let mut k2: usize = 0;
        while k2 < total
            invariant
                total == locs@.len(),
                locs@.len() == gml.len(),
                forall|j: int| 0 <= j < gml.len() ==> locs@[j] as int == #[trigger] gml[j],
                k2 <= total,
                out@ == rw,
                forall|j: int| 0 <= j < k2 ==> ((#[trigger] name_check(rw, gml[j]))
                    matches Ok(p) && p.1 == new_name@),
            decreases total - k2,
        {
            let loc = locs[k2];
            let ok = match resolve_name(&out, loc) {
                Ok(v) => bytes_eq(&v.0, new_name),
                Err(_) => false,
            };
            if !ok {
                proof {
                    assert(!(name_check(rw, gml[k2 as int]) matches Ok(p) && p.1 == new_name@));
                }
                return Ok(pp.packet_copy());
            }
            k2 = k2 + 1;
        }
        proof {
            assert forall|k: int| 0 <= k < pkt.len() && out@[k] != pkt[k] implies
                exists|j: int| 0 <= j < gml.len()
                    && in_name_at(pkt, #[trigger] gml[j], gml[j], 0, k) by {
                lemma_rename_bytes_frame(pkt, gml, new_name@, k);
            }
        }
        Ok(out)
    }
}

} // verus!
