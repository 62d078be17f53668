//! Little-endian numbers, NUL-terminated strings, and file offsets of RVAs.

use vstd::prelude::*;

use super::{PeError, Section, SectionModel};
use crate::text::{lossy_string, utf8_lossy};

verus! {

/// The 16-bit little-endian number at `off`.
pub open spec fn le16(s: Seq<u8>, off: int) -> int {
    s[off] + 256 * s[off + 1]
}

/// The 32-bit little-endian number at `off`.
pub open spec fn le32(s: Seq<u8>, off: int) -> int {
    le16(s, off) + 65536 * le16(s, off + 2)
}

/// The 64-bit little-endian number at `off`.
pub open spec fn le64(s: Seq<u8>, off: int) -> int {
    le32(s, off) + 4294967296 * le32(s, off + 4)
}

/// `width` bytes from `off` lie inside `s`.
pub open spec fn fits(s: Seq<u8>, off: int, width: int) -> bool {
    0 <= off && off + width <= s.len()
}

/// The `u16` at `off`, or the error for reading past the end.
pub open spec fn spec_u16_at(s: Seq<u8>, off: int) -> Result<u16, PeError> {
    if fits(s, off, 2) {
        Ok(le16(s, off) as u16)
    } else {
        Err(PeError::ReadOutOfBounds { offset: off as u64, width: 2 })
    }
}

/// The `u32` at `off`, or the error for reading past the end.
pub open spec fn spec_u32_at(s: Seq<u8>, off: int) -> Result<u32, PeError> {
    if fits(s, off, 4) {
        Ok(le32(s, off) as u32)
    } else {
        Err(PeError::ReadOutOfBounds { offset: off as u64, width: 4 })
    }
}

/// The `u64` at `off`, or the error for reading past the end.
pub open spec fn spec_u64_at(s: Seq<u8>, off: int) -> Result<u64, PeError> {
    if fits(s, off, 8) {
        Ok(le64(s, off) as u64)
    } else {
        Err(PeError::ReadOutOfBounds { offset: off as u64, width: 8 })
    }
}

/// Reads the little-endian `u16` at `off`.
pub fn u16_at(buf: &[u8], off: u64) -> (r: Result<u16, PeError>)
    ensures
        r == spec_u16_at(buf@, off as int),
{
    let len = buf.len() as u64;
    if off > len || len - off < 2 {
        return Err(PeError::ReadOutOfBounds { offset: off, width: 2 });
    }
    let i = off as usize;
    let v = buf[i] as u16 + 256 * (buf[i + 1] as u16);
    Ok(v)
}

/// Reads the little-endian `u32` at `off`.
pub fn u32_at(buf: &[u8], off: u64) -> (r: Result<u32, PeError>)
    ensures
        r == spec_u32_at(buf@, off as int),
{
    let len = buf.len() as u64;
    if off > len || len - off < 4 {
        return Err(PeError::ReadOutOfBounds { offset: off, width: 4 });
    }
    let i = off as usize;
    let v = buf[i] as u32 + 256 * (buf[i + 1] as u32) + 65536 * (buf[i + 2] as u32) + 16777216 * (
    buf[i + 3] as u32);
    Ok(v)
}

/// Reads the little-endian `u64` at `off`.
pub fn u64_at(buf: &[u8], off: u64) -> (r: Result<u64, PeError>)
    ensures
        r == spec_u64_at(buf@, off as int),
{
    let len = buf.len() as u64;
    if off > len || len - off < 8 {
        return Err(PeError::ReadOutOfBounds { offset: off, width: 8 });
    }
    let lo = u32_at(buf, off);
    let hi = u32_at(buf, off + 4);
    match (lo, hi) {
        (Ok(lo), Ok(hi)) => Ok(lo as u64 + 4294967296 * (hi as u64)),
        _ => Err(PeError::ReadOutOfBounds { offset: off, width: 8 }),
    }
}

/// How many bytes of `s` come before its first NUL (all of them if none is NUL).
pub open spec fn nul_index(s: Seq<u8>) -> nat
    decreases s.len(),
{
    if s.len() == 0 || s[0] == 0 {
        0
    } else {
        1 + nul_index(s.drop_first())
    }
}

/// The bytes of `s` before its first NUL.
pub open spec fn until_nul(s: Seq<u8>) -> Seq<u8> {
    s.take(nul_index(s) as int)
}

/// `k` is where the first NUL of `s` stands, or the length of `s` if it has none.
pub proof fn lemma_nul_index(s: Seq<u8>, k: int)
    requires
        0 <= k <= s.len(),
        forall|j: int| 0 <= j < k ==> s[j] != 0,
        k == s.len() || s[k] == 0,
    ensures
        nul_index(s) == k,
    decreases k,
{
    if k > 0 {
        let t = s.drop_first();
        assert forall|j: int| 0 <= j < k - 1 implies t[j] != 0 by {
            assert(t[j] == s[j + 1]);
        }
        if k < s.len() {
            assert(t[k - 1] == s[k]);
        }
        lemma_nul_index(t, k - 1);
    }
}

/// The bytes before the first NUL hold no NUL.
pub proof fn lemma_until_nul_has_no_nul(s: Seq<u8>)
    ensures
        !until_nul(s).contains(0u8),
        nul_index(s) <= s.len(),
    decreases s.len(),
{
    if s.len() > 0 && s[0] != 0 {
        let t = s.drop_first();
        lemma_until_nul_has_no_nul(t);
        assert forall|j: int| 0 <= j < until_nul(s).len() implies until_nul(s)[j] != 0 by {
            if j > 0 {
                assert(until_nul(s)[j] == until_nul(t)[j - 1]);
            }
        }
    }
}

/// The text of the NUL-terminated string at `off`: empty where `off` is past the end.
pub open spec fn spec_cstr_at(s: Seq<u8>, off: int) -> Seq<char> {
    if 0 <= off <= s.len() {
        utf8_lossy(until_nul(s.skip(off)))
    } else {
        utf8_lossy(Seq::empty())
    }
}

/// The bytes of `buf[start..end]` that come before the first NUL.
pub fn bytes_until_nul(buf: &[u8], start: usize, end: usize) -> (v: Vec<u8>)
    requires
        start <= end <= buf.len(),
    ensures
        v@ == until_nul(buf@.subrange(start as int, end as int)),
{
    let mut bytes: Vec<u8> = Vec::new();
    let mut i = start;
    while i < end && buf[i] != 0
        invariant
            start <= i <= end <= buf.len(),
            bytes@ == buf@.subrange(start as int, i as int),
            forall|j: int| start <= j < i ==> buf@[j] != 0,
        decreases end - i,
    {
        bytes.push(buf[i]);
        i = i + 1;
    }
    proof {
        let t = buf@.subrange(start as int, end as int);
        let k = i - start;
        assert forall|j: int| 0 <= j < k implies t[j] != 0 by {
            assert(t[j] == buf@[start + j]);
        }
        if k < t.len() {
            assert(t[k] == buf@[i as int]);
        }
        lemma_nul_index(t, k);
        assert(bytes@ =~= until_nul(t));
    }
    bytes
}

/// Reads the NUL-terminated string at `off`, decoding it as lossy UTF-8.
pub fn cstr_at(buf: &[u8], off: u64) -> (r: String)
    ensures
        r@ == spec_cstr_at(buf@, off as int),
        !r@.contains('\0'),
{
    let len = buf.len() as u64;
    if off <= len {
        let bytes = bytes_until_nul(buf, off as usize, buf.len());
        assert(buf@.subrange(off as int, buf.len() as int) =~= buf@.skip(off as int));
        proof {
            lemma_until_nul_has_no_nul(buf@.skip(off as int));
        }
        lossy_string(bytes.as_slice())
    } else {
        let bytes: Vec<u8> = Vec::new();
        assert(bytes@ =~= Seq::<u8>::empty());
        lossy_string(bytes.as_slice())
    }
}

} // verus!

verus! {

/// The end of a section's address range, `virtual_address + max(virtual_size,
/// raw_size)`, held at `u32::MAX`.
pub open spec fn section_end(s: SectionModel) -> int {
    let span = if s.virtual_size >= s.raw_size {
        s.virtual_size
    } else {
        s.raw_size
    };
    if s.virtual_address + span > u32::MAX {
        u32::MAX as int
    } else {
        s.virtual_address + span
    }
}

/// Section `s` holds the relative virtual address `rva`.
pub open spec fn covers(s: SectionModel, rva: u32) -> bool {
    s.virtual_address <= rva < section_end(s)
}

/// The file offset that section `s` gives to `rva`: `rva - virtual_address +
/// raw_offset`, without any wrap-around (it may exceed `u32::MAX`, where a
/// later read past the end of the file fails).
pub open spec fn offset_in(s: SectionModel, rva: u32) -> u64 {
    (rva - s.virtual_address + s.raw_offset) as u64
}

/// The first section, from index `i` on, that holds `rva`.
pub open spec fn first_covering(secs: Seq<SectionModel>, rva: u32, i: int) -> Option<int>
    decreases secs.len() - i,
{
    if i < 0 || i >= secs.len() {
        None
    } else if covers(secs[i], rva) {
        Some(i)
    } else {
        first_covering(secs, rva, i + 1)
    }
}

/// Where `rva` lies in the file: the offset that the first section holding it
/// gives, or `None` if no section holds it.
pub open spec fn spec_rva_to_offset(secs: Seq<SectionModel>, rva: u32) -> Option<u64> {
    match first_covering(secs, rva, 0) {
        Some(i) => Some(offset_in(secs[i], rva)),
        None => None,
    }
}

/// Finds the file offset of a relative virtual address through the
/// section table.
pub fn rva_to_offset(sections: &Vec<Section>, rva: u32) -> (r: Option<u64>)
    ensures
        r == spec_rva_to_offset(sections.deep_view(), rva),
        r matches Some(o) ==> o <= 2 * (u32::MAX as int),
{
    let ghost secs = sections.deep_view();
    let mut i: usize = 0;
    while i < sections.len()
        invariant
            0 <= i <= sections.len(),
            secs == sections.deep_view(),
            first_covering(secs, rva, 0) == first_covering(secs, rva, i as int),
        decreases sections.len() - i,
    {
        let s = &sections[i];
        assert(secs[i as int] == s.deep_view());
        let span = if s.virtual_size >= s.raw_size {
            s.virtual_size
        } else {
            s.raw_size
        };
        let end = s.virtual_address.saturating_add(span);
        if rva >= s.virtual_address && rva < end {
            let off = (rva - s.virtual_address) as u64 + s.raw_offset as u64;
            return Some(off);
        }
        i = i + 1;
    }
    None
}

/// The search from index `i` finds the first section at or after `i` that
/// holds `rva`, or none if none of them does.
proof fn lemma_first_covering(secs: Seq<SectionModel>, rva: u32, i: int)
    requires
        0 <= i <= secs.len(),
    ensures
        first_covering(secs, rva, i) matches Some(m) ==> i <= m < secs.len() && covers(secs[m], rva)
            && forall|j: int| i <= j < m ==> !covers(#[trigger] secs[j], rva),
        first_covering(secs, rva, i) is None ==> forall|j: int|
            i <= j < secs.len() ==> !covers(#[trigger] secs[j], rva),
    decreases secs.len() - i,
{
    if i < secs.len() && !covers(secs[i], rva) {
        lemma_first_covering(secs, rva, i + 1);
    }
}

/// Section `sec` holds `rva`: the RVA is at or after the section's virtual
/// address and less than the larger of its virtual and raw sizes past it,
/// the end being held at `u32::MAX`.
pub open spec fn holds_rva(sec: SectionModel, rva: u32) -> bool {
    let size: int = if sec.virtual_size > sec.raw_size {
        sec.virtual_size as int
    } else {
        sec.raw_size as int
    };
    &&& sec.virtual_address <= rva
    &&& rva < sec.virtual_address + size
    &&& rva < u32::MAX
}

/// An RVA has a file offset exactly when some section holds it; the first
/// section that does decides, and the offset is the RVA's distance into
/// that section added to the section's raw data offset.
pub proof fn lemma_rva_offset(secs: Seq<SectionModel>, rva: u32)
    ensures
        spec_rva_to_offset(secs, rva) is None <==> forall|i: int|
            0 <= i < secs.len() ==> !holds_rva(#[trigger] secs[i], rva),
        forall|i: int|
            0 <= i < secs.len() && holds_rva(#[trigger] secs[i], rva) && (forall|j: int|
                0 <= j < i ==> !holds_rva(#[trigger] secs[j], rva)) ==> spec_rva_to_offset(
                secs,
                rva,
            ) == Some((rva - secs[i].virtual_address + secs[i].raw_offset) as u64),
{
    lemma_first_covering(secs, rva, 0);
    assert forall|i: int| 0 <= i < secs.len() implies holds_rva(#[trigger] secs[i], rva) == covers(
        secs[i],
        rva,
    ) by {}
    if let Some(m) = first_covering(secs, rva, 0) {
        assert forall|i: int|
            0 <= i < secs.len() && holds_rva(#[trigger] secs[i], rva) && (forall|j: int|
                0 <= j < i ==> !holds_rva(#[trigger] secs[j], rva)) implies i == m by {
            if i < m {
                assert(!covers(secs[i], rva));
            } else if i > m {
                assert(!holds_rva(secs[m], rva));
            }
        }
    }
}

} // verus!
