//! The base relocation table of a PE image: which words to patch when the image
//! is loaded at another address.
use vstd::prelude::*;

verus! {

/// Size of a relocation block header: the page address and the block size.
pub const BLOCK_HEADER_SIZE: usize = 8;

/// The little-endian 16-bit number at `pos`.
pub open spec fn spec_u16_le(b: Seq<u8>, pos: int) -> u32 {
    (b[pos] as u32 + 256 * (b[pos + 1] as u32)) as u32
}

/// The little-endian 32-bit number at `pos`.
pub open spec fn spec_u32_le(b: Seq<u8>, pos: int) -> u32 {
    (b[pos] as u32 + 256 * (b[pos + 1] as u32) + 65536 * (b[pos + 2] as u32) + 16777216 * (
    b[pos + 3] as u32)) as u32
}

/// The offsets that the first `count` entries of a block at `pos` patch: the
/// page address plus the low twelve bits of each entry whose low twelve bits are
/// not all zero.
pub open spec fn spec_block_offsets(table: Seq<u8>, pos: int, page: u32, count: nat) -> Seq<u64>
    decreases count,
{
    if count == 0 {
        Seq::empty()
    } else {
        let prev = spec_block_offsets(table, pos, page, (count - 1) as nat);
        let entry = spec_u16_le(table, pos + 8 + 2 * (count - 1));
        if entry & 0xFFF != 0 {
            prev.push((page as u64 + (entry & 0xFFF) as u64) as u64)
        } else {
            prev
        }
    }
}

/// The offsets patched by the blocks from `pos` on, up to the block of size
/// zero; `None` when a block header or a block does not fit in the table, or a
/// block is smaller than its header.
pub open spec fn spec_relocations(table: Seq<u8>, pos: nat) -> Option<Seq<u64>>
    decreases table.len() - pos,
{
    if pos + 8 > table.len() {
        None
    } else {
        let page = spec_u32_le(table, pos as int);
        let size = spec_u32_le(table, (pos + 4) as int);
        if size == 0 {
            Some(Seq::empty())
        } else if size < 8 || pos + size > table.len() {
            None
        } else {
            let here = spec_block_offsets(table, pos as int, page, ((size - 8) / 2) as nat);
            match spec_relocations(table, (pos + size) as nat) {
                Some(rest) => Some(here + rest),
                None => None,
            }
        }
    }
}

/// Entry `j` of the block at `pos`: the 16-bit word after the header.
pub open spec fn spec_entry(table: Seq<u8>, pos: int, j: int) -> u32 {
    spec_u16_le(table, pos + 8 + 2 * j)
}

/// A block patches exactly the entries whose low twelve bits are not all zero,
/// each at the page address plus those twelve bits, so every patched word lies
/// in the block's page, after its first byte.
pub proof fn lemma_block_offsets(table: Seq<u8>, pos: int, page: u32, count: nat)
    ensures
        forall|x: u64|
            #[trigger] spec_block_offsets(table, pos, page, count).contains(x) <==> exists|j: int|
                0 <= j < count && #[trigger] spec_entry(table, pos, j) & 0xFFF != 0 && x == (page
                    as u64 + (spec_entry(table, pos, j) & 0xFFF) as u64),
        forall|i: int|
            0 <= i < spec_block_offsets(table, pos, page, count).len() ==> page < #[trigger] spec_block_offsets(
                table,
                pos,
                page,
                count,
            )[i] < page + 0x1000,
    decreases count,
{
    if count > 0 {
        let prev = spec_block_offsets(table, pos, page, (count - 1) as nat);
        lemma_block_offsets(table, pos, page, (count - 1) as nat);
        let e = spec_entry(table, pos, count - 1);
        assert(forall|w: u32| #[trigger] (w & 0xFFF) <= 0xFFF) by (bit_vector);
        let s = spec_block_offsets(table, pos, page, count);
        assert forall|x: u64| #[trigger] s.contains(x) <==> exists|j: int|
            0 <= j < count && #[trigger] spec_entry(table, pos, j) & 0xFFF != 0 && x == (page as u64
                + (spec_entry(table, pos, j) & 0xFFF) as u64) by {
            if s.contains(x) {
                if prev.contains(x) {
                } else {
                    assert(e & 0xFFF != 0);
                    let k = choose|k: int| 0 <= k < s.len() && s[k] == x;
                    assert(k == prev.len());
                }
            }
            if exists|j: int|
                0 <= j < count && #[trigger] spec_entry(table, pos, j) & 0xFFF != 0 && x == (page
                    as u64 + (spec_entry(table, pos, j) & 0xFFF) as u64) {
                let j = choose|j: int|
                    0 <= j < count && #[trigger] spec_entry(table, pos, j) & 0xFFF != 0 && x == (page
                        as u64 + (spec_entry(table, pos, j) & 0xFFF) as u64);
                if j < count - 1 {
                    assert(prev.contains(x));
                    let k = choose|k: int| 0 <= k < prev.len() && prev[k] == x;
                    assert(s[k] == x);
                } else {
                    assert(s[prev.len() as int] == x);
                }
            }
        }
        assert forall|i: int| 0 <= i < s.len() implies page < #[trigger] s[i] < page + 0x1000 by {
            if i < prev.len() {
                assert(s[i] == prev[i]);
            }
        }
    }
}

/// The offsets read from a table hold, for a block that is not the last, every
/// entry of the block with non-zero low twelve bits as the page address plus
/// those bits, and every offset of the blocks after it.
pub proof fn lemma_relocations_cover_block(table: Seq<u8>, pos: nat)
    requires
        spec_relocations(table, pos) is Some,
        pos + 8 <= table.len(),
        spec_u32_le(table, (pos + 4) as int) != 0,
    ensures
        ({
            let v = spec_relocations(table, pos).unwrap();
            let page = spec_u32_le(table, pos as int);
            let size = spec_u32_le(table, (pos + 4) as int);
            &&& 8 <= size
            &&& forall|j: int|
                0 <= j < (size - 8) / 2 && #[trigger] spec_entry(table, pos as int, j) & 0xFFF != 0
                    ==> v.contains((page as u64 + (spec_entry(table, pos as int, j) & 0xFFF) as u64) as u64)
            &&& spec_relocations(table, (pos + size) as nat) matches Some(w) && forall|x: u64|
                #[trigger] w.contains(x) ==> v.contains(x)
        }),
{
    let v = spec_relocations(table, pos).unwrap();
    let page = spec_u32_le(table, pos as int);
    let size = spec_u32_le(table, (pos + 4) as int);
    let count = ((size - 8) / 2) as nat;
    let here = spec_block_offsets(table, pos as int, page, count);
    let w = spec_relocations(table, (pos + size) as nat).unwrap();
    assert(v == here + w);
    lemma_block_offsets(table, pos as int, page, count);
    assert(forall|e: u32| #[trigger] (e & 0xFFF) <= 0xFFF) by (bit_vector);
    assert forall|j: int|
        0 <= j < (size - 8) / 2 && #[trigger] spec_entry(table, pos as int, j) & 0xFFF != 0
            implies v.contains((page as u64 + (spec_entry(table, pos as int, j) & 0xFFF) as u64) as u64) by {
        let x = (page as u64 + (spec_entry(table, pos as int, j) & 0xFFF) as u64) as u64;
        assert(here.contains(x));
        let k = choose|k: int| 0 <= k < here.len() && here[k] == x;
        assert(v[k] == x);
    }
    assert forall|x: u64| #[trigger] w.contains(x) implies v.contains(x) by {
        let k = choose|k: int| 0 <= k < w.len() && w[k] == x;
        assert(v[here.len() + k] == x);
    }
}

fn read_u16_le(b: &[u8], pos: usize) -> (v: u32)
    requires
        pos + 2 <= b@.len(),
    ensures
        v == spec_u16_le(b@, pos as int),
{
    b[pos] as u32 + 256 * (b[pos + 1] as u32)
}

fn read_u32_le(b: &[u8], pos: usize) -> (v: u32)
    requires
        pos + 4 <= b@.len(),
    ensures
        v == spec_u32_le(b@, pos as int),
{
    b[pos] as u32 + 256 * (b[pos + 1] as u32) + 65536 * (b[pos + 2] as u32) + 16777216 * (b[pos
        + 3] as u32)
}

/// Offsets from the image start of the words the relocation table says to
/// patch, block after block, up to the block of size zero; `None` when the
/// table is cut short or holds a block smaller than its header.
pub fn relocation_offsets(table: &[u8]) -> (r: Option<Vec<u64>>)
    ensures
        match r {
            Some(v) => spec_relocations(table@, 0) == Some(v@),
            None => spec_relocations(table@, 0) is None,
        },
{
    let mut offsets: Vec<u64> = Vec::new();
    let mut pos: usize = 0;
    loop
        invariant
            pos <= table@.len(),
            spec_relocations(table@, 0) == match spec_relocations(table@, pos as nat) {
                Some(rest) => Some(offsets@ + rest),
                None => None,
            },
        decreases table@.len() - pos,
    {
        if table.len() < BLOCK_HEADER_SIZE || pos > table.len() - BLOCK_HEADER_SIZE {
            return None;
        }
        let page = read_u32_le(table, pos);
        let size = read_u32_le(table, pos + 4);
        if size == 0 {
            assert(offsets@ + Seq::<u64>::empty() =~= offsets@);
            return Some(offsets);
        }
        if size < 8 || size as usize > table.len() - pos {
            return None;
        }
        let count = ((size - 8) / 2) as usize;
        let ghost start = offsets@;
        let mut i: usize = 0;
        while i < count
            invariant
                i <= count,
                count == (size - 8) / 2,
                pos + size <= table.len(),
                table.len() == table@.len(),
                size >= 8,
                offsets@ == start + spec_block_offsets(table@, pos as int, page, i as nat),
            decreases count - i,
        {
            assert(2 * i + 2 <= size - 8);
            let entry = read_u16_le(table, pos + 8 + 2 * i);
            if entry & 0xFFF != 0 {
                offsets.push(page as u64 + (entry & 0xFFF) as u64);
            }
            i = i + 1;
            assert(offsets@ =~= start + spec_block_offsets(table@, pos as int, page, i as nat));
        }
        proof {
            let here = spec_block_offsets(table@, pos as int, page, count as nat);
            match spec_relocations(table@, (pos + size) as nat) {
                Some(rest) => {
                    assert(start + (here + rest) =~= offsets@ + rest);
                },
                None => {},
            }
        }
        pos = pos + size as usize;
    }
}

} // verus!
