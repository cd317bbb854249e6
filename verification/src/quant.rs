//! Storage geometry of the GGML tensor types.

use vstd::prelude::*;

verus! {

/// Elements and bytes of one block of a tensor type, where the type is known.
pub open spec fn block_geometry(type_id: u32) -> Option<(usize, usize)> {
    match type_id {
        0 => Some((1, 4)),
        1 => Some((1, 2)),
        2 => Some((32, 18)),
        6 => Some((32, 22)),
        8 => Some((32, 34)),
        12 => Some((256, 144)),
        13 => Some((256, 176)),
        14 => Some((256, 210)),
        _ => None,
    }
}

/// Returns `(block_elems, block_bytes)` for a GGML quant type.
pub fn quant_block_geometry(type_id: u32) -> (r: Option<(usize, usize)>)
    ensures
        r == block_geometry(type_id),
{
    match type_id {
        0 => Some((1, 4)),  // F32
        1 => Some((1, 2)),  // F16
        2 => Some((32, 18)),  // Q4_0
        6 => Some((32, 22)),  // Q5_0
        8 => Some((32, 34)),  // Q8_0
        12 => Some((256, 144)),  // Q4_K
        13 => Some((256, 176)),  // Q5_K
        14 => Some((256, 210)),  // Q6_K
        _ => None,
    }
}

/// Bytes of one row of `cols` elements. Types without a known block geometry
/// count as Q4_0.
pub open spec fn row_bytes(qt: u32, cols: int) -> int {
    match qt {
        0 => cols * 4,
        1 => cols * 2,
        2 => cols / 32 * 18,
        6 => cols / 32 * 22,
        8 => cols / 32 * 34,
        12 => cols / 256 * 144,
        13 => cols / 256 * 176,
        14 => cols / 256 * 210,
        _ => cols / 32 * 18,
    }
}

/// Byte size of one output row for a GGML quant type, given the in-dim
/// (columns) of the matrix. Used to split fused QKV and merged gate+up tensors.
pub fn quant_type_row_bytes(qt: u32, cols: u64) -> (r: u64)
    requires
        row_bytes(qt, cols as int) <= u64::MAX,
    ensures
        r == row_bytes(qt, cols as int),
{
    match qt {
        0 => cols * 4,
        1 => cols * 2,
        2 => (cols / 32) * 18,
        6 => (cols / 32) * 22,
        8 => (cols / 32) * 34,
        12 => (cols / 256) * 144,
        13 => (cols / 256) * 176,
        14 => (cols / 256) * 210,
        _ => (cols / 32) * 18,
    }
}

/// As [`quant_type_row_bytes`], with `None` where the row does not fit `u64`.
pub fn checked_row_bytes(qt: u32, cols: u64) -> (r: Option<u64>)
    ensures
        r == (if row_bytes(qt, cols as int) <= u64::MAX {
            Some(row_bytes(qt, cols as int) as u64)
        } else {
            None
        }),
{
    let fits: bool = match qt {
        0 => cols <= u64::MAX / 4,
        1 => cols <= u64::MAX / 2,
        8 => cols / 32 <= u64::MAX / 34,
        _ => true,
    };
    if fits {
        Some(quant_type_row_bytes(qt, cols))
    } else {
        None
    }
}

/// The shader's formula slot of a tensor type: F32=0 F16=1 Q4_0=2 Q5_0=3 Q8_0=4
/// Q4_K=5 Q5_K=6 Q6_K=7; unknown types fall to slot 0.
pub open spec fn formula_slot(type_id: u32) -> u32 {
    match type_id {
        0 => 0,
        1 => 1,
        2 => 2,
        6 => 3,
        8 => 4,
        12 => 5,
        13 => 6,
        14 => 7,
        _ => 0,
    }
}

/// Map a raw GGML quant type id to the formula-index slot the shaders consume.
pub fn formula_index_for_ggml(type_id: u32) -> (r: u32)
    ensures
        r == formula_slot(type_id),
{
    match type_id {
        0 => 0,
        1 => 1,
        2 => 2,
        6 => 3,
        8 => 4,
        12 => 5,
        13 => 6,
        14 => 7,
        _ => 0,
    }
}

/// Two known tensor types never share a formula slot, and the slots are the
/// eight that the shaders switch on.
pub proof fn law_formula_slots_are_distinct(a: u32, b: u32)
    requires
        block_geometry(a) is Some,
        block_geometry(b) is Some,
    ensures
        formula_slot(a) == formula_slot(b) ==> a == b,
        formula_slot(a) < 8,
{
}

/// For rows of whole blocks, the row stride is the block count times the block
/// size.
pub proof fn law_row_stride_counts_blocks(qt: u32, blocks: int)
    requires
        block_geometry(qt) is Some,
        blocks >= 0,
    ensures
        row_bytes(qt, blocks * (block_geometry(qt)->0).0) == blocks * (block_geometry(qt)->0).1,
{
    let elems = (block_geometry(qt)->0).0 as int;
    let bytes = (block_geometry(qt)->0).1 as int;
    assert(elems == 1 ==> blocks * elems == blocks) by (nonlinear_arith);
    assert(elems == 32 ==> blocks * elems == blocks * 32) by (nonlinear_arith);
    assert(elems == 256 ==> blocks * elems == blocks * 256) by (nonlinear_arith);
    assert(row_bytes(qt, blocks * elems) == bytes * blocks) by {
        assert(bytes == 4 || bytes == 2 || bytes == 18 || bytes == 22 || bytes == 34 || bytes
            == 144 || bytes == 176 || bytes == 210);
        assert(bytes == 4 ==> bytes * blocks == 4 * blocks) by (nonlinear_arith);
        assert(bytes == 2 ==> bytes * blocks == 2 * blocks) by (nonlinear_arith);
        assert(bytes == 18 ==> bytes * blocks == 18 * blocks) by (nonlinear_arith);
        assert(bytes == 22 ==> bytes * blocks == 22 * blocks) by (nonlinear_arith);
        assert(bytes == 34 ==> bytes * blocks == 34 * blocks) by (nonlinear_arith);
        assert(bytes == 144 ==> bytes * blocks == 144 * blocks) by (nonlinear_arith);
        assert(bytes == 176 ==> bytes * blocks == 176 * blocks) by (nonlinear_arith);
        assert(bytes == 210 ==> bytes * blocks == 210 * blocks) by (nonlinear_arith);
    }
    assert(bytes * blocks == blocks * bytes) by (nonlinear_arith);
}

/// The formula slots count the known tensor types in the order of their ids, from 0
/// on without a gap; types that are not known share the first slot.
pub proof fn law_formula_slots_count_types(a: u32, b: u32, slot: u32)
    ensures
        block_geometry(a) is Some && block_geometry(b) is Some && a < b ==> formula_slot(a)
            < formula_slot(b),
        block_geometry(a) is Some ==> formula_slot(a) < 8,
        slot < 8 ==> exists|t: u32| block_geometry(t) is Some && #[trigger] formula_slot(t) == slot,
        block_geometry(a) is None ==> formula_slot(a) == 0,
{
    if slot < 8 {
        let t: u32 = if slot < 3 {
            slot
        } else if slot == 3 {
            6
        } else if slot == 4 {
            8
        } else {
            (slot + 7) as u32
        };
        assert(formula_slot(t) == slot);
    }
}

/// Bits per element of a tensor type, without what its blocks have in common.
pub open spec fn element_bits(type_id: u32) -> int {
    match type_id {
        0 => 32,
        1 => 16,
        2 | 12 => 4,
        6 | 13 => 5,
        8 => 8,
        14 => 6,
        _ => 0,
    }
}

/// A block has its elements' bits and the scales that they share: none for plain
/// floats, one half-precision number for the blocks of 32, and for those of 256 two
/// of them with twelve bytes of packed scales or one with sixteen. The types that are
/// known are those with elements.
pub proof fn law_blocks_hold_elements_and_scales(type_id: u32)
    ensures
        block_geometry(type_id) is Some <==> element_bits(type_id) > 0,
        block_geometry(type_id) matches Some((elems, bytes)) ==> {
            &&& elems == 1 || elems == 32 || elems == 256
            &&& elems == 1 <==> type_id < 2
            &&& elems == 256 <==> type_id >= 12
            &&& bytes * 8 == elems * element_bits(type_id) + 8 * (if elems == 1 {
                0int
            } else if elems == 32 {
                2int
            } else if type_id == 14 {
                18int
            } else {
                16int
            })
        },
{
}

/// A type without a known geometry has the rows of Q4_0.
pub proof fn law_unknown_rows_count_as_q4_0(qt: u32, cols: int)
    ensures
        block_geometry(qt) is None ==> row_bytes(qt, cols) == row_bytes(2, cols),
{
}

} // verus!
