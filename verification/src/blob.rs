//! The dimension records that the C API exchanges for blobs and network
//! inputs: a rank and up to eight extents.
use vstd::prelude::*;

verus! {

/// The number of extents a dimension record holds.
pub const MAX_RANK: u64 = 8;

/// The bytes of one element of a 32-bit floating-point blob.
pub const FP32_BYTES: usize = 4;

/// The extents that a dimension record of rank `ranks` describes.
pub open spec fn spec_dims_from_raw(ranks: nat, raw: Seq<u64>) -> Seq<usize> {
    Seq::new(ranks, |i: int| raw[i] as usize)
}

/// Reads the first `ranks` extents of a dimension record.
pub fn dims_from_raw(ranks: u64, raw: &[u64; 8]) -> (r: Vec<usize>)
    requires
        ranks <= MAX_RANK,
    ensures
        r@ == spec_dims_from_raw(ranks as nat, raw@),
        r@.len() == ranks,
        forall|i: int| 0 <= i < ranks ==> #[trigger] r@[i] == raw@[i] as usize,
{
    let n = ranks as usize;
    let mut r: Vec<usize> = Vec::new();
    let mut i: usize = 0;
    while i < n
        invariant
            n == ranks,
            ranks <= MAX_RANK,
            i <= n,
            r@ =~= spec_dims_from_raw(i as nat, raw@),
            r@.len() == i,
            forall|k: int| 0 <= k < i ==> #[trigger] r@[k] == raw@[k] as usize,
        decreases n - i,
    {
        r.push(raw[i] as usize);
        i = i + 1;
    }
    r
}

/// The record that describes a blob to the C API: its rank, its extents and
/// its size in bytes.
pub struct TensorDesc {
    pub ranks: u64,
    pub dims: [u64; 8],
    pub byte_size: u64,
}

/// The extents that the record for a blob of shape `shape` holds: the first
/// four extents of the shape, then zeros.
pub open spec fn desc_dims(shape: Seq<usize>) -> Seq<u64> {
    seq![shape[0] as u64, shape[1] as u64, shape[2] as u64, shape[3] as u64, 0u64, 0u64, 0u64, 0u64]
}

/// The bytes of a blob of 32-bit floats whose first four extents are those
/// of `shape`.
pub open spec fn desc_byte_size(shape: Seq<usize>) -> int {
    shape[0] * shape[1] * shape[2] * shape[3] * FP32_BYTES
}

/// Each partial product in the computation of the byte size, taken from the
/// left, fits in a `usize`.
pub open spec fn desc_size_fits(shape: Seq<usize>) -> bool {
    &&& shape[0] * shape[1] <= usize::MAX
    &&& shape[0] * shape[1] * shape[2] <= usize::MAX
    &&& shape[0] * shape[1] * shape[2] * shape[3] <= usize::MAX
    &&& desc_byte_size(shape) <= usize::MAX
}

/// Describes a blob of 32-bit floats of shape `shape` in the batch,
/// channel, height, width layout. Only the first four extents are recorded,
/// while the rank is that of the shape.
pub fn tensor_desc_for_shape(shape: &[usize]) -> (r: TensorDesc)
    requires
        shape@.len() >= 4,
        desc_size_fits(shape@),
    ensures
        r.ranks == shape@.len(),
        r.dims@ == desc_dims(shape@),
        r.byte_size == desc_byte_size(shape@),
        r.dims@.len() == MAX_RANK,
        forall|i: int| 0 <= i < 4 ==> #[trigger] r.dims@[i] == shape@[i] as u64,
        forall|i: int| 4 <= i < MAX_RANK ==> #[trigger] r.dims@[i] == 0,
        r.byte_size == shape@[0] * shape@[1] * shape@[2] * shape@[3] * 4,
{
    let d0 = shape[0];
    let d1 = shape[1];
    let d2 = shape[2];
    let d3 = shape[3];
    let size: usize = d0 * d1 * d2 * d3 * FP32_BYTES;
    let dims: [u64; 8] = [d0 as u64, d1 as u64, d2 as u64, d3 as u64, 0, 0, 0, 0];
    assert(dims@ =~= desc_dims(shape@));
    TensorDesc { ranks: shape.len() as u64, dims, byte_size: size as u64 }
}

/// Describing a four-dimensional blob and reading its record back gives the
/// shape that was described.
pub proof fn lemma_desc_dims_round_trip(shape: Seq<usize>)
    requires
        shape.len() == 4,
    ensures
        spec_dims_from_raw(shape.len(), desc_dims(shape)) == shape,
{
    assert(spec_dims_from_raw(shape.len(), desc_dims(shape)) =~= shape);
}


/// Whether `tensor_desc_for_shape` accepts a shape: it has four extents or
/// more, and its byte size is computed without overflow.
pub fn describable_shape(shape: &[usize]) -> (b: bool)
    ensures
        b == (shape@.len() >= 4 && desc_size_fits(shape@)),
        b == (shape@.len() >= 4
            && shape@[0] * shape@[1] <= usize::MAX
            && shape@[0] * shape@[1] * shape@[2] <= usize::MAX
            && shape@[0] * shape@[1] * shape@[2] * shape@[3] <= usize::MAX
            && shape@[0] * shape@[1] * shape@[2] * shape@[3] * 4 <= usize::MAX),
{
    if shape.len() < 4 {
        return false;
    }
    match shape[0].checked_mul(shape[1]) {
        None => false,
        Some(p1) => match p1.checked_mul(shape[2]) {
            None => false,
            Some(p2) => match p2.checked_mul(shape[3]) {
                None => false,
                Some(p3) => p3.checked_mul(FP32_BYTES).is_some(),
            },
        },
    }
}


/// A dimension record of rank `ranks` reads as exactly its first `ranks`
/// extents, each at its own position.
pub proof fn lemma_dims_from_raw_keeps_extents(ranks: nat, raw: Seq<u64>)
    ensures
        spec_dims_from_raw(ranks, raw).len() == ranks,
        forall|i: int| 0 <= i < ranks ==> #[trigger] spec_dims_from_raw(ranks, raw)[i] == raw[i] as usize,
{
}

/// The record of a blob holds its first four extents in order, then zeros,
/// and its byte size is four bytes for each element of those four extents.
pub proof fn lemma_desc_records_shape(shape: Seq<usize>)
    requires
        shape.len() >= 4,
    ensures
        desc_dims(shape).len() == MAX_RANK,
        forall|i: int| 0 <= i < 4 ==> #[trigger] desc_dims(shape)[i] == shape[i] as u64,
        forall|i: int| 4 <= i < MAX_RANK ==> #[trigger] desc_dims(shape)[i] == 0,
        desc_byte_size(shape) == shape[0] * shape[1] * shape[2] * shape[3] * 4,
{
}

/// A shape is described exactly when it has four extents or more and every
/// partial product of the byte size, from the left, fits in a `usize`.
pub proof fn lemma_desc_size_fits_exactly(shape: Seq<usize>)
    requires
        shape.len() >= 4,
    ensures
        desc_size_fits(shape) <==> (shape[0] * shape[1] <= usize::MAX
            && shape[0] * shape[1] * shape[2] <= usize::MAX
            && shape[0] * shape[1] * shape[2] * shape[3] <= usize::MAX
            && shape[0] * shape[1] * shape[2] * shape[3] * 4 <= usize::MAX),
{
}

} // verus!
