//! Dense tensors stored row-major, and the conversion of an image from
//! height-width-channel order to the batch-channel-height-width order that
//! the engine's inputs take.
use vstd::prelude::*;

verus! {

/// The number of elements of a tensor of shape `dims`.
pub open spec fn shape_size(dims: Seq<usize>) -> int
    decreases dims.len(),
{
    if dims.len() == 0 {
        1
    } else {
        shape_size(dims.drop_last()) * dims.last()
    }
}

/// The row-major offset of the multi-index `idx` in a tensor of shape `dims`.
pub open spec fn flat_index(dims: Seq<usize>, idx: Seq<int>) -> int
    decreases dims.len(),
{
    if dims.len() == 0 || idx.len() == 0 {
        0
    } else {
        flat_index(dims.drop_last(), idx.drop_last()) * dims.last() + idx.last()
    }
}

/// A dense tensor: its shape, and its elements in row-major order.
pub struct Tensor<T> {
    pub dims: Vec<usize>,
    pub data: Vec<T>,
}

impl<T> Tensor<T> {
    /// The tensor holds exactly as many elements as its shape has.
    pub open spec fn wf(&self) -> bool {
        self.data@.len() == shape_size(self.dims@)
    }

    /// The element at the multi-index `idx`.
    pub open spec fn at(&self, idx: Seq<int>) -> T {
        self.data@[flat_index(self.dims@, idx)]
    }

    /// The element at `[a, b, c]`.
    pub open spec fn at3(&self, a: int, b: int, c: int) -> T {
        self.at(seq![a, b, c])
    }

    /// The element at `[a, b, c, d]`.
    pub open spec fn at4(&self, a: int, b: int, c: int, d: int) -> T {
        self.at(seq![a, b, c, d])
    }
}


/// Whether the conversion reads any element: it does when the image has at
/// least one channel, one row and one column.
pub open spec fn conversion_reads(dims: Seq<usize>) -> bool {
    dims[0] > 0 && dims[1] > 0 && dims[2] > 0
}

/// The inputs that `convert_layout_from_nhwc_to_nchw` accepts: an image of
/// shape `[height, width, channels]`; a shape of higher rank only when the
/// conversion reads no element of it.
pub open spec fn convertible_shape(dims: Seq<usize>) -> bool {
    &&& dims.len() >= 3
    &&& conversion_reads(dims) ==> dims.len() == 3
}

/// The offset of `[a, b, c]` in a tensor of rank three is row-major.
pub proof fn lemma_flat_index_3(dims: Seq<usize>, a: int, b: int, c: int)
    requires
        dims.len() == 3,
    ensures
        flat_index(dims, seq![a, b, c]) == (a * dims[1] + b) * dims[2] + c,
{
    let idx = seq![a, b, c];
    let dims1 = dims.drop_last();
    let dims2 = dims1.drop_last();
    let dims3 = dims2.drop_last();
    assert(idx.drop_last() =~= seq![a, b]);
    assert(seq![a, b].drop_last() =~= seq![a]);
    assert(seq![a].drop_last() =~= Seq::<int>::empty());
    assert(flat_index(dims3, Seq::<int>::empty()) == 0);
    assert(flat_index(dims2, seq![a]) == 0 * dims2.last() + a);
    assert(flat_index(dims2, seq![a]) == a);
    assert(flat_index(dims1, seq![a, b]) == a * dims[1] + b);
}

/// The offset of `[a, b, c, d]` in a tensor of rank four is row-major.
pub proof fn lemma_flat_index_4(dims: Seq<usize>, a: int, b: int, c: int, d: int)
    requires
        dims.len() == 4,
    ensures
        flat_index(dims, seq![a, b, c, d]) == ((a * dims[1] + b) * dims[2] + c) * dims[3] + d,
{
    let idx = seq![a, b, c, d];
    assert(idx.drop_last() =~= seq![a, b, c]);
    lemma_flat_index_3(dims.drop_last(), a, b, c);
}

/// A shape of rank three has the product of its extents as its size.
pub proof fn lemma_shape_size_3(dims: Seq<usize>)
    requires
        dims.len() == 3,
    ensures
        shape_size(dims) == dims[0] * dims[1] * dims[2],
{
    let dims1 = dims.drop_last();
    let dims2 = dims1.drop_last();
    let dims3 = dims2.drop_last();
    assert(shape_size(dims3) == 1);
    assert(shape_size(dims2) == 1 * dims[0]);
    assert(shape_size(dims2) == dims[0]);
    assert(shape_size(dims1) == dims[0] * dims[1]);
}

/// A shape of rank four has the product of its extents as its size.
pub proof fn lemma_shape_size_4(dims: Seq<usize>)
    requires
        dims.len() == 4,
    ensures
        shape_size(dims) == dims[0] * dims[1] * dims[2] * dims[3],
{
    lemma_shape_size_3(dims.drop_last());
}

proof fn lemma_shape_size_has_zero(dims: Seq<usize>, k: int)
    requires
        0 <= k < dims.len(),
        dims[k] == 0,
    ensures
        shape_size(dims) == 0,
    decreases dims.len(),
{
    let prefix = shape_size(dims.drop_last());
    let last = dims.last() as int;
    if k < dims.len() - 1 {
        assert(dims.drop_last()[k] == 0);
        lemma_shape_size_has_zero(dims.drop_last(), k);
        assert(prefix * last == 0) by (nonlinear_arith) requires prefix == 0;
    } else {
        assert(prefix * last == 0) by (nonlinear_arith) requires last == 0;
    }
}

proof fn lemma_offset_in_bounds(h: int, w: int, c: int, d0: int, d1: int, d2: int)
    by (nonlinear_arith)
    requires
        0 <= h < d0,
        0 <= w < d1,
        0 <= c < d2,
    ensures
        0 <= h * d1,
        0 <= h * d1 + w < d0 * d1,
        d0 * d1 <= d0 * d1 * d2,
        0 <= (h * d1 + w) * d2 + c < d0 * d1 * d2,
{
    assert(h * d1 + w <= (d0 - 1) * d1 + d1 - 1);
    assert((h * d1 + w) * d2 + c <= (d0 * d1 - 1) * d2 + d2 - 1);
}

proof fn lemma_row_step(c: int, h: int, rows: int, cols: int)
    by (nonlinear_arith)
    ensures
        (c * rows + h) * cols + cols == (c * rows + h + 1) * cols,
        (c * rows + rows) * cols == (c + 1) * rows * cols,
{
}

/// Reorders an image of shape `[height, width, channels]`, indexed
/// `[h, w, c]`, into a batch of one of shape `[1, channels, height, width]`,
/// indexed `[0, c, h, w]`.
pub fn convert_layout_from_nhwc_to_nchw<T: Copy>(input: &Tensor<T>) -> (r: Tensor<T>)
    requires
        input.wf(),
        convertible_shape(input.dims@),
    ensures
        r.wf(),
        r.dims@ == seq![1usize, input.dims@[2], input.dims@[0], input.dims@[1]],
        forall|c: int, h: int, w: int|
            0 <= c < input.dims@[2] && 0 <= h < input.dims@[0] && 0 <= w < input.dims@[1]
                ==> #[trigger] r.at4(0, c, h, w) == input.at3(h, w, c),
        r.data@.len() == input.dims@[0] * input.dims@[1] * input.dims@[2],
        forall|c: int, h: int, w: int|
            0 <= c < input.dims@[2] && 0 <= h < input.dims@[0] && 0 <= w < input.dims@[1]
                ==> #[trigger] r.data@[(c * input.dims@[0] + h) * input.dims@[1] + w]
                    == input.data@[(h * input.dims@[1] + w) * input.dims@[2] + c],
{
    let height = input.dims[0];
    let width = input.dims[1];
    let channels = input.dims[2];
    let ghost d0 = height as int;
    let ghost d1 = width as int;
    let ghost d2 = channels as int;
    let mut dims: Vec<usize> = Vec::new();
    dims.push(1);
    dims.push(channels);
    dims.push(height);
    dims.push(width);
    let mut data: Vec<T> = Vec::new();
    if height > 0 && width > 0 && channels > 0 {
        proof {
            lemma_shape_size_3(input.dims@);
        }
        let total = input.data.len();
        assert(0 * d0 * d1 == 0) by (nonlinear_arith);
        let mut c: usize = 0;
        while c < channels
            invariant
                total == d0 * d1 * d2,
                input.data@.len() == total,
                input.wf(),
                d0 == height, d1 == width, d2 == channels,
                c <= channels,
                data@.len() == c * d0 * d1,
                forall|c2: int, h2: int, w2: int|
                    0 <= c2 < c && 0 <= h2 < d0 && 0 <= w2 < d1
                        ==> #[trigger] data@[(c2 * d0 + h2) * d1 + w2] == input.data@[(h2 * d1 + w2) * d2 + c2],
            decreases channels - c,
        {
            let mut h: usize = 0;
            while h < height
                invariant
                    total == d0 * d1 * d2,
                input.data@.len() == total,
                    input.wf(),
                    d0 == height, d1 == width, d2 == channels,
                    c < channels,
                    h <= height,
                    data@.len() == (c * d0 + h) * d1,
                    forall|c2: int, h2: int, w2: int|
                        (0 <= c2 < c && 0 <= h2 < d0 && 0 <= w2 < d1) || (c2 == c && 0 <= h2 < h && 0 <= w2 < d1)
                            ==> #[trigger] data@[(c2 * d0 + h2) * d1 + w2] == input.data@[(h2 * d1 + w2) * d2 + c2],
                decreases height - h,
            {
                let mut w: usize = 0;
                while w < width
                    invariant
                        total == d0 * d1 * d2,
                input.data@.len() == total,
                        input.wf(),
                        d0 == height, d1 == width, d2 == channels,
                        c < channels,
                        h < height,
                        w <= width,
                        data@.len() == (c * d0 + h) * d1 + w,
                        forall|c2: int, h2: int, w2: int|
                            (0 <= c2 < c && 0 <= h2 < d0 && 0 <= w2 < d1) || (c2 == c && 0 <= h2 < h && 0 <= w2 < d1)
                                || (c2 == c && h2 == h && 0 <= w2 < w)
                                ==> #[trigger] data@[(c2 * d0 + h2) * d1 + w2] == input.data@[(h2 * d1 + w2) * d2 + c2],
                    decreases width - w,
                {
                    proof {
                        lemma_offset_in_bounds(h as int, w as int, c as int, d0, d1, d2);
                    }
                    let k = (h * width + w) * channels + c;
                    let ghost before = data@;
                    data.push(input.data[k]);
                    proof {
                        assert forall|c2: int, h2: int, w2: int|
                            (0 <= c2 < c && 0 <= h2 < d0 && 0 <= w2 < d1) || (c2 == c && 0 <= h2 < h && 0 <= w2 < d1)
                                || (c2 == c && h2 == h && 0 <= w2 < w + 1)
                            implies #[trigger] data@[(c2 * d0 + h2) * d1 + w2] == input.data@[(h2 * d1 + w2) * d2 + c2] by {
                            if c2 == c && h2 == h && w2 == w {
                            } else {
                                lemma_position_before(c2, h2, w2, c as int, h as int, w as int, d0, d1);
                                assert(data@[(c2 * d0 + h2) * d1 + w2] == before[(c2 * d0 + h2) * d1 + w2]);
                            }
                        }
                    }
                    w = w + 1;
                }
                proof {
                    lemma_row_step(c as int, h as int, d0, d1);
                }
                h = h + 1;
            }
            proof {
                lemma_row_step(c as int, h as int, d0, d1);
            }
            c = c + 1;
        }
    }
    let ghost produced = data@.len();
    assert(dims@ =~= seq![1usize, channels, height, width]);
    let r = Tensor { dims, data };
    proof {
        lemma_shape_size_4(r.dims@);
        assert(shape_size(r.dims@) == d2 * d0 * d1);
        if !conversion_reads(input.dims@) {
            if height == 0 {
                lemma_shape_size_has_zero(input.dims@, 0);
            } else if width == 0 {
                lemma_shape_size_has_zero(input.dims@, 1);
            } else {
                lemma_shape_size_has_zero(input.dims@, 2);
            }
            assert(d2 * d0 * d1 == 0) by (nonlinear_arith)
                requires d0 == 0 || d1 == 0 || d2 == 0;
            assert(produced == 0);
        } else {
            lemma_shape_size_3(input.dims@);
            assert(produced == d2 * d0 * d1);
        }
        assert(d2 * d0 * d1 == d0 * d1 * d2) by (nonlinear_arith);
        assert forall|c: int, h: int, w: int|
            0 <= c < input.dims@[2] && 0 <= h < input.dims@[0] && 0 <= w < input.dims@[1]
            implies #[trigger] r.at4(0, c, h, w) == input.at3(h, w, c) by {
            lemma_flat_index_4(r.dims@, 0, c, h, w);
            lemma_flat_index_3(input.dims@, h, w, c);
        }
    }
    r
}

proof fn lemma_lex_offset(a1: int, b1: int, a2: int, b2: int, n: int)
    by (nonlinear_arith)
    requires
        0 <= a1,
        0 <= b1 < n,
        0 <= b2 < n,
        a1 < a2 || (a1 == a2 && b1 < b2),
    ensures
        0 <= a1 * n + b1 < a2 * n + b2,
{
}

/// Positions written before `[c, h, w]`, in channel, row, column order, lie
/// before its offset.
proof fn lemma_position_before(c2: int, h2: int, w2: int, c: int, h: int, w: int, rows: int, cols: int)
    requires
        0 <= c,
        0 <= h < rows,
        0 <= w < cols,
        (0 <= c2 < c && 0 <= h2 < rows && 0 <= w2 < cols) || (c2 == c && 0 <= h2 < h && 0 <= w2 < cols)
            || (c2 == c && h2 == h && 0 <= w2 < w),
    ensures
        0 <= (c2 * rows + h2) * cols + w2 < (c * rows + h) * cols + w,
{
    if c2 < c || h2 < h {
        lemma_lex_offset(c2, h2, c, h, rows);
        lemma_lex_offset(c2 * rows + h2, w2, c * rows + h, w, cols);
    } else {
        assert(c2 * rows + h2 == c * rows + h);
        assert(0 <= c * rows + h) by (nonlinear_arith) requires 0 <= c, 0 <= h, 0 <= rows;
        lemma_lex_offset(c * rows + h, w2, c * rows + h, w, cols);
    }
}

proof fn lemma_shape_size_prefix_step(dims: Seq<usize>, k: int)
    requires
        0 <= k < dims.len(),
    ensures
        shape_size(dims.take(k + 1)) == shape_size(dims.take(k)) * dims[k],
{
    assert(dims.take(k + 1).drop_last() =~= dims.take(k));
}

proof fn lemma_shape_size_grows(dims: Seq<usize>, k: int)
    requires
        0 <= k <= dims.len(),
        forall|i: int| 0 <= i < dims.len() ==> dims[i] > 0,
    ensures
        shape_size(dims) >= shape_size(dims.take(k)) >= 1,
    decreases dims.len() - k,
{
    if k == dims.len() {
        assert(dims.take(k) =~= dims);
        lemma_shape_size_positive(dims);
    } else {
        lemma_shape_size_prefix_step(dims, k);
        lemma_shape_size_positive(dims.take(k));
        let a = shape_size(dims.take(k));
        let b = dims[k] as int;
        assert(a * b >= a) by (nonlinear_arith) requires a >= 1, b >= 1;
        lemma_shape_size_grows(dims, k + 1);
    }
}

proof fn lemma_shape_size_positive(dims: Seq<usize>)
    requires
        forall|i: int| 0 <= i < dims.len() ==> dims[i] > 0,
    ensures
        shape_size(dims) >= 1,
    decreases dims.len(),
{
    if dims.len() > 0 {
        lemma_shape_size_positive(dims.drop_last());
        let a = shape_size(dims.drop_last());
        let b = dims.last() as int;
        assert(a * b >= 1) by (nonlinear_arith) requires a >= 1, b >= 1;
    }
}

impl<T> Tensor<T> {
    /// Builds a tensor of shape `dims` from its elements in row-major order;
    /// `None` when their number is not the size of the shape.
    pub fn new(dims: Vec<usize>, data: Vec<T>) -> (r: Option<Tensor<T>>)
        ensures
            r is Some <==> shape_size(dims@) == data@.len(),
            r matches Some(t) ==> t.dims@ == dims@ && t.data@ == data@,
    {
        let n = dims.len();
        let len = data.len();
        let mut k: usize = 0;
        while k < n
            invariant
                n == dims@.len(),
                len == data@.len(),
                k <= n,
                forall|i: int| 0 <= i < k ==> dims@[i] > 0,
            decreases n - k,
        {
            if dims[k] == 0 {
                proof {
                    lemma_shape_size_has_zero(dims@, k as int);
                }
                if data.len() == 0 {
                    return Some(Tensor { dims, data });
                } else {
                    return None;
                }
            }
            k = k + 1;
        }
        let mut size: usize = 1;
        let mut k: usize = 0;
        proof {
            assert(dims@.take(0) =~= Seq::<usize>::empty());
        }
        while k < n
            invariant
                n == dims@.len(),
                len == data@.len(),
                k <= n,
                forall|i: int| 0 <= i < n ==> dims@[i] > 0,
                size == shape_size(dims@.take(k as int)),
            decreases n - k,
        {
            proof {
                lemma_shape_size_prefix_step(dims@, k as int);
            }
            match size.checked_mul(dims[k]) {
                Some(p) => {
                    size = p;
                },
                None => {
                    proof {
                        lemma_shape_size_grows(dims@, k + 1);
                        assert(data@.len() <= usize::MAX);
                    }
                    return None;
                },
            }
            k = k + 1;
        }
        proof {
            assert(dims@.take(n as int) =~= dims@);
        }
        if size == data.len() {
            Some(Tensor { dims, data })
        } else {
            None
        }
    }
}


/// Whether `convert_layout_from_nhwc_to_nchw` accepts a shape.
pub fn convertible_shape_holds(dims: &Vec<usize>) -> (b: bool)
    ensures
        b == convertible_shape(dims@),
        dims@.len() == 3 ==> b,
        dims@.len() < 3 ==> !b,
{
    if dims.len() < 3 {
        false
    } else if dims[0] > 0 && dims[1] > 0 && dims[2] > 0 {
        dims.len() == 3
    } else {
        true
    }
}


/// Every image shape `[height, width, channels]` is converted, whatever its
/// extents; a shape of rank below three never is.
pub proof fn lemma_every_image_shape_is_convertible(dims: Seq<usize>)
    ensures
        dims.len() == 3 ==> convertible_shape(dims),
        dims.len() < 3 ==> !convertible_shape(dims),
{
}

} // verus!
