//! Copying a plane between two buffers whose rows lie at different strides.
use vstd::prelude::*;

verus! {

/// `dst` with the `n` bytes from `at` on replaced by the `n` bytes of `src`
/// from `from` on.
pub open spec fn copy_row(dst: Seq<u8>, at: int, src: Seq<u8>, from: int, n: int) -> Seq<u8> {
    Seq::new(
        dst.len(),
        |j: int|
            if at <= j < at + n {
                src[from + j - at]
            } else {
                dst[j]
            },
    )
}

/// `dst` after the first `height` rows of `row_size` bytes were copied from
/// `src`, one after the other: row `r` from `r * src_stride` in `src` to
/// `r * dst_stride` in `dst`.
pub open spec fn spec_bitblt(
    dst: Seq<u8>,
    dst_stride: int,
    src: Seq<u8>,
    src_stride: int,
    row_size: int,
    height: int,
) -> Seq<u8>
    decreases height,
{
    if height <= 0 {
        dst
    } else {
        copy_row(
            spec_bitblt(dst, dst_stride, src, src_stride, row_size, height - 1),
            (height - 1) * dst_stride,
            src,
            (height - 1) * src_stride,
            row_size,
        )
    }
}

/// Whether `height` rows of `row_size` bytes, `stride` bytes apart, lie
/// within a buffer of `len` bytes.
pub open spec fn rows_fit(len: int, stride: int, row_size: int, height: int) -> bool {
    height > 0 ==> (height - 1) * stride + row_size <= len
}

/// Number of bytes from the first byte of the first row to the last byte of
/// the last of `height` rows of `row_size` bytes, `stride` bytes apart.
pub open spec fn spec_rows_span(stride: int, row_size: int, height: int) -> int {
    if height <= 0 {
        0
    } else {
        (height - 1) * stride + row_size
    }
}

/// Number of bytes that `height` rows of `row_size` bytes, `stride` bytes
/// apart, span: the least length of a buffer that they fit in. `None` where
/// the number does not fit the machine's word.
pub fn rows_span(stride: usize, row_size: usize, height: usize) -> (r: Option<usize>)
    ensures
        r == if spec_rows_span(stride as int, row_size as int, height as int) <= usize::MAX {
            Some(spec_rows_span(stride as int, row_size as int, height as int) as usize)
        } else {
            None
        },
        r.is_some() ==> rows_fit(r.unwrap() as int, stride as int, row_size as int, height as int),
{
    if height == 0 {
        return Some(0);
    }
    assert(0 <= (height - 1) * stride) by (nonlinear_arith)
        requires
            0 <= height - 1,
            0 <= stride,
    ;
    match (height - 1).checked_mul(stride) {
        Some(rows) => rows.checked_add(row_size),
        None => None,
    }
}

/// The last of the first `height` rows that byte `j` of the destination
/// lies in; -1 where it lies in none.
pub open spec fn last_row(j: int, dst_stride: int, row_size: int, height: int) -> int
    decreases height,
{
    if height <= 0 {
        -1
    } else if (height - 1) * dst_stride <= j < (height - 1) * dst_stride + row_size {
        height - 1
    } else {
        last_row(j, dst_stride, row_size, height - 1)
    }
}

/// The copy keeps the length of the destination.
pub proof fn lemma_bitblt_len(
    dst: Seq<u8>,
    dst_stride: int,
    src: Seq<u8>,
    src_stride: int,
    row_size: int,
    height: int,
)
    ensures
        spec_bitblt(dst, dst_stride, src, src_stride, row_size, height).len() == dst.len(),
    decreases height,
{
    if height > 0 {
        lemma_bitblt_len(dst, dst_stride, src, src_stride, row_size, height - 1);
    }
}

/// Each byte of the result is the byte of the source that the last row
/// covering it brought, or the byte that was there where no row covers it.
pub proof fn lemma_bitblt_byte(
    dst: Seq<u8>,
    dst_stride: int,
    src: Seq<u8>,
    src_stride: int,
    row_size: int,
    height: int,
    j: int,
)
    requires
        0 <= j < dst.len(),
    ensures
        spec_bitblt(dst, dst_stride, src, src_stride, row_size, height)[j] == if last_row(
            j,
            dst_stride,
            row_size,
            height,
        ) >= 0 {
            src[last_row(j, dst_stride, row_size, height) * src_stride + j - last_row(
                j,
                dst_stride,
                row_size,
                height,
            ) * dst_stride]
        } else {
            dst[j]
        },
        -1 <= last_row(j, dst_stride, row_size, height) < height || height <= 0,
    decreases height,
{
    if height > 0 {
        lemma_bitblt_byte(dst, dst_stride, src, src_stride, row_size, height - 1, j);
        lemma_bitblt_len(dst, dst_stride, src, src_stride, row_size, height - 1);
    }
}

/// Where the rows of the destination do not overlap, byte `i` of row `r` of
/// the result is byte `i` of row `r` of the source.
pub proof fn lemma_bitblt_row(
    dst: Seq<u8>,
    dst_stride: int,
    src: Seq<u8>,
    src_stride: int,
    row_size: int,
    height: int,
    r: int,
    i: int,
)
    requires
        0 <= r < height,
        0 <= i < row_size <= dst_stride,
        rows_fit(dst.len() as int, dst_stride, row_size, height),
    ensures
        spec_bitblt(dst, dst_stride, src, src_stride, row_size, height)[r * dst_stride + i]
            == src[r * src_stride + i],
    decreases height,
{
    lemma_bitblt_len(dst, dst_stride, src, src_stride, row_size, height - 1);
    assert(r * dst_stride <= (height - 1) * dst_stride) by (nonlinear_arith)
        requires
            0 <= r <= height - 1,
            0 <= dst_stride,
    ;
    assert(0 <= r * dst_stride) by (nonlinear_arith)
        requires
            0 <= r,
            0 <= dst_stride,
    ;
    if r < height - 1 {
        assert((r + 1) * dst_stride <= (height - 1) * dst_stride) by (nonlinear_arith)
            requires
                r + 1 <= height - 1,
                0 <= dst_stride,
        ;
        assert((r + 1) * dst_stride == r * dst_stride + dst_stride) by (nonlinear_arith);
        assert((height - 2) * dst_stride + dst_stride == (height - 1) * dst_stride)
            by (nonlinear_arith);
        lemma_bitblt_row(dst, dst_stride, src, src_stride, row_size, height - 1, r, i);
    }
}

/// Copying the same rows a second time changes nothing.
pub proof fn lemma_bitblt_twice(
    dst: Seq<u8>,
    dst_stride: int,
    src: Seq<u8>,
    src_stride: int,
    row_size: int,
    height: int,
)
    ensures
        spec_bitblt(
            spec_bitblt(dst, dst_stride, src, src_stride, row_size, height),
            dst_stride,
            src,
            src_stride,
            row_size,
            height,
        ) == spec_bitblt(dst, dst_stride, src, src_stride, row_size, height),
{
    let once = spec_bitblt(dst, dst_stride, src, src_stride, row_size, height);
    let twice = spec_bitblt(once, dst_stride, src, src_stride, row_size, height);
    lemma_bitblt_len(dst, dst_stride, src, src_stride, row_size, height);
    lemma_bitblt_len(once, dst_stride, src, src_stride, row_size, height);
    assert forall|j: int| 0 <= j < once.len() implies twice[j] == once[j] by {
        lemma_bitblt_byte(dst, dst_stride, src, src_stride, row_size, height, j);
        lemma_bitblt_byte(once, dst_stride, src, src_stride, row_size, height, j);
    }
    assert(twice =~= once);
}

/// Copies bytes from one plane to another: `height` rows of `row_size`
/// bytes, which lie `src_stride` bytes apart in `src` and `dst_stride` bytes
/// apart in `dst`. Every other byte of `dst` stays as it is.
pub fn bitblt(
    dst: &mut [u8],
    dst_stride: usize,
    src: &[u8],
    src_stride: usize,
    row_size: usize,
    height: usize,
)
    requires
        rows_fit(old(dst)@.len() as int, dst_stride as int, row_size as int, height as int),
        rows_fit(src@.len() as int, src_stride as int, row_size as int, height as int),
    ensures
        final(dst)@ == spec_bitblt(
            old(dst)@,
            dst_stride as int,
            src@,
            src_stride as int,
            row_size as int,
            height as int,
        ),
{
    let dst_len: usize = dst.len();
    let src_len: usize = src.len();
    let mut r: usize = 0;
    let mut at: usize = 0;
    let mut from: usize = 0;
    while r < height
        invariant
            r <= height,
            dst@.len() == old(dst)@.len(),
            dst@.len() == dst_len,
            src@.len() == src_len,
            rows_fit(dst@.len() as int, dst_stride as int, row_size as int, height as int),
            rows_fit(src@.len() as int, src_stride as int, row_size as int, height as int),
            r < height ==> at == r * dst_stride && from == r * src_stride,
            dst@ == spec_bitblt(
                old(dst)@,
                dst_stride as int,
                src@,
                src_stride as int,
                row_size as int,
                r as int,
            ),
        decreases height - r,
    {
        let ghost before = dst@;
        assert(r * dst_stride <= (height - 1) * dst_stride) by (nonlinear_arith)
            requires
                r <= height - 1,
                0 <= dst_stride,
        ;
        assert(r * src_stride <= (height - 1) * src_stride) by (nonlinear_arith)
            requires
                r <= height - 1,
                0 <= src_stride,
        ;
        let mut i: usize = 0;
        while i < row_size
            invariant
                i <= row_size,
                dst@.len() == before.len(),
                dst@.len() == dst_len,
                src@.len() == src_len,
                at + row_size <= dst@.len(),
                from + row_size <= src@.len(),
                dst@ == copy_row(before, at as int, src@, from as int, i as int),
            decreases row_size - i,
        {
            dst[at + i] = src[from + i];
            assert(dst@ =~= copy_row(before, at as int, src@, from as int, i + 1));
            i += 1;
        }
        r += 1;
        if r < height {
            assert(r * dst_stride == (r - 1) * dst_stride + dst_stride) by (nonlinear_arith);
            assert(r * src_stride == (r - 1) * src_stride + src_stride) by (nonlinear_arith);
            assert(r * dst_stride <= (height - 1) * dst_stride) by (nonlinear_arith)
                requires
                    r <= height - 1,
                    0 <= dst_stride,
            ;
            assert(r * src_stride <= (height - 1) * src_stride) by (nonlinear_arith)
                requires
                    r <= height - 1,
                    0 <= src_stride,
            ;
            at += dst_stride;
            from += src_stride;
        }
    }
}

} // verus!
