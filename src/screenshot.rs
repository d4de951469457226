//! CPU side of the screenshot path: staging-buffer sizes and the conversion of a
//! row-padded readback into tightly packed RGBA8 pixels.
use vstd::prelude::*;

verus! {

/// `size` rounded up to the next multiple of `alignment`.
pub open spec fn aligned_up(size: int, alignment: int) -> int {
    ((size + alignment - 1) / alignment) * alignment
}

/// Rounds `size` up to a multiple of `alignment`.
pub fn size_align(size: u64, alignment: u64) -> (r: u64)
    requires
        alignment > 0,
        size + alignment - 1 <= u64::MAX,
    ensures
        r == aligned_up(size as int, alignment as int),
        r % alignment == 0,
        size <= r < size + alignment,
{
    let q = (size + (alignment - 1)) / alignment;
    proof {
        let a = alignment as int;
        let n = size as int + a - 1;
        let rem = n % a;
        vstd::arithmetic::div_mod::lemma_fundamental_div_mod(n, a);
        vstd::arithmetic::div_mod::lemma_mod_bound(n, a);
        vstd::arithmetic::div_mod::lemma_mod_multiples_basic(q as int, a);
        assert(n == a * q + rem);
        assert(q * a == a * q) by (nonlinear_arith);
    }
    q * alignment
}

/// One tightly packed row: the first `row_bytes` bytes from `start`, with
/// every fourth byte (alpha) forced opaque.
pub open spec fn packed_row(data: Seq<u8>, start: int, row_bytes: int) -> Seq<u8> {
    Seq::new(row_bytes as nat, |i: int| if i % 4 == 3 { 255u8 } else { data[start + i] })
}

/// The first `rows` rows of a readback whose rows are `padded_row` bytes apart,
/// each cut to `row_bytes` bytes, concatenated.
pub open spec fn packed_rows(data: Seq<u8>, row_bytes: int, padded_row: int, rows: nat) -> Seq<u8>
    decreases rows,
{
    if rows == 0 {
        Seq::empty()
    } else {
        packed_rows(data, row_bytes, padded_row, (rows - 1) as nat) + packed_row(
            data,
            (rows - 1) * padded_row,
            row_bytes,
        )
    }
}

proof fn lemma_packed_rows_len(data: Seq<u8>, row_bytes: int, padded_row: int, rows: nat)
    requires
        row_bytes >= 0,
    ensures
        packed_rows(data, row_bytes, padded_row, rows).len() == rows * row_bytes,
    decreases rows,
{
    if rows > 0 {
        lemma_packed_rows_len(data, row_bytes, padded_row, (rows - 1) as nat);
        assert((rows - 1) * row_bytes + row_bytes == rows * row_bytes) by (nonlinear_arith);
    } else {
        assert(rows * row_bytes == 0) by (nonlinear_arith)
            requires rows == 0;
    }
}

/// Converts a mapped readback of `height` rows, each `padded_row` bytes long,
/// into `width * height` RGBA8 pixels: the row padding is dropped and alpha is
/// forced to 255.
pub fn strip_row_padding(data: &Vec<u8>, width: usize, height: usize, padded_row: usize) -> (r: Vec<
    u8,
>)
    requires
        width * 4 <= padded_row,
        height * padded_row <= data.len(),
    ensures
        r@ == packed_rows(data@, width * 4, padded_row as int, height as nat),
        r.len() == width * height * 4,
{
    let row_bytes = width * 4;
    let mut r: Vec<u8> = Vec::new();
    let mut y: usize = 0;
    while y < height
        invariant
            y <= height,
            row_bytes == width * 4,
            row_bytes <= padded_row,
            height * padded_row <= data.len(),
            r@ == packed_rows(data@, row_bytes as int, padded_row as int, y as nat),
        decreases height - y,
    {
        assert((y + 1) * padded_row <= height * padded_row) by (nonlinear_arith)
            requires y + 1 <= height, padded_row >= 0;
        assert(y * padded_row + padded_row == (y + 1) * padded_row) by (nonlinear_arith);
        let start = y * padded_row;
        let mut i: usize = 0;
        while i < row_bytes
            invariant
                y < height,
                i <= row_bytes,
                row_bytes <= padded_row,
                start + padded_row <= data.len(),
                start == y * padded_row,
                r@ == packed_rows(data@, row_bytes as int, padded_row as int, y as nat) + packed_row(
                    data@,
                    start as int,
                    row_bytes as int,
                ).take(i as int),
            decreases row_bytes - i,
        {
            let b: u8 = if i % 4 == 3 {
                255
            } else {
                data[start + i]
            };
            r.push(b);
            i = i + 1;
            assert(packed_row(data@, start as int, row_bytes as int).take(i as int) =~= packed_row(
                data@,
                start as int,
                row_bytes as int,
            ).take(i - 1) .push(b));
        }
        assert(packed_row(data@, start as int, row_bytes as int).take(row_bytes as int) =~= packed_row(
            data@,
            start as int,
            row_bytes as int,
        ));
        y = y + 1;
    }
    proof {
        lemma_packed_rows_len(data@, row_bytes as int, padded_row as int, height as nat);
        assert(height * row_bytes == width * height * 4) by (nonlinear_arith)
            requires row_bytes == width * 4;
    }
    r
}

} // verus!
