//! Moving tightly packed rows into a driver's strided planes.

use vstd::prelude::*;

use super::planes::Component;
use crate::error::Error;

verus! {

/// `s` with `part` written over it from `at` on.
pub open spec fn overwrite(s: Seq<u8>, at: int, part: Seq<u8>) -> Seq<u8> {
    Seq::new(
        s.len(),
        |i: int|
            if at <= i < at + part.len() {
                part[i - at]
            } else {
                s[i]
            },
    )
}

/// Where row `row` of a component starts.
pub open spec fn row_start(at: Component, row: int) -> int {
    at.offset + row * at.stride
}

/// `dst` with the first `n` rows of a component written over it in order.
pub open spec fn put_rows(
    dst: Seq<u8>,
    at: Component,
    row: spec_fn(int) -> Seq<u8>,
    n: nat,
) -> Seq<u8>
    decreases n,
{
    if n == 0 {
        dst
    } else {
        overwrite(
            put_rows(dst, at, row, (n - 1) as nat),
            row_start(at, n - 1),
            row(n - 1),
        )
    }
}

/// Row `row` of tightly packed samples, `width` bytes per row.
pub open spec fn packed_row(src: Seq<u8>, width: int, row: int) -> Seq<u8> {
    src.subrange(row * width, row * width + width)
}

/// Row `row` of two components with their samples alternating, `width` pairs per
/// row.
pub open spec fn paired_row(u: Seq<u8>, v: Seq<u8>, width: int, row: int) -> Seq<u8> {
    Seq::new(
        (2 * width) as nat,
        |k: int|
            if k % 2 == 0 {
                u[row * width + k / 2]
            } else {
                v[row * width + k / 2]
            },
    )
}

/// `dst` after the first `n` packed rows of `src` are copied into it.
pub open spec fn scattered(
    dst: Seq<u8>,
    at: Component,
    src: Seq<u8>,
    width: int,
    n: nat,
) -> Seq<u8> {
    put_rows(dst, at, |row: int| packed_row(src, width, row), n)
}

/// `dst` after the first `n` rows of `u` and `v` are interleaved into it.
pub open spec fn interleaved(
    dst: Seq<u8>,
    at: Component,
    u: Seq<u8>,
    v: Seq<u8>,
    width: int,
    n: nat,
) -> Seq<u8> {
    put_rows(dst, at, |row: int| paired_row(u, v, width, row), n)
}

/// Writing rows over a plane keeps its length.
pub proof fn lemma_put_rows_len(
    dst: Seq<u8>,
    at: Component,
    row: spec_fn(int) -> Seq<u8>,
    n: nat,
)
    ensures
        put_rows(dst, at, row, n).len() == dst.len(),
    decreases n,
{
    if n > 0 {
        lemma_put_rows_len(dst, at, row, (n - 1) as nat);
    }
}

/// Copying packed rows into a plane keeps its length.
pub proof fn lemma_scattered_len(dst: Seq<u8>, at: Component, src: Seq<u8>, width: int, n: nat)
    ensures
        scattered(dst, at, src, width, n).len() == dst.len(),
{
    lemma_put_rows_len(dst, at, |row: int| packed_row(src, width, row), n);
}

/// Whether row `row`, `width` bytes wide, ends inside a plane of `len` bytes.
pub open spec fn row_fits(len: int, at: Component, width: int, row: int) -> bool {
    row_start(at, row) + width <= len
}

/// How many of a component's first `rows` rows end inside a plane of `len` bytes.
/// Row starts only grow, so these are exactly the rows before the first that
/// does not fit.
pub open spec fn fitting_rows(len: int, at: Component, width: int, rows: nat) -> nat
    decreases rows,
{
    if rows == 0 {
        0
    } else if row_fits(len, at, width, rows - 1) {
        rows
    } else {
        fitting_rows(len, at, width, (rows - 1) as nat)
    }
}

/// The rows counted by [`fitting_rows`] fit, and the one after them does not.
pub proof fn lemma_fitting_rows(len: int, at: Component, width: int, rows: nat)
    ensures
        fitting_rows(len, at, width, rows) <= rows,
        forall|row: int|
            0 <= row < fitting_rows(len, at, width, rows) ==> row_fits(len, at, width, row),
        fitting_rows(len, at, width, rows) < rows ==> !row_fits(
            len,
            at,
            width,
            fitting_rows(len, at, width, rows) as int,
        ),
    decreases rows,
{
    if rows > 0 {
        if row_fits(len, at, width, rows - 1) {
            assert forall|row: int| 0 <= row < rows implies row_fits(len, at, width, row) by {
                lemma_row_start_grows(at, row, rows - 1);
            }
        } else {
            lemma_fitting_rows(len, at, width, (rows - 1) as nat);
        }
    }
}

pub proof fn lemma_row_start_grows(at: Component, a: int, b: int)
    requires
        a <= b,
    ensures
        row_start(at, a) <= row_start(at, b),
{
    assert(a * at.stride <= b * at.stride) by (nonlinear_arith)
        requires
            a <= b,
            0 <= at.stride,
    ;
}

/// What a copy of `rows` rows needs of its arguments: source samples for every
/// row that fits, and an end position this machine can count to for the first
/// row that does not.
pub open spec fn copyable(
    len: int,
    at: Component,
    width: int,
    rows: nat,
    samples: int,
    source: int,
) -> bool {
    let fit = fitting_rows(len, at, width, rows);
    &&& fit * samples <= source
    &&& fit < rows ==> row_start(at, fit as int) + width <= usize::MAX
}

/// What a copy of `rows` rows of `width` bytes to or from a plane of `len` bytes
/// comes to.
pub open spec fn copy_result(len: int, at: Component, width: int, rows: nat) -> Result<(), Error> {
    let fit = fitting_rows(len, at, width, rows);
    if fit == rows {
        Ok(())
    } else {
        Err(
            Error::Short {
                len: len as usize,
                needed: (row_start(at, fit as int) + width) as usize,
            },
        )
    }
}

/// The failure for a plane of `len` bytes that would have to reach `needed`.
pub fn short(len: usize, needed: usize) -> (err: Error)
    ensures
        err == (Error::Short { len, needed }),
{
    Error::Short { len, needed }
}

/// Copy `rows` rows of `width` tightly packed bytes into a strided plane.
///
/// A row that would end past the plane stops the copy there, with the rows
/// before it written.
pub fn scatter(
    dst: &mut [u8],
    at: Component,
    src: &[u8],
    width: usize,
    rows: usize,
) -> (r: Result<(), Error>)
    requires
        copyable(
            old(dst)@.len() as int,
            at,
            width as int,
            rows as nat,
            width as int,
            src@.len() as int,
        ),
    ensures
        ({
            let len = old(dst)@.len() as int;
            let fit = fitting_rows(len, at, width as int, rows as nat);
            &&& final(dst)@ == scattered(old(dst)@, at, src@, width as int, fit)
            &&& r == copy_result(len, at, width as int, rows as nat)
        }),
{
    let len = dst.len();
    let ghost fit = fitting_rows(len as int, at, width as int, rows as nat);
    let ghost before = dst@;
    proof {
        lemma_fitting_rows(len as int, at, width as int, rows as nat);
    }
    let mut row: usize = 0;
    while row < rows
        invariant
            fit == fitting_rows(len as int, at, width as int, rows as nat),
            copyable(len as int, at, width as int, rows as nat, width as int, src@.len() as int),
            forall|r: int| 0 <= r < fit ==> row_fits(len as int, at, width as int, r),
            fit < rows ==> !row_fits(len as int, at, width as int, fit as int),
            before == old(dst)@,
            len == before.len(),
            dst@.len() == len,
            row <= fit <= rows,
            dst@ == scattered(before, at, src@, width as int, row as nat),
        decreases rows - row,
    {
        assert(row < fit ==> row_fits(len as int, at, width as int, row as int));
        assert(0 <= row * at.stride) by (nonlinear_arith)
            requires
                0 <= row,
                0 <= at.stride,
        ;
        let start = at.offset + row * at.stride;
        if start + width > len {
            assert(row == fit);
            return Err(short(len, start + width));
        }
        assert(row < fit);
        assert((row + 1) * width <= fit * width) by (nonlinear_arith)
            requires
                row + 1 <= fit,
                0 <= width,
        ;
        assert(row * width + width == (row + 1) * width) by (nonlinear_arith);
        assert(0 <= row * width) by (nonlinear_arith)
            requires
                0 <= row,
                0 <= width,
        ;
        assert(src.len() == src@.len());
        let from = row * width;
        let ghost written = dst@;
        let ghost line = packed_row(src@, width as int, row as int);
        let mut column: usize = 0;
        while column < width
            invariant
                column <= width,
                from == row * width,
                from + width <= src@.len() <= usize::MAX,
                start + width <= len,
                len == written.len(),
                line == packed_row(src@, width as int, row as int),
                dst@ == overwrite(written, start as int, line.subrange(0, column as int)),
            decreases width - column,
        {
            dst[start + column] = src[from + column];
            column = column + 1;
            assert(dst@ =~= overwrite(written, start as int, line.subrange(0, column as int)));
        }
        assert(line.subrange(0, width as int) =~= line);
        row = row + 1;
    }
    Ok(())
}

/// Interleave tightly packed U and V rows into a strided semi-planar chroma
/// plane, `width` sample pairs per row.
///
/// A row that would end past the plane stops the copy there, with the rows
/// before it written.
pub fn interleave(
    dst: &mut [u8],
    at: Component,
    u: &[u8],
    v: &[u8],
    width: usize,
    rows: usize,
) -> (r: Result<(), Error>)
    requires
        copyable(
            old(dst)@.len() as int,
            at,
            2 * width,
            rows as nat,
            width as int,
            u@.len() as int,
        ),
        copyable(
            old(dst)@.len() as int,
            at,
            2 * width,
            rows as nat,
            width as int,
            v@.len() as int,
        ),
    ensures
        ({
            let len = old(dst)@.len() as int;
            let fit = fitting_rows(len, at, 2 * width, rows as nat);
            &&& final(dst)@ == interleaved(old(dst)@, at, u@, v@, width as int, fit)
            &&& r == copy_result(len, at, 2 * width, rows as nat)
        }),
{
    let len = dst.len();
    let ghost bytes: int = 2 * width;
    let ghost fit = fitting_rows(len as int, at, bytes, rows as nat);
    let ghost before = dst@;
    proof {
        lemma_fitting_rows(len as int, at, bytes, rows as nat);
    }
    let mut row: usize = 0;
    while row < rows
        invariant
            bytes == 2 * width,
            fit == fitting_rows(len as int, at, bytes, rows as nat),
            copyable(len as int, at, bytes, rows as nat, width as int, u@.len() as int),
            copyable(len as int, at, bytes, rows as nat, width as int, v@.len() as int),
            forall|r: int| 0 <= r < fit ==> row_fits(len as int, at, bytes, r),
            fit < rows ==> !row_fits(len as int, at, bytes, fit as int),
            before == old(dst)@,
            len == before.len(),
            dst@.len() == len,
            row <= fit <= rows,
            dst@ == interleaved(before, at, u@, v@, width as int, row as nat),
        decreases rows - row,
    {
        assert(row < fit ==> row_fits(len as int, at, bytes, row as int));
        assert(0 <= row * at.stride) by (nonlinear_arith)
            requires
                0 <= row,
                0 <= at.stride,
        ;
        let start = at.offset + row * at.stride;
        if start + width * 2 > len {
            assert(row == fit);
            return Err(short(len, start + width * 2));
        }
        assert(row < fit);
        assert((row + 1) * width <= fit * width) by (nonlinear_arith)
            requires
                row + 1 <= fit,
                0 <= width,
        ;
        assert(row * width + width == (row + 1) * width) by (nonlinear_arith);
        assert(0 <= row * width) by (nonlinear_arith)
            requires
                0 <= row,
                0 <= width,
        ;
        assert(u.len() == u@.len() && v.len() == v@.len());
        let from = row * width;
        let ghost written = dst@;
        let ghost line = paired_row(u@, v@, width as int, row as int);
        let mut pair: usize = 0;
        while pair < width
            invariant
                pair <= width,
                from == row * width,
                from + width <= u@.len() <= usize::MAX,
                from + width <= v@.len(),
                start + 2 * width <= len,
                len == written.len(),
                line == paired_row(u@, v@, width as int, row as int),
                dst@ == overwrite(written, start as int, line.subrange(0, 2 * pair as int)),
            decreases width - pair,
        {
            dst[start + 2 * pair] = u[from + pair];
            dst[start + 2 * pair + 1] = v[from + pair];
            pair = pair + 1;
            assert(dst@ =~= overwrite(written, start as int, line.subrange(0, 2 * pair as int)));
        }
        assert(line.subrange(0, 2 * width as int) =~= line);
        row = row + 1;
    }
    Ok(())
}

/// The first `n` rows of one component read out of a strided plane and packed
/// tightly: `width` samples per row, `step` bytes apart, the first `phase` bytes
/// into the row.
pub open spec fn gathered(
    src: Seq<u8>,
    at: Component,
    step: int,
    phase: int,
    width: nat,
    n: nat,
) -> Seq<u8>
    decreases n,
{
    if n == 0 {
        Seq::empty()
    } else {
        gathered(src, at, step, phase, width, (n - 1) as nat) + Seq::new(
            width,
            |k: int| src[row_start(at, n - 1) + k * step + phase],
        )
    }
}

/// Gathering yields `width` samples per row.
pub proof fn lemma_gathered_len(
    src: Seq<u8>,
    at: Component,
    step: int,
    phase: int,
    width: nat,
    n: nat,
)
    ensures
        gathered(src, at, step, phase, width, n).len() == n * width,
    decreases n,
{
    if n > 0 {
        lemma_gathered_len(src, at, step, phase, width, (n - 1) as nat);
        let before = (n - 1) as nat;
        assert(before * width + width == n * width) by (nonlinear_arith)
            requires
                before + 1 == n,
        ;
    } else {
        assert(n * width == 0) by (nonlinear_arith)
            requires
                n == 0,
        ;
    }
}

/// Append `rows` rows of one component to `out`, `width` samples per row.
///
/// Samples sit `step` bytes apart, which is one for a plane of its own and two
/// for a component that shares a semi-planar plane; `phase` picks which of the
/// two. A row that would end past the plane is an error rather than a short
/// picture.
pub fn gather(
    src: &[u8],
    at: Component,
    step: usize,
    phase: usize,
    width: usize,
    rows: usize,
    out: &mut Vec<u8>,
) -> (r: Result<(), Error>)
    requires
        phase < step <= 2,
        step * width <= usize::MAX,
        copyable(src@.len() as int, at, step * width, rows as nat, 0, 0),
    ensures
        r == copy_result(src@.len() as int, at, step * width, rows as nat),
        final(out)@ == old(out)@ + gathered(
            src@,
            at,
            step as int,
            phase as int,
            width as nat,
            fitting_rows(src@.len() as int, at, step * width, rows as nat),
        ),
{
    let len = src.len();
    let ghost bytes: int = step * width;
    let ghost fit = fitting_rows(len as int, at, bytes, rows as nat);
    let ghost before = out@;
    proof {
        lemma_fitting_rows(len as int, at, bytes, rows as nat);
    }
    let span = step * width;
    let mut row: usize = 0;
    while row < rows
        invariant
            phase < step <= 2,
            span == bytes == step * width,
            fit == fitting_rows(len as int, at, bytes, rows as nat),
            copyable(len as int, at, bytes, rows as nat, 0, 0),
            forall|r: int| 0 <= r < fit ==> row_fits(len as int, at, bytes, r),
            fit < rows ==> !row_fits(len as int, at, bytes, fit as int),
            len == src@.len(),
            before == old(out)@,
            row <= fit <= rows,
            out@ =~= before + gathered(
                src@,
                at,
                step as int,
                phase as int,
                width as nat,
                row as nat,
            ),
        decreases rows - row,
    {
        assert(row < fit ==> row_fits(len as int, at, bytes, row as int));
        assert(0 <= row * at.stride) by (nonlinear_arith)
            requires
                0 <= row,
                0 <= at.stride,
        ;
        let start = at.offset + row * at.stride;
        if start + span > len {
            assert(row == fit);
            return Err(short(len, start + span));
        }
        assert(row < fit);
        let ghost line = Seq::new(
            width as nat,
            |k: int| src@[row_start(at, row as int) + k * step + phase],
        );
        let ghost taken = out@;
        let mut column: usize = 0;
        while column < width
            invariant
                column <= width,
                phase < step <= 2,
                span == step * width,
                start == row_start(at, row as int),
                start + span <= len,
                len == src@.len(),
                line == Seq::new(
                    width as nat,
                    |k: int| src@[row_start(at, row as int) + k * step + phase],
                ),
                out@ == taken + line.subrange(0, column as int),
            decreases width - column,
        {
            assert(column * step + phase < step * width && 0 <= column * step) by (nonlinear_arith)
                requires
                    0 <= column < width,
                    0 <= phase < step,
            ;
            out.push(src[start + column * step + phase]);
            column = column + 1;
            assert(out@ =~= taken + line.subrange(0, column as int));
        }
        assert(line.subrange(0, width as int) =~= line);
        row = row + 1;
    }
    Ok(())
}

} // verus!
