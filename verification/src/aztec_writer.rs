//! Aztec symbol writer: scales an encoded symbol's module grid into an output
//! bitmap of a requested size, centring it with equal padding.
//!
//! The per-symbology payload encoder (bit-stream packing and error
//! correction) is an external collaborator: it produces the module grid that
//! an [`AztecCode`] holds.  This module carries out everything after that
//! point: resolving encoding hints and rendering the module grid, with the
//! scale factor chosen as the minimum of the two axis ratios and the result
//! centred by integer floor division.

#![allow(non_snake_case)]

use vstd::prelude::*;
use vstd::arithmetic::div_mod::{
    lemma_fundamental_div_mod,
    lemma_fundamental_div_mod_converse,
    lemma_div_is_ordered,
    lemma_div_pos_is_pos,
    lemma_multiply_divide_lt,
};
use vstd::arithmetic::mul::lemma_mul_inequality;
use crate::matrix::Matrix;
use crate::text::{eq_ignore_ascii_case, eq_ignore_case_spec, parse_u32_decimal, spec_parse_u32};

verus! {

/// Error-correction percentage used when no hint overrides it.
pub const DEFAULT_EC_PERCENT: u32 = 33;

/// Layer count used when no hint overrides it (`0`: choose automatically).
pub const DEFAULT_AZTEC_LAYERS: i32 = 0;

#[allow(non_camel_case_types)]
#[derive(Clone, Copy, Debug, PartialEq, Eq, Structural)]
pub enum BarcodeFormat {
    AZTEC,
    QR_CODE,
    DATA_MATRIX,
}

#[derive(Clone, Copy, Debug, PartialEq, Eq, Structural)]
pub enum CharacterSet {
    Iso8859_1,
    Utf8,
    Ascii,
}

impl CharacterSet {
    /// Looks a character set up by its canonical name, ignoring ASCII case.
    pub fn get_character_set_by_name(name: &str) -> (r: Option<CharacterSet>)
        ensures
            r == if eq_ignore_case_spec(name@, "iso-8859-1"@) {
                Some(CharacterSet::Iso8859_1)
            } else if eq_ignore_case_spec(name@, "utf-8"@) || eq_ignore_case_spec(name@, "utf8"@) {
                Some(CharacterSet::Utf8)
            } else if eq_ignore_case_spec(name@, "us-ascii"@) {
                Some(CharacterSet::Ascii)
            } else {
                None::<CharacterSet>
            },
    {
        if eq_ignore_ascii_case(name, "iso-8859-1") {
            Some(CharacterSet::Iso8859_1)
        } else if eq_ignore_ascii_case(name, "utf-8") || eq_ignore_ascii_case(name, "utf8") {
            Some(CharacterSet::Utf8)
        } else if eq_ignore_ascii_case(name, "us-ascii") {
            Some(CharacterSet::Ascii)
        } else {
            None
        }
    }
}

/// Rendering and encoding hints, handed in by the caller; every field is
/// optional.
pub struct EncodeHints {
    /// Character set name for the payload encoder.
    pub character_set: Option<String>,
    /// Error-correction percentage, as decimal text.
    pub error_correction: Option<String>,
    /// Fixed layer count for the symbol.
    pub aztec_layers: Option<i32>,
    /// Size of one module in output cells; overrides the requested size.
    pub dot_size_pixels: Option<u32>,
}

impl EncodeHints {
    /// Hints with every field absent.
    pub fn new() -> (r: EncodeHints)
        ensures
            r.character_set is None,
            r.error_correction is None,
            r.aztec_layers is None,
            r.dot_size_pixels is None,
    {
        EncodeHints {
            character_set: None,
            error_correction: None,
            aztec_layers: None,
            dot_size_pixels: None,
        }
    }
}

/// The options that hint resolution produces for the payload encoder and the
/// renderer.
pub struct EncodeOptions {
    pub charset: Option<CharacterSet>,
    pub ecc_percent: u32,
    pub layers: i32,
    pub dotsize: Option<u32>,
}

/// An encoded Aztec symbol: the module grid the payload encoder produced.
pub struct AztecCode {
    matrix: Matrix,
}

impl AztecCode {
    pub closed spec fn spec_matrix(self) -> Matrix {
        self.matrix
    }

    pub open spec fn wf(self) -> bool {
        self.spec_matrix().wf()
    }

    pub fn new(matrix: Matrix) -> (r: AztecCode)
        requires
            matrix.wf(),
        ensures
            r.spec_matrix() == matrix,
    {
        AztecCode { matrix }
    }

    pub fn getMatrix(&self) -> (r: &Matrix)
        ensures
            *r == self.spec_matrix(),
    {
        &self.matrix
    }
}

#[derive(Clone, Copy, Debug, PartialEq, Eq, Structural)]
pub enum WriterError {
    /// The requested format is not Aztec.
    IllegalFormat,
}

pub open spec fn spec_max(a: int, b: int) -> int {
    if a >= b {
        a
    } else {
        b
    }
}

pub open spec fn spec_min(a: int, b: int) -> int {
    if a <= b {
        a
    } else {
        b
    }
}

/// The requested size on one axis: the dot size times the module count when a
/// dot size is given, else the caller's requested size.
pub open spec fn spec_goal_dim(in_dim: int, requested: int, dotsize: Option<u32>) -> int {
    match dotsize {
        Some(m) => in_dim * m,
        None => requested,
    }
}

/// The output size on one axis: the requested size, but never smaller than
/// the module count.
pub open spec fn spec_out_dim(in_dim: int, requested: int, dotsize: Option<u32>) -> int {
    spec_max(spec_goal_dim(in_dim, requested, dotsize), in_dim)
}

/// The integer scale factor: the minimum of the two axis ratios.
pub open spec fn spec_multiple(in_w: int, in_h: int, out_w: int, out_h: int) -> int {
    spec_min(out_w / in_w, out_h / in_h)
}

/// The padding on one axis: half the leftover cells, rounded down.
pub open spec fn spec_padding(in_dim: int, out_dim: int, multiple: int) -> int {
    (out_dim - in_dim * multiple) / 2
}

/// Whether the output cell `(px, py)` is black in the rendering of `input`
/// scaled by `multiple` with the given paddings.
pub open spec fn spec_rendered_black(
    input: Matrix,
    multiple: int,
    lp: int,
    tp: int,
    px: int,
    py: int,
) -> bool {
    &&& lp <= px < lp + input.spec_width() * multiple
    &&& tp <= py < tp + input.spec_height() * multiple
    &&& input.spec_black((px - lp) / multiple, (py - tp) / multiple)
}

/// The scale factor and paddings fit: the scaled grid lies inside the output,
/// the two paddings on an axis differ from the leftover by at most one cell,
/// and the scale is at least one.
///
/// This pins the renderer's geometry for every `(input, requested)` pair with
/// the output at least as large as the input on both axes.
pub proof fn lemma_render_geometry(in_w: int, in_h: int, out_w: int, out_h: int)
    requires
        1 <= in_w <= out_w,
        1 <= in_h <= out_h,
    ensures
        ({
            let m = spec_multiple(in_w, in_h, out_w, out_h);
            let lp = spec_padding(in_w, out_w, m);
            let tp = spec_padding(in_h, out_h, m);
            &&& 1 <= m
            &&& 0 <= lp
            &&& 0 <= tp
            &&& in_w * m + 2 * lp <= out_w
            &&& in_h * m + 2 * tp <= out_h
            &&& out_w - (in_w * m + 2 * lp) <= 1
            &&& out_h - (in_h * m + 2 * tp) <= 1
        }),
{
    let m = spec_multiple(in_w, in_h, out_w, out_h);
    lemma_div_is_ordered(in_w, out_w, in_w);
    assert(in_w / in_w == 1) by (nonlinear_arith)
        requires
            1 <= in_w,
    ;
    lemma_div_is_ordered(in_h, out_h, in_h);
    assert(in_h / in_h == 1) by (nonlinear_arith)
        requires
            1 <= in_h,
    ;
    lemma_scaled_fits(in_w, out_w, m);
    lemma_scaled_fits(in_h, out_h, m);
}

/// The scaled size plus both paddings fills the output axis to within one
/// cell.
proof fn lemma_scaled_fits(in_dim: int, out_dim: int, m: int)
    requires
        1 <= in_dim,
        0 <= m <= out_dim / in_dim,
    ensures
        in_dim * m <= out_dim,
        0 <= spec_padding(in_dim, out_dim, m),
        in_dim * m + 2 * spec_padding(in_dim, out_dim, m) <= out_dim,
        out_dim - (in_dim * m + 2 * spec_padding(in_dim, out_dim, m)) <= 1,
{
    lemma_fundamental_div_mod(out_dim, in_dim);
    lemma_mul_inequality(m, out_dim / in_dim, in_dim);
    assert(in_dim * m <= in_dim * (out_dim / in_dim)) by (nonlinear_arith)
        requires
            m * in_dim <= (out_dim / in_dim) * in_dim,
    ;
    assert(0 <= out_dim % in_dim < in_dim) by {
        vstd::arithmetic::div_mod::lemma_mod_division_less_than_divisor(out_dim, in_dim);
    }
    let rest = out_dim - in_dim * m;
    lemma_fundamental_div_mod(rest, 2);
    assert(0 <= rest % 2 < 2) by {
        vstd::arithmetic::div_mod::lemma_mod_division_less_than_divisor(rest, 2);
    }
}

/// Renders the module grid of `code` into an output bitmap.
///
/// With no dot size the output is the requested size, grown to hold at least
/// one cell per module; with a dot size `m` the output is the module count
/// times `m` per axis (and the paddings are then zero).  Every module becomes
/// a `multiple` by `multiple` block of cells; the leftover is split evenly
/// onto the two sides of each axis, the odd cell going to the far side.  The
/// grid dimension bounds are machine limits that keep the output allocatable.
#[verifier::loop_isolation(false)]
#[verifier::rlimit(80)]
pub fn renderRXingResult(code: &AztecCode, width: u32, height: u32, dotsize: Option<u32>) -> (r:
    Result<Matrix, WriterError>)
    requires
        code.wf(),
        spec_out_dim(code.spec_matrix().spec_width(), width as int, dotsize) <= 0x4000_0000,
        spec_out_dim(code.spec_matrix().spec_height(), height as int, dotsize) <= 0x4000_0000,
        spec_out_dim(code.spec_matrix().spec_width(), width as int, dotsize) * spec_out_dim(
            code.spec_matrix().spec_height(),
            height as int,
            dotsize,
        ) <= usize::MAX,
    ensures
        ({
            let input = code.spec_matrix();
            let ow = spec_out_dim(input.spec_width(), width as int, dotsize);
            let oh = spec_out_dim(input.spec_height(), height as int, dotsize);
            let m = spec_multiple(input.spec_width(), input.spec_height(), ow, oh);
            let lp = spec_padding(input.spec_width(), ow, m);
            let tp = spec_padding(input.spec_height(), oh, m);
            match r {
                Ok(out) => {
                    &&& out.wf()
                    &&& out.spec_width() == ow
                    &&& out.spec_height() == oh
                    &&& forall|px: int, py: int|
                        out.in_bounds(px, py) ==> (out.spec_black(px, py) == spec_rendered_black(
                            input,
                            m,
                            lp,
                            tp,
                            px,
                            py,
                        ))
                },
                Err(_) => false,
            }
        }),
{
    let input = code.getMatrix();
    let input_width: usize = input.width();
    let input_height: usize = input.height();
    proof {
        input.lemma_wf_bounds();
    }

    // The "dotsize" parameter sets the size of one module instead of the
    // preferred size of the whole symbol; the paddings are then zero.
    let (goal_w, goal_h): (u64, u64) = match dotsize {
        Some(m) => ((input_width as u64) * (m as u64), (input_height as u64) * (m as u64)),
        None => (width as u64, height as u64),
    };

    let output_width: usize = if goal_w >= input_width as u64 {
        goal_w as usize
    } else {
        input_width
    };
    let output_height: usize = if goal_h >= input_height as u64 {
        goal_h as usize
    } else {
        input_height
    };

    let qw: usize = output_width / input_width;
    let qh: usize = output_height / input_height;
    let multiple: usize = if qw <= qh {
        qw
    } else {
        qh
    };
    proof {
        lemma_render_geometry(
            input.spec_width(),
            input.spec_height(),
            output_width as int,
            output_height as int,
        );
    }
    let left_padding: usize = (output_width - input_width * multiple) / 2;
    let top_padding: usize = (output_height - input_height * multiple) / 2;

    let mut output = Matrix::new(output_width, output_height);

    let ghost m = multiple as int;
    let ghost lp = left_padding as int;
    let ghost tp = top_padding as int;

    let mut input_y: usize = 0;
    let mut output_y: usize = top_padding;
    while input_y < input_height
        invariant
            input.wf(),
            output.wf(),
            input_width == input.spec_width(),
            input_height == input.spec_height(),
            output.spec_width() == output_width,
            output.spec_height() == output_height,
            1 <= m,
            0 <= lp,
            0 <= tp,
            input_width * m + 2 * lp <= output_width,
            input_height * m + 2 * tp <= output_height,
            input_y <= input_height,
            output_y == tp + input_y * m,
            forall|px: int, py: int|
                output.in_bounds(px, py) ==> (output.spec_black(px, py)
                    == spec_partial_rendered_black(
                    *input,
                    m,
                    lp,
                    tp,
                    px,
                    py,
                    input_y as int,
                    0,
                )),
        decreases input_height - input_y,
    {
        let mut input_x: usize = 0;
        let mut output_x: usize = left_padding;
        proof {
            lemma_mul_inequality(input_y as int + 1, input_height as int, m);
            assert(output_y + m <= tp + input_height * m) by (nonlinear_arith)
                requires
                    output_y == tp + input_y * m,
                    (input_y + 1) * m <= input_height * m,
            ;
        }
        while input_x < input_width
            invariant
                input.wf(),
                output.wf(),
                input_width == input.spec_width(),
                input_height == input.spec_height(),
                output.spec_width() == output_width,
                output.spec_height() == output_height,
                1 <= m,
                0 <= lp,
                0 <= tp,
                input_width * m + 2 * lp <= output_width,
                input_height * m + 2 * tp <= output_height,
                input_y < input_height,
                input_x <= input_width,
                output_y == tp + input_y * m,
                output_y + m <= output_height,
                output_x == lp + input_x * m,
                forall|px: int, py: int|
                    output.in_bounds(px, py) ==> (output.spec_black(px, py)
                        == spec_partial_rendered_black(
                        *input,
                        m,
                        lp,
                        tp,
                        px,
                        py,
                        input_y as int,
                        input_x as int,
                    )),
            decreases input_width - input_x,
        {
            proof {
                lemma_mul_inequality(input_x as int + 1, input_width as int, m);
                assert(output_x + m <= lp + input_width * m) by (nonlinear_arith)
                    requires
                        output_x == lp + input_x * m,
                        (input_x + 1) * m <= input_width * m,
                ;
            }
            let ghost pre = output;
            let cell = input.get(input_x as i64, input_y as i64);
            if cell.is_some() && cell.unwrap() != 0 {
                let res = output.set_region(output_x, output_y, multiple, multiple);
                proof {
                    assert(res is Ok);
                }
            }
            proof {
                let row = input_y as int;
                let col = input_x as int;
                assert forall|px: int, py: int| output.in_bounds(px, py) implies (output.spec_black(
                    px,
                    py,
                ) == (spec_partial_rendered_black(*input, m, lp, tp, px, py, row, col) || (
                spec_block_contains(m, lp, tp, col, row, px, py) && input.spec_black(
                    col,
                    row,
                )))) by {
                    assert(pre.spec_black(px, py) == spec_partial_rendered_black(
                        *input,
                        m,
                        lp,
                        tp,
                        px,
                        py,
                        row,
                        col,
                    ));
                    assert(spec_block_contains(m, lp, tp, col, row, px, py) == (output_x <= px
                        < output_x + m && output_y <= py < output_y + m));
                }
                lemma_partial_rendered_step(*input, output, m, lp, tp, row, col);
                assert((input_x + 1) * m == input_x * m + m) by (nonlinear_arith);
            }
            input_x += 1;
            output_x += multiple;
        }
        proof {
            assert((input_y + 1) * m == input_y * m + m) by (nonlinear_arith);
        }
        input_y += 1;
        output_y += multiple;
        proof {
            assert forall|px: int, py: int| output.in_bounds(px, py) implies (output.spec_black(
                px,
                py,
            ) == spec_partial_rendered_black(
                *input,
                m,
                lp,
                tp,
                px,
                py,
                input_y as int,
                0,
            )) by {
                lemma_partial_row_wrap(*input, m, lp, tp, px, py, input_y as int);
            }
        }
    }
    proof {
        assert forall|px: int, py: int| output.in_bounds(px, py) implies (output.spec_black(px, py)
            == spec_rendered_black(*input, m, lp, tp, px, py)) by {
            lemma_partial_rendered_complete(*input, m, lp, tp, px, py);
        }
    }
    Ok(output)
}

/// Whether `(px, py)` lies in the scaled block of a module already processed:
/// one in a row above `row`, or in row `row` strictly left of `col`, and
/// black in the input.
pub open spec fn spec_partial_rendered_black(
    input: Matrix,
    m: int,
    lp: int,
    tp: int,
    px: int,
    py: int,
    row: int,
    col: int,
) -> bool {
    exists|mx: int, my: int|
        {
            &&& #[trigger] spec_block_contains(m, lp, tp, mx, my, px, py)
            &&& input.in_bounds(mx, my)
            &&& input.spec_black(mx, my)
            &&& my < row || (my == row && mx < col)
        }
}

/// Whether `(px, py)` lies in the `m` by `m` block of module `(mx, my)`.
pub open spec fn spec_block_contains(
    m: int,
    lp: int,
    tp: int,
    mx: int,
    my: int,
    px: int,
    py: int,
) -> bool {
    &&& lp + mx * m <= px < lp + mx * m + m
    &&& tp + my * m <= py < tp + my * m + m
}

/// Distinct modules own distinct blocks.
proof fn lemma_block_disjoint(m: int, lp: int, tp: int, mx1: int, my1: int, mx2: int, my2: int, px: int, py: int)
    requires
        1 <= m,
        spec_block_contains(m, lp, tp, mx1, my1, px, py),
        spec_block_contains(m, lp, tp, mx2, my2, px, py),
    ensures
        mx1 == mx2 && my1 == my2,
{
    assert(mx1 == mx2) by (nonlinear_arith)
        requires
            1 <= m,
            lp + mx1 * m <= px < lp + mx1 * m + m,
            lp + mx2 * m <= px < lp + mx2 * m + m,
    ;
    assert(my1 == my2) by (nonlinear_arith)
        requires
            1 <= m,
            tp + my1 * m <= py < tp + my1 * m + m,
            tp + my2 * m <= py < tp + my2 * m + m,
    ;
}

/// One step of the render loop: after writing (or skipping) module
/// `(col, row)`, the partially rendered predicate advances by one column.
proof fn lemma_partial_rendered_step(
    input: Matrix,
    output: Matrix,
    m: int,
    lp: int,
    tp: int,
    row: int,
    col: int,
)
    requires
        input.wf(),
        output.wf(),
        1 <= m,
        0 <= lp,
        0 <= tp,
        0 <= row < input.spec_height(),
        0 <= col < input.spec_width(),
        input.spec_width() * m + 2 * lp <= output.spec_width(),
        input.spec_height() * m + 2 * tp <= output.spec_height(),
        forall|px: int, py: int|
            output.in_bounds(px, py) ==> (output.spec_black(px, py) == (
            spec_partial_rendered_black(input, m, lp, tp, px, py, row, col) || (
            spec_block_contains(m, lp, tp, col, row, px, py) && input.spec_black(col, row)))),
    ensures
        forall|px: int, py: int|
            output.in_bounds(px, py) ==> (output.spec_black(px, py)
                == spec_partial_rendered_black(input, m, lp, tp, px, py, row, col + 1)),
{
    assert forall|px: int, py: int| output.in_bounds(px, py) implies (output.spec_black(px, py)
        == spec_partial_rendered_black(input, m, lp, tp, px, py, row, col + 1)) by {
        if spec_partial_rendered_black(input, m, lp, tp, px, py, row, col) {
            assert(spec_partial_rendered_black(input, m, lp, tp, px, py, row, col + 1));
        }
        if spec_block_contains(m, lp, tp, col, row, px, py) && input.spec_black(col, row) {
            assert(spec_partial_rendered_black(input, m, lp, tp, px, py, row, col + 1));
        }
        if spec_partial_rendered_black(input, m, lp, tp, px, py, row, col + 1) {
            let (mx, my) = choose|mx: int, my: int|
                {
                    &&& #[trigger] spec_block_contains(m, lp, tp, mx, my, px, py)
                    &&& input.in_bounds(mx, my)
                    &&& input.spec_black(mx, my)
                    &&& my < row || (my == row && mx < col + 1)
                };
            if my < row || (my == row && mx < col) {
                assert(spec_partial_rendered_black(input, m, lp, tp, px, py, row, col));
            } else {
                assert(mx == col && my == row);
            }
        }
    }
}

/// Finishing a row: having processed every column of `row` is the same as
/// having processed no column of `row + 1`.
proof fn lemma_partial_row_wrap(
    input: Matrix,
    m: int,
    lp: int,
    tp: int,
    px: int,
    py: int,
    row: int,
)
    requires
        input.wf(),
    ensures
        spec_partial_rendered_black(input, m, lp, tp, px, py, row - 1, input.spec_width())
            == spec_partial_rendered_black(input, m, lp, tp, px, py, row, 0),
{
    if spec_partial_rendered_black(input, m, lp, tp, px, py, row - 1, input.spec_width()) {
        let (mx, my) = choose|mx: int, my: int|
            {
                &&& #[trigger] spec_block_contains(m, lp, tp, mx, my, px, py)
                &&& input.in_bounds(mx, my)
                &&& input.spec_black(mx, my)
                &&& my < row - 1 || (my == row - 1 && mx < input.spec_width())
            };
        assert(my < row);
        assert(spec_partial_rendered_black(input, m, lp, tp, px, py, row, 0));
    }
    if spec_partial_rendered_black(input, m, lp, tp, px, py, row, 0) {
        let (mx, my) = choose|mx: int, my: int|
            {
                &&& #[trigger] spec_block_contains(m, lp, tp, mx, my, px, py)
                &&& input.in_bounds(mx, my)
                &&& input.spec_black(mx, my)
                &&& my < row || (my == row && mx < 0)
            };
        assert(my < row - 1 || (my == row - 1 && mx < input.spec_width()));
        assert(spec_partial_rendered_black(input, m, lp, tp, px, py, row - 1, input.spec_width()));
    }
}

/// Having processed every module, the partial predicate coincides with the
/// quotient formulation used in the public contract.
proof fn lemma_partial_rendered_complete(input: Matrix, m: int, lp: int, tp: int, px: int, py: int)
    requires
        input.wf(),
        1 <= m,
    ensures
        spec_partial_rendered_black(input, m, lp, tp, px, py, input.spec_height(), 0)
            == spec_rendered_black(input, m, lp, tp, px, py),
{
    let iw = input.spec_width();
    let ih = input.spec_height();
    if spec_partial_rendered_black(input, m, lp, tp, px, py, ih, 0) {
        let (mx, my) = choose|mx: int, my: int|
            {
                &&& #[trigger] spec_block_contains(m, lp, tp, mx, my, px, py)
                &&& input.in_bounds(mx, my)
                &&& input.spec_black(mx, my)
                &&& my < ih || (my == ih && mx < 0)
            };
        lemma_mul_inequality(mx + 1, iw, m);
        lemma_mul_inequality(my + 1, ih, m);
        assert(mx * m + m <= iw * m) by (nonlinear_arith)
            requires
                (mx + 1) * m <= iw * m,
        ;
        assert(my * m + m <= ih * m) by (nonlinear_arith)
            requires
                (my + 1) * m <= ih * m,
        ;
        assert(0 <= mx * m) by (nonlinear_arith)
            requires
                0 <= mx,
                1 <= m,
        ;
        assert(0 <= my * m) by (nonlinear_arith)
            requires
                0 <= my,
                1 <= m,
        ;
        lemma_fundamental_div_mod_converse(px - lp, m, mx, px - lp - mx * m);
        lemma_fundamental_div_mod_converse(py - tp, m, my, py - tp - my * m);
        assert(m * mx == mx * m) by (nonlinear_arith);
        assert(m * my == my * m) by (nonlinear_arith);
        assert(spec_rendered_black(input, m, lp, tp, px, py));
    }
    if spec_rendered_black(input, m, lp, tp, px, py) {
        let mx = (px - lp) / m;
        let my = (py - tp) / m;
        lemma_fundamental_div_mod(px - lp, m);
        lemma_fundamental_div_mod(py - tp, m);
        assert(0 <= (px - lp) % m < m) by {
            vstd::arithmetic::div_mod::lemma_mod_division_less_than_divisor(px - lp, m);
        }
        assert(0 <= (py - tp) % m < m) by {
            vstd::arithmetic::div_mod::lemma_mod_division_less_than_divisor(py - tp, m);
        }
        lemma_div_pos_is_pos(px - lp, m);
        lemma_div_pos_is_pos(py - tp, m);
        assert(px - lp < m * iw) by (nonlinear_arith)
            requires
                px - lp < iw * m,
        ;
        assert(py - tp < m * ih) by (nonlinear_arith)
            requires
                py - tp < ih * m,
        ;
        lemma_multiply_divide_lt(px - lp, m, iw);
        lemma_multiply_divide_lt(py - tp, m, ih);
        assert(m * mx == mx * m) by (nonlinear_arith);
        assert(m * my == my * m) by (nonlinear_arith);
        assert(spec_block_contains(m, lp, tp, mx, my, px, py));
        assert(spec_partial_rendered_black(input, m, lp, tp, px, py, ih, 0));
    }
}

/// Validates the format and renders the symbol.  The only error is a format
/// other than Aztec; the grid-size bounds are machine limits as in
/// [`renderRXingResult`].
pub fn encode(
    code: &AztecCode,
    format: BarcodeFormat,
    width: u32,
    height: u32,
    dotsize: Option<u32>,
) -> (r: Result<Matrix, WriterError>)
    requires
        code.wf(),
        spec_out_dim(code.spec_matrix().spec_width(), width as int, dotsize) <= 0x4000_0000,
        spec_out_dim(code.spec_matrix().spec_height(), height as int, dotsize) <= 0x4000_0000,
        spec_out_dim(code.spec_matrix().spec_width(), width as int, dotsize) * spec_out_dim(
            code.spec_matrix().spec_height(),
            height as int,
            dotsize,
        ) <= usize::MAX,
    ensures
        format != BarcodeFormat::AZTEC <==> r == Err::<Matrix, WriterError>(
            WriterError::IllegalFormat,
        ),
        format == BarcodeFormat::AZTEC ==> ({
            let input = code.spec_matrix();
            let ow = spec_out_dim(input.spec_width(), width as int, dotsize);
            let oh = spec_out_dim(input.spec_height(), height as int, dotsize);
            let m = spec_multiple(input.spec_width(), input.spec_height(), ow, oh);
            let lp = spec_padding(input.spec_width(), ow, m);
            let tp = spec_padding(input.spec_height(), oh, m);
            match r {
                Ok(out) => {
                    &&& out.wf()
                    &&& out.spec_width() == ow
                    &&& out.spec_height() == oh
                    &&& forall|px: int, py: int|
                        out.in_bounds(px, py) ==> (out.spec_black(px, py) == spec_rendered_black(
                            input,
                            m,
                            lp,
                            tp,
                            px,
                            py,
                        ))
                },
                Err(_) => false,
            }
        }),
{
    if format != BarcodeFormat::AZTEC {
        return Err(WriterError::IllegalFormat);
    }
    renderRXingResult(code, width, height, dotsize)
}

/// Renders an Aztec code as a bit matrix.
#[derive(Default)]
pub struct AztecWriter;

impl AztecWriter {
    /// Resolves encoding hints to concrete options, as the writer hands them
    /// to the payload encoder and the renderer: no character set unless one
    /// is named and differs from ISO-8859-1; the error-correction percentage
    /// parsed from its hint, falling back to `23` on malformed text; layer
    /// count and dot size taken as given.
    pub fn resolve_options(hints: &EncodeHints) -> (r: EncodeOptions)
        ensures
            r.charset == ({
                match hints.character_set {
                    Some(name) => if !eq_ignore_case_spec(name@, "iso-8859-1"@) {
                        if eq_ignore_case_spec(name@, "utf-8"@) || eq_ignore_case_spec(
                            name@,
                            "utf8"@,
                        ) {
                            Some(CharacterSet::Utf8)
                        } else if eq_ignore_case_spec(name@, "us-ascii"@) {
                            Some(CharacterSet::Ascii)
                        } else {
                            None::<CharacterSet>
                        }
                    } else {
                        None::<CharacterSet>
                    },
                    None => None::<CharacterSet>,
                }
            }),
            r.ecc_percent == ({
                match hints.error_correction {
                    Some(t) => match spec_parse_u32(t@) {
                        Some(v) => v,
                        None => 23u32,
                    },
                    None => DEFAULT_EC_PERCENT,
                }
            }),
            r.layers == ({
                match hints.aztec_layers {
                    Some(l) => l,
                    None => DEFAULT_AZTEC_LAYERS,
                }
            }),
            r.dotsize == hints.dot_size_pixels,
    {
        let mut charset: Option<CharacterSet> = None;
        let mut ecc_percent: u32 = DEFAULT_EC_PERCENT;
        let mut layers: i32 = DEFAULT_AZTEC_LAYERS;
        if let Some(cset_name) = &hints.character_set {
            if !eq_ignore_ascii_case(cset_name.as_str(), "iso-8859-1") {
                charset = CharacterSet::get_character_set_by_name(cset_name.as_str());
            }
        }
        if let Some(ecc_level) = &hints.error_correction {
            ecc_percent = match parse_u32_decimal(ecc_level.as_str()) {
                Some(v) => v,
                None => 23,
            };
        }
        if let Some(az_layers) = hints.aztec_layers {
            layers = az_layers;
        }
        let dotsize = hints.dot_size_pixels;
        EncodeOptions { charset, ecc_percent, layers, dotsize }
    }

    /// Validates the format and renders the symbol with no hints given.
    pub fn encode(&self, code: &AztecCode, format: BarcodeFormat, width: u32, height: u32) -> (r:
        Result<Matrix, WriterError>)
        requires
            code.wf(),
            spec_out_dim(code.spec_matrix().spec_width(), width as int, None) <= 0x4000_0000,
            spec_out_dim(code.spec_matrix().spec_height(), height as int, None) <= 0x4000_0000,
            spec_out_dim(code.spec_matrix().spec_width(), width as int, None) * spec_out_dim(
                code.spec_matrix().spec_height(),
                height as int,
                None,
            ) <= usize::MAX,
        ensures
            format != BarcodeFormat::AZTEC <==> r == Err::<Matrix, WriterError>(
                WriterError::IllegalFormat,
            ),
            format == BarcodeFormat::AZTEC ==> ({
                let input = code.spec_matrix();
                let ow = spec_out_dim(input.spec_width(), width as int, None);
                let oh = spec_out_dim(input.spec_height(), height as int, None);
                let m = spec_multiple(input.spec_width(), input.spec_height(), ow, oh);
                let lp = spec_padding(input.spec_width(), ow, m);
                let tp = spec_padding(input.spec_height(), oh, m);
                match r {
                    Ok(out) => {
                        &&& out.wf()
                        &&& out.spec_width() == ow
                        &&& out.spec_height() == oh
                        &&& forall|px: int, py: int|
                            out.in_bounds(px, py) ==> (out.spec_black(px, py)
                                == spec_rendered_black(input, m, lp, tp, px, py))
                    },
                    Err(_) => false,
                }
            }),
    {
        let hints = EncodeHints::new();
        self.encode_with_hints(code, format, width, height, &hints)
    }

    /// Resolves the hints and renders the symbol; only the dot-size hint
    /// affects rendering, the others are for the payload encoder.
    pub fn encode_with_hints(
        &self,
        code: &AztecCode,
        format: BarcodeFormat,
        width: u32,
        height: u32,
        hints: &EncodeHints,
    ) -> (r: Result<Matrix, WriterError>)
        requires
            code.wf(),
            spec_out_dim(code.spec_matrix().spec_width(), width as int, hints.dot_size_pixels)
                <= 0x4000_0000,
            spec_out_dim(code.spec_matrix().spec_height(), height as int, hints.dot_size_pixels)
                <= 0x4000_0000,
            spec_out_dim(code.spec_matrix().spec_width(), width as int, hints.dot_size_pixels)
                * spec_out_dim(
                code.spec_matrix().spec_height(),
                height as int,
                hints.dot_size_pixels,
            ) <= usize::MAX,
        ensures
            format != BarcodeFormat::AZTEC <==> r == Err::<Matrix, WriterError>(
                WriterError::IllegalFormat,
            ),
            format == BarcodeFormat::AZTEC ==> ({
                let input = code.spec_matrix();
                let dotsize = hints.dot_size_pixels;
                let ow = spec_out_dim(input.spec_width(), width as int, dotsize);
                let oh = spec_out_dim(input.spec_height(), height as int, dotsize);
                let m = spec_multiple(input.spec_width(), input.spec_height(), ow, oh);
                let lp = spec_padding(input.spec_width(), ow, m);
                let tp = spec_padding(input.spec_height(), oh, m);
                match r {
                    Ok(out) => {
                        &&& out.wf()
                        &&& out.spec_width() == ow
                        &&& out.spec_height() == oh
                        &&& forall|px: int, py: int|
                            out.in_bounds(px, py) ==> (out.spec_black(px, py)
                                == spec_rendered_black(input, m, lp, tp, px, py))
                    },
                    Err(_) => false,
                }
            }),
    {
        let options = AztecWriter::resolve_options(hints);
        encode(code, format, width, height, options.dotsize)
    }
}

} // verus!
