use gridscan::aztec_writer::{AztecCode, renderRXingResult};
use gridscan::bitmatrix_cursor::BitMatrixCursor;
use gridscan::bitmatrix_cursor_trait::BitMatrixCursorTrait;
use gridscan::concentric_finder::{ConcentricFinder, LocateResult};
use gridscan::direction::Direction;
use gridscan::edge_tracer::EdgeTracer;
use gridscan::fast_edge_to_edge_counter::FastEdgeToEdgeCounter;
use gridscan::matrix::Matrix;
use gridscan::regression_line::LineFit;
use gridscan::step_result::StepResult;
use gridscan::value::Value;

/// A grid with a solid black 4x4 block at (2..=5, 2..=5).
fn block_grid() -> Matrix {
    let mut m = Matrix::new(8, 8);
    m.set_region(2, 2, 4, 4).unwrap();
    m
}

/// A 13x13 bullseye: a cell is black when its Chebyshev distance from the
/// centre is even, giving perfectly concentric unit-width rings.
fn bullseye_grid() -> Matrix {
    let mut m = Matrix::new(13, 13);
    for y in 0..13i64 {
        for x in 0..13i64 {
            let d = (x - 6).abs().max((y - 6).abs());
            if d % 2 == 0 {
                m.set(x, y, 1);
            }
        }
    }
    m
}

#[test]
fn cursor_probes_and_steps() {
    let m = block_grid();
    let mut c = BitMatrixCursor::new(&m, 1, 2, Direction::Right);
    assert_eq!(c.value_at(0, 0), Value::White);
    assert_eq!(c.value_at(1, 0), Value::Black);
    // Right of heading Right is Down: (1, 3) is white.
    assert_eq!(c.value_at(0, 1), Value::White);
    assert_eq!(c.value_at(-2, 0), Value::Invalid);
    // An edge lies between (1,2) and (2,2); none between (2,2) and (3,2).
    assert!(c.edge_at(0, 0));
    assert!(!c.edge_at(1, 0));
    assert_eq!(c.step(), StepResult::Continue);
    assert_eq!(c.pos(), (2, 2));
    c.turn_left();
    assert_eq!(c.direction(), Direction::Up);
    assert_eq!(c.step(), StepResult::Continue);
    assert_eq!(c.step(), StepResult::Continue);
    assert_eq!(c.pos(), (2, 0));
    // Stepping off the top edge is refused and reported.
    assert_eq!(c.step(), StepResult::OutOfBounds);
    assert_eq!(c.pos(), (2, 0));
}

#[test]
fn edge_tracer_closes_on_square_ring_within_perimeter() {
    let m = block_grid();
    // The boundary path around the 4x4 block is 20 cells long.
    let mut tracer = EdgeTracer::new(&m, 6, 2, Direction::Down, 20);
    let r = tracer.trace();
    assert_eq!(r, StepResult::Closed);
    assert_eq!(tracer.pos(), (6, 2));
    assert_eq!(tracer.direction(), Direction::Down);
    assert_eq!(tracer.steps(), 20);
    let (n, _, _, _, _, _) = tracer.line().moments();
    assert_eq!(n, 20);
}

#[test]
fn edge_tracer_closes_from_another_corner() {
    let m = block_grid();
    let mut tracer = EdgeTracer::new(&m, 1, 1, Direction::Right, 24);
    assert_eq!(tracer.trace(), StepResult::Closed);
    assert_eq!(tracer.pos(), (1, 1));
    assert_eq!(tracer.direction(), Direction::Right);
}

#[test]
fn edge_tracer_straight_side_fits_axis_aligned_line() {
    let m = block_grid();
    // Three steps down the right flank of the block: budget exhausted.
    let mut tracer = EdgeTracer::new(&m, 6, 2, Direction::Down, 3);
    assert_eq!(tracer.trace(), StepResult::Failed);
    match tracer.line().fit().unwrap() {
        LineFit::Vertical { x_num, x_den } => {
            // All traced points lie on x = 6.
            assert_eq!(x_num, 18);
            assert_eq!(x_den, 3);
        }
        LineFit::Sloped { .. } => panic!("expected a vertical fit"),
    }
}

#[test]
fn edge_tracer_fails_on_isolated_cell() {
    let mut m = Matrix::new(5, 5);
    m.set(2, 2, 1);
    // Starting on the lone black cell, the walk can never return to its
    // black starting position: the budget runs out and the trace fails.
    let mut tracer = EdgeTracer::new(&m, 2, 2, Direction::Right, 16);
    assert_eq!(tracer.trace(), StepResult::Failed);
}

#[test]
fn fast_counter_counts_cells_to_nth_transition() {
    let mut m = Matrix::new(8, 1);
    for x in [2i64, 3, 6, 7] {
        m.set(x, 0, 1);
    }
    // Colours along the row: W W B B W W B B.
    let c1 = FastEdgeToEdgeCounter::count_edge_to_edge(&m, 0, 0, Direction::Right, 1);
    assert_eq!(c1, Some(2));
    let c2 = FastEdgeToEdgeCounter::count_edge_to_edge(&m, 0, 0, Direction::Right, 2);
    assert_eq!(c2, Some(4));
    let c3 = FastEdgeToEdgeCounter::count_edge_to_edge(&m, 0, 0, Direction::Right, 3);
    assert_eq!(c3, Some(6));
    // The boundary comes before a fourth transition.
    let c4 = FastEdgeToEdgeCounter::count_edge_to_edge(&m, 0, 0, Direction::Right, 4);
    assert_eq!(c4, None);
}

#[test]
fn concentric_finder_locates_bullseye_centre_exactly() {
    let m = bullseye_grid();
    let template: Vec<u16> = vec![1, 1, 1, 1];
    match ConcentricFinder::locate(&m, 6, 6, 2, &template, 1, 4) {
        LocateResult::Found(p) => {
            assert_eq!(p.rings, 2);
            // The centre estimate is exactly the true centre.
            assert_eq!(p.center_x.num, 12);
            assert_eq!(p.center_x.den, 2);
            assert_eq!(p.center_y.num, 12);
            assert_eq!(p.center_y.den, 2);
            assert_eq!(p.runs_right, vec![1, 1, 1, 1]);
            assert_eq!(p.runs_left, vec![1, 1, 1, 1]);
            assert_eq!(p.runs_down, vec![1, 1, 1, 1]);
            assert_eq!(p.runs_up, vec![1, 1, 1, 1]);
            // One fitted edge line per concentric transition; the trace of
            // the innermost ring boundary closes around its 8 cells.
            assert_eq!(p.edge_lines.len(), 4);
            assert_eq!(p.edge_lines[0].length(), 8);
        }
        LocateResult::NotFound => panic!("expected the bullseye to be found"),
    }
}

#[test]
fn concentric_finder_reports_not_found_without_ring_structure() {
    // A blank grid has no transitions at all.
    let blank = Matrix::new(13, 13);
    let template: Vec<u16> = vec![1, 1, 1, 1];
    assert!(matches!(
        ConcentricFinder::locate(&blank, 6, 6, 2, &template, 1, 4),
        LocateResult::NotFound
    ));
    // A lone dot gives one transition per ray, never four.
    let mut dot = Matrix::new(13, 13);
    dot.set(6, 6, 1);
    assert!(matches!(
        ConcentricFinder::locate(&dot, 6, 6, 2, &template, 1, 4),
        LocateResult::NotFound
    ));
    // Rings of the wrong proportions are rejected by the template.
    let m = bullseye_grid();
    let wrong: Vec<u16> = vec![1, 5, 1, 5];
    assert!(matches!(
        ConcentricFinder::locate(&m, 6, 6, 2, &wrong, 1, 4),
        LocateResult::NotFound
    ));
}

#[test]
fn round_trip_rendered_symbol_is_relocated() {
    // Render the bullseye module grid at three cells per module, then run
    // the detection pipeline on the rendered bitmap as a decoder would.
    let code = AztecCode::new(bullseye_grid());
    let out = renderRXingResult(&code, 0, 0, Some(3)).unwrap();
    assert_eq!(out.width(), 39);
    assert_eq!(out.height(), 39);
    // The true centre is the middle of module (6,6): cells 18..=20.
    let template: Vec<u16> = vec![1, 1, 1, 1];
    match ConcentricFinder::locate(&out, 19, 19, 2, &template, 2, 4) {
        LocateResult::Found(p) => {
            assert_eq!(p.rings, 2);
            // Recovered centre 19 is within half a cell of the true 19.5.
            assert_eq!(p.center_x.num, 38);
            assert_eq!(p.center_x.den, 2);
            assert_eq!(p.center_y.num, 38);
            assert_eq!(p.center_y.den, 2);
            // Ring widths reproduce the three-cell module size after the
            // first partial run.
            assert_eq!(p.runs_right, vec![2, 3, 3, 3]);
            assert_eq!(p.runs_left, vec![2, 3, 3, 3]);
            // The innermost edge line traces the 16-cell boundary of the
            // scaled centre module.
            assert_eq!(p.edge_lines.len(), 4);
            assert_eq!(p.edge_lines[0].length(), 16);
        }
        LocateResult::NotFound => panic!("expected the rendered symbol to be relocated"),
    }
}

#[test]
fn cursor_trait_probes_and_advances() {
    let m = block_grid();
    let mut c = BitMatrixCursor::new(&m, 1, 2, Direction::Right);
    assert_eq!(BitMatrixCursorTrait::probe(&c, 1, 0), Value::Black);
    assert!(c.transition_at(0, 0));
    assert_eq!(c.advance(), StepResult::Continue);
    assert_eq!(c.pos(), (2, 2));
    c.rotate(-2);
    assert_eq!(c.direction(), Direction::Up);
}
