use baguette::canvas::World;
use baguette::diagnostic::{Diagnostic, ErrorKind};
use baguette::directive::{Directive, PastryKind};
use baguette::layout::{apply_directive, Cursor, BOTTOM_EDGE, RIGHT_EDGE};

const TAN: [u8; 4] = [179, 145, 103, 255];
const BLACK: [u8; 4] = [0, 0, 0, 255];
const GRAY: [u8; 4] = [211, 211, 211, 211];

fn drawn(world: &World) -> Vec<(u32, u32, [u8; 4])> {
    let mut cells = Vec::new();
    for (i, cell) in world.pixels.chunks(4).enumerate() {
        if cell != GRAY {
            cells.push((i as u32 % 960, i as u32 / 960, [cell[0], cell[1], cell[2], cell[3]]));
        }
    }
    cells
}

#[test]
fn viewport_edges_are_where_the_margins_put_them() {
    assert_eq!(RIGHT_EDGE, 920);
    assert_eq!(BOTTOM_EDGE, 500);
}

#[test]
fn cursor_starts_at_the_top_left_of_the_viewport() {
    let cursor = Cursor::new();
    assert_eq!(cursor, Cursor { x: 40, y: 40 });
    assert_eq!(cursor.line(), 1);
    assert_eq!(Cursor { x: 500, y: 499 }.line(), 460);
}

#[test]
fn line_break_moves_to_the_start_of_the_next_row() {
    let mut world = World::new();
    let mut cursor = Cursor { x: 123, y: 77 };
    assert_eq!(apply_directive(&mut world, &mut cursor, &Directive::LineBreak), Ok(()));
    assert_eq!(cursor, Cursor { x: 40, y: 78 });
    assert!(drawn(&world).is_empty());
}

#[test]
fn solid_pixel_draws_at_the_cursor_and_advances() {
    let mut world = World::new();
    let mut cursor = Cursor { x: 100, y: 200 };
    let d = Directive::SolidPixel { kind: PastryKind::Croissant };
    assert_eq!(apply_directive(&mut world, &mut cursor, &d), Ok(()));
    assert_eq!(cursor, Cursor { x: 101, y: 200 });
    assert_eq!(drawn(&world), vec![(100, 200, BLACK)]);
}

#[test]
fn colored_pixel_draws_its_own_color() {
    let mut world = World::new();
    let mut cursor = Cursor::new();
    let d = Directive::ColoredPixel { kind: PastryKind::Baguette, color: [10, 20, 30, 40] };
    assert_eq!(apply_directive(&mut world, &mut cursor, &d), Ok(()));
    assert_eq!(cursor, Cursor { x: 41, y: 40 });
    assert_eq!(drawn(&world), vec![(40, 40, [10, 20, 30, 40])]);
}

#[test]
fn pixel_in_the_last_column_wraps() {
    let mut world = World::new();
    let mut cursor = Cursor { x: 919, y: 40 };
    let d = Directive::SolidPixel { kind: PastryKind::Baguette };
    assert_eq!(apply_directive(&mut world, &mut cursor, &d), Ok(()));
    assert_eq!(cursor, Cursor { x: 40, y: 41 });
    assert_eq!(drawn(&world), vec![(919, 40, TAN)]);
}

#[test]
fn pixel_in_the_last_cell_of_the_viewport_overflows() {
    let mut world = World::new();
    let mut cursor = Cursor { x: 919, y: 499 };
    let d = Directive::SolidPixel { kind: PastryKind::Baguette };
    assert_eq!(
        apply_directive(&mut world, &mut cursor, &d),
        Err(Diagnostic { line: 461, kind: ErrorKind::HeightOverflow })
    );
    assert_eq!(cursor, Cursor { x: 919, y: 499 });
    assert_eq!(drawn(&world), vec![(919, 499, TAN)]);
}

#[test]
fn line_break_in_the_last_row_overflows() {
    let mut world = World::new();
    let mut cursor = Cursor { x: 50, y: 499 };
    assert_eq!(
        apply_directive(&mut world, &mut cursor, &Directive::LineBreak),
        Err(Diagnostic { line: 461, kind: ErrorKind::HeightOverflow })
    );
    assert_eq!(cursor, Cursor { x: 50, y: 499 });
}

#[test]
fn background_advances_the_cursor_like_a_pixel() {
    let mut world = World::new();
    let mut cursor = Cursor { x: 50, y: 60 };
    let d = Directive::SetBackground { color: Some([1, 2, 3, 4]) };
    assert_eq!(apply_directive(&mut world, &mut cursor, &d), Ok(()));
    assert_eq!(cursor, Cursor { x: 51, y: 60 });
    assert_eq!(world.background_color, [1, 2, 3, 4]);
    assert!(world.pixels.chunks(4).all(|cell| cell == [1, 2, 3, 4]));
    let mut cursor = Cursor { x: 919, y: 60 };
    assert_eq!(apply_directive(&mut world, &mut cursor, &d), Ok(()));
    assert_eq!(cursor, Cursor { x: 40, y: 61 });
}

#[test]
fn inert_background_only_advances_the_cursor() {
    let mut world = World::new();
    world.draw_pixel(1, 1, [9, 9, 9, 9]);
    let mut cursor = Cursor { x: 50, y: 60 };
    let d = Directive::SetBackground { color: None };
    assert_eq!(apply_directive(&mut world, &mut cursor, &d), Ok(()));
    assert_eq!(cursor, Cursor { x: 51, y: 60 });
    assert_eq!(world.background_color, [211, 211, 211, 255]);
    assert_eq!(drawn(&world), vec![(1, 1, [9, 9, 9, 9])]);
}

#[test]
fn loop_draws_a_run_and_stops_behind_it() {
    let mut world = World::new();
    let mut cursor = Cursor { x: 100, y: 50 };
    let d = Directive::RepeatedPixel { count: 3, kind: PastryKind::Baguette, color: None };
    assert_eq!(apply_directive(&mut world, &mut cursor, &d), Ok(()));
    assert_eq!(cursor, Cursor { x: 103, y: 50 });
    assert_eq!(drawn(&world), vec![(100, 50, TAN), (101, 50, TAN), (102, 50, TAN)]);
}

#[test]
fn loop_draws_in_the_color_it_is_given() {
    let mut world = World::new();
    let mut cursor = Cursor::new();
    let d = Directive::RepeatedPixel {
        count: 2,
        kind: PastryKind::Croissant,
        color: Some([7, 8, 9, 10]),
    };
    assert_eq!(apply_directive(&mut world, &mut cursor, &d), Ok(()));
    assert_eq!(cursor, Cursor { x: 42, y: 40 });
    assert_eq!(drawn(&world), vec![(40, 40, [7, 8, 9, 10]), (41, 40, [7, 8, 9, 10])]);
}

#[test]
fn loop_of_none_does_nothing() {
    let mut world = World::new();
    let mut cursor = Cursor { x: 100, y: 50 };
    let d = Directive::RepeatedPixel { count: 0, kind: PastryKind::Croissant, color: None };
    assert_eq!(apply_directive(&mut world, &mut cursor, &d), Ok(()));
    assert_eq!(cursor, Cursor { x: 100, y: 50 });
    assert!(drawn(&world).is_empty());
}

#[test]
fn loop_may_stop_in_the_last_column() {
    let mut world = World::new();
    let mut cursor = Cursor::new();
    let d = Directive::RepeatedPixel { count: 879, kind: PastryKind::Croissant, color: None };
    assert_eq!(apply_directive(&mut world, &mut cursor, &d), Ok(()));
    assert_eq!(cursor, Cursor { x: 919, y: 40 });
    let cells = drawn(&world);
    assert_eq!(cells.len(), 879);
    assert_eq!(cells[0], (40, 40, BLACK));
    assert_eq!(cells[878], (918, 40, BLACK));
}

#[test]
fn loop_that_reaches_the_right_edge_overflows() {
    let mut world = World::new();
    let mut cursor = Cursor { x: 40, y: 45 };
    let d = Directive::RepeatedPixel { count: 880, kind: PastryKind::Croissant, color: None };
    assert_eq!(
        apply_directive(&mut world, &mut cursor, &d),
        Err(Diagnostic { line: 6, kind: ErrorKind::WidthOverflow })
    );
    assert_eq!(cursor, Cursor { x: 40, y: 45 });
    let cells = drawn(&world);
    assert_eq!(cells.len(), 880);
    assert_eq!(cells[879], (919, 45, BLACK));
    assert_eq!(world.pixel(920, 45), Some(GRAY));
}

#[test]
fn huge_loop_overflows_without_drawing_past_the_edge() {
    let mut world = World::new();
    let mut cursor = Cursor { x: 918, y: 40 };
    let d = Directive::RepeatedPixel { count: 2147483647, kind: PastryKind::Baguette, color: None };
    assert_eq!(
        apply_directive(&mut world, &mut cursor, &d),
        Err(Diagnostic { line: 1, kind: ErrorKind::WidthOverflow })
    );
    assert_eq!(drawn(&world), vec![(918, 40, TAN), (919, 40, TAN)]);
}
