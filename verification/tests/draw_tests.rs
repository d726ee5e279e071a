use lines_of_action::board::{Board, Colour};
use lines_of_action::command::Move;
use lines_of_action::draw::{Canvas, Drawable, Shape};

#[test]
fn opening_board_is_painted_cell_by_cell() {
    let board = Board::new();
    let mut canvas = Canvas::new();
    assert_eq!(board.draw(&mut canvas), Ok(()));
    assert_eq!(canvas.shapes.len(), 64 + 24);
    assert_eq!(canvas.shapes[0], Shape::Square { x: 0, y: 0, side: 30 });
    assert_eq!(canvas.shapes[1], Shape::Square { x: 0, y: 30, side: 30 });
    assert_eq!(canvas.shapes[2], Shape::Disc { x: 0, y: 30, radius: 15, colour: Colour::White });
    assert_eq!(canvas.shapes[3], Shape::Square { x: 0, y: 60, side: 30 });
    let last = canvas.shapes.len() - 1;
    assert_eq!(canvas.shapes[last], Shape::Square { x: 210, y: 210, side: 30 });
}

#[test]
fn every_cell_is_outlined_and_every_piece_painted() {
    let mut board = Board::new();
    assert_eq!(board.move_piece(&Move::new(3, 0, 3, 4), &Colour::Black), Ok(()));
    let mut canvas = Canvas::new();
    assert_eq!(board.draw(&mut canvas), Ok(()));
    let mut want = Vec::new();
    for x in 0..8u32 {
        for y in 0..8u32 {
            want.push(Shape::Square { x: x * 30, y: y * 30, side: 30 });
            let cell = board.cell_at(x as usize, y as usize);
            if cell.has_piece {
                want.push(Shape::Disc { x: x * 30, y: y * 30, radius: 15, colour: cell.colour });
            }
        }
    }
    assert_eq!(canvas.shapes, want);
    assert!(canvas.shapes.contains(&Shape::Disc { x: 90, y: 120, radius: 15, colour: Colour::Black }));
    assert!(!canvas.shapes.contains(&Shape::Disc { x: 90, y: 0, radius: 15, colour: Colour::Black }));
}

#[test]
fn painting_adds_to_what_is_there() {
    let board = Board::new();
    let mut canvas = Canvas::new();
    canvas.shapes.push(Shape::Square { x: 1, y: 2, side: 3 });
    assert_eq!(board.draw(&mut canvas), Ok(()));
    assert_eq!(canvas.shapes.len(), 1 + 64 + 24);
    assert_eq!(canvas.shapes[0], Shape::Square { x: 1, y: 2, side: 3 });
    assert_eq!(canvas.shapes[1], Shape::Square { x: 0, y: 0, side: 30 });
}
