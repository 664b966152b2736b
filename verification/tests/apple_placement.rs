use snake_game::{Apple, Direction, GridPosition, Snake};

fn cell(x: i32, y: i32) -> GridPosition {
    GridPosition::new(x, y)
}

/// The first `n` cells of a path that winds through the board column by
/// column, the last of them first.
fn winding_snake(n: usize) -> Snake {
    let mut cells = Vec::new();
    for x in 0..10 {
        for k in 0..10 {
            let y = if x % 2 == 0 { k } else { 9 - k };
            cells.push(cell(x, y));
        }
    }
    cells.truncate(n);
    cells.reverse();
    Snake::from_segments(cells, Direction::Right).expect("the path holds no cell twice")
}

#[test]
fn new_apple_lies_on_a_free_cell_of_the_board() {
    for n in 1..100 {
        let snake = winding_snake(n);
        for _ in 0..20 {
            let apple = Apple::new(&snake);
            assert!(apple.position().in_bounds());
            assert!(!snake.is_on_snake(apple.position()));
        }
    }
}

#[test]
fn new_apple_takes_the_only_free_cell() {
    let snake = winding_snake(99);
    for _ in 0..50 {
        assert_eq!(Apple::new(&snake).position(), cell(9, 0));
    }
}

#[test]
fn respawn_moves_the_apple_to_a_free_cell() {
    let mut snake = Snake::new();
    let mut apple = Apple::new(&snake);
    for _ in 0..30 {
        snake.advance(apple.position());
        if !snake.is_alive() {
            break;
        }
        if snake.has_eaten() {
            apple.respawn(&snake);
        }
        assert!(apple.position().in_bounds());
        assert!(!snake.is_on_snake(apple.position()));
    }
}

#[test]
fn apples_appear_all_over_the_board() {
    let snake = Snake::new();
    let mut columns = [false; 10];
    let mut rows = [false; 10];
    for _ in 0..2000 {
        let position = Apple::new(&snake).position();
        columns[position.x as usize] = true;
        rows[position.y as usize] = true;
    }
    assert!(columns.iter().all(|seen| *seen));
    assert!(rows.iter().all(|seen| *seen));
}

#[test]
fn apple_at_takes_free_cells_of_the_board_only() {
    let snake = winding_snake(3);
    assert_eq!(Apple::at(cell(5, 5), &snake).map(|a| a.position()), Some(cell(5, 5)));
    assert_eq!(Apple::at(cell(0, 3), &snake).map(|a| a.position()), Some(cell(0, 3)));
    assert!(Apple::at(cell(0, 0), &snake).is_none());
    assert!(Apple::at(cell(0, 2), &snake).is_none());
    assert!(Apple::at(cell(10, 5), &snake).is_none());
    assert!(Apple::at(cell(5, 10), &snake).is_none());
    assert!(Apple::at(cell(-1, 5), &snake).is_none());
}
