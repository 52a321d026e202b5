use snake_game::apple::Apple;
use snake_game::grid::{Board, Cell, Direction, SnakeState};
use snake_game::sim::Simulation;
use snake_game::snake::Snake;
use std::collections::{LinkedList, VecDeque};
use std::iter::FromIterator;

#[test]
fn snake_update_loop() {
    let board = Board::new(10, 10);
    let mut snake = Snake::new(board);
    snake.dir = Direction::Left;
    let mut apple = Apple::new(board);
    apple.pos = Cell { x: 9, y: 9 };
    snake.advance(&mut apple, board);
    assert_eq!(
        snake.body,
        VecDeque::from(vec![Cell { x: 9, y: 0 }, Cell { x: 0, y: 0 }])
    );
}

#[test]
fn hit_self_dead() {
    let board = Board::new(10, 10);
    let mut snake = Snake::new(board);
    snake.dir = Direction::Left;
    assert_eq!(snake.hit_self(Cell { x: 0, y: 0 }), SnakeState::Dead)
}

#[test]
fn hit_self_live() {
    let board = Board::new(10, 10);
    let mut snake = Snake::new(board);
    snake.dir = Direction::Left;
    assert_eq!(snake.hit_self(Cell { x: 2, y: 0 }), SnakeState::Live)
}

#[test]
fn linked_list_compare() {
    assert_eq!(
        LinkedList::from_iter((vec![(-1, 0), (0, 0)]).into_iter()),
        LinkedList::from_iter((vec![(-1, 0), (0, 0)]).into_iter())
    );
}

#[test]
fn test_tuple_compare() {
    let a: &(i32, i32) = &(3, 4);
    let b: &(i32, i32) = &(3, 4);
    assert_eq!(a == b, true);
}

#[test]
fn test_tuple_compare_false() {
    let a: &(i32, i32) = &(3, 4);
    let b: &(i32, i32) = &(3, 6);
    assert_eq!(a == b, false);
}

#[test]
fn test_mod_minus() {
    assert_eq!((-1 + 3) % 3, 2);
}

#[test]
fn wraparound_left_edge_no_growth() {
    let board = Board::new(10, 10);
    let mut snake = Snake::new(board);
    snake.dir = Direction::Left;
    let mut apple = Apple::new(board);
    apple.pos = Cell { x: 5, y: 5 };
    let state = snake.advance(&mut apple, board);
    assert_eq!(state, SnakeState::Live);
    assert_eq!(
        snake.body,
        VecDeque::from(vec![Cell { x: 9, y: 0 }, Cell { x: 0, y: 0 }])
    );
    assert_eq!(snake.body.len(), 2);
    assert_eq!(apple.pos, Cell { x: 5, y: 5 });
}

#[test]
fn wraparound_left_edge_growth() {
    let board = Board::new(10, 10);
    let mut snake = Snake::new(board);
    snake.dir = Direction::Left;
    let mut apple = Apple::new(board);
    apple.pos = Cell { x: 9, y: 0 };
    let state = snake.advance(&mut apple, board);
    assert_eq!(state, SnakeState::Live);
    assert_eq!(
        snake.body,
        VecDeque::from(vec![
            Cell { x: 9, y: 0 },
            Cell { x: 0, y: 0 },
            Cell { x: 0, y: 1 }
        ])
    );
    assert_eq!(snake.body.len(), 3);
    assert!(!snake.body.contains(&apple.pos));
}

#[test]
fn wraparound_all_edges() {
    let board = Board::new(10, 10);
    assert_eq!(
        board.step(Cell { x: 9, y: 5 }, Direction::Right),
        Cell { x: 0, y: 5 }
    );
    assert_eq!(
        board.step(Cell { x: 0, y: 5 }, Direction::Left),
        Cell { x: 9, y: 5 }
    );
    assert_eq!(
        board.step(Cell { x: 5, y: 0 }, Direction::Up),
        Cell { x: 5, y: 9 }
    );
    assert_eq!(
        board.step(Cell { x: 5, y: 9 }, Direction::Down),
        Cell { x: 5, y: 0 }
    );
    assert_eq!(
        board.step(Cell { x: 4, y: 4 }, Direction::Right),
        Cell { x: 5, y: 4 }
    );
}

#[test]
fn self_collision_freezes_body() {
    let board = Board::new(10, 10);
    let mut snake = Snake {
        body: VecDeque::from(vec![
            Cell { x: 2, y: 2 },
            Cell { x: 3, y: 2 },
            Cell { x: 3, y: 3 },
            Cell { x: 2, y: 3 },
        ]),
        dir: Direction::Down,
        state: SnakeState::Live,
    };
    let mut apple = Apple::new(board);
    apple.pos = Cell { x: 7, y: 7 };
    let before = snake.body.clone();
    let state = snake.advance(&mut apple, board);
    assert_eq!(state, SnakeState::Dead);
    assert_eq!(snake.state, SnakeState::Dead);
    assert_eq!(snake.body, before);
    assert_eq!(apple.pos, Cell { x: 7, y: 7 });
}

#[test]
fn reversal_guard() {
    let board = Board::new(10, 10);
    let mut sim = Simulation::new(board, 20);
    sim.on_direction_input(Direction::Left);
    assert_eq!(sim.snake.dir, Direction::Right);
    sim.on_direction_input(Direction::Up);
    assert_eq!(sim.snake.dir, Direction::Up);
    sim.on_direction_input(Direction::Down);
    assert_eq!(sim.snake.dir, Direction::Up);
    sim.on_direction_input(Direction::Right);
    assert_eq!(sim.snake.dir, Direction::Right);
    sim.on_direction_input(Direction::Down);
    assert_eq!(sim.snake.dir, Direction::Down);
}

#[test]
fn reset_restores_initial_state() {
    let board = Board::new(10, 10);
    let mut sim = Simulation::new(board, 20);
    for _ in 0..5 {
        sim.tick();
    }
    sim.on_reset_input();
    let snap = sim.snapshot();
    assert_eq!(snap.cells, vec![Cell { x: 0, y: 0 }, Cell { x: 0, y: 1 }]);
    assert_eq!(snap.cells.len(), 2);
    assert_eq!(sim.snake.dir, Direction::Right);
    assert_eq!(snap.state, SnakeState::Live);
    assert!(!snap.cells.contains(&snap.apple));
}

#[test]
fn fresh_apple_avoids_snake() {
    let board = Board::new(10, 10);
    for _ in 0..50 {
        let sim = Simulation::new(board, 20);
        let snap = sim.snapshot();
        assert!(snap.apple.x < 10 && snap.apple.y < 10);
        assert!(!snap.cells.contains(&snap.apple));
    }
}

#[test]
fn cells_stay_on_board() {
    let board = Board::new(10, 10);
    let mut sim = Simulation::new(board, 20);
    let dirs = [
        Direction::Right,
        Direction::Down,
        Direction::Left,
        Direction::Up,
    ];
    for i in 0..40 {
        sim.on_direction_input(dirs[i % 4]);
        sim.tick();
        let snap = sim.snapshot();
        for c in &snap.cells {
            assert!(c.x < 10 && c.y < 10);
        }
    }
}

#[test]
fn live_body_never_duplicates() {
    let board = Board::new(10, 10);
    let mut sim = Simulation::new(board, 20);
    for _ in 0..30 {
        sim.tick();
        let snap = sim.snapshot();
        for i in 0..snap.cells.len() {
            for j in (i + 1)..snap.cells.len() {
                assert_ne!(snap.cells[i], snap.cells[j]);
            }
        }
    }
}

#[test]
fn dead_snake_tick_is_noop() {
    let board = Board::new(10, 10);
    let mut sim = Simulation::new(board, 20);
    sim.snake = Snake {
        body: VecDeque::from(vec![
            Cell { x: 2, y: 2 },
            Cell { x: 3, y: 2 },
            Cell { x: 3, y: 3 },
            Cell { x: 2, y: 3 },
        ]),
        dir: Direction::Down,
        state: SnakeState::Live,
    };
    sim.apple.pos = Cell { x: 7, y: 7 };
    sim.tick();
    assert_eq!(sim.snake.state, SnakeState::Dead);
    let before = sim.snake.body.clone();
    let apple_before = sim.apple.pos;
    sim.tick();
    sim.tick();
    assert_eq!(sim.snake.state, SnakeState::Dead);
    assert_eq!(sim.snake.body, before);
    assert_eq!(sim.apple.pos, apple_before);
}
