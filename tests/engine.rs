use snake::{
    frame_pause, EndReason, Game, Input, Status, GROWTH,
};
use snake::Direction;

fn run(g: &mut Game, inputs: &[Option<Input>]) -> Status {
    let mut last = Status::Running;
    for input in inputs {
        last = g.step(*input);
        if !matches!(last, Status::Running) {
            break;
        }
    }
    last
}

fn head_of(g: &Game) -> (u32, u32) {
    *g.body().last().unwrap()
}

#[test]
fn new_game_starts_in_the_middle() {
    let g = Game::new(32, 16, 10);
    assert_eq!(g.body(), vec![(8, 16)]);
    assert!(g.heading() == Direction::Up);
    assert_eq!(g.target_length(), 10);
    assert_eq!(g.score(), 0);
    assert_eq!(g.apple(), None);
    assert_eq!(g.width(), 32);
    assert_eq!(g.height(), 16);
}

#[test]
fn reversal_is_ignored() {
    let mut g = Game::new(10, 10, 10);
    let s = g.step(Some(Input::D(Direction::Down)));
    assert!(matches!(s, Status::Running));
    assert!(g.heading() == Direction::Up);
    assert_eq!(head_of(&g), (4, 5));
}

#[test]
fn turning_changes_heading() {
    let mut g = Game::new(10, 10, 10);
    g.step(Some(Input::D(Direction::Left)));
    assert!(g.heading() == Direction::Left);
    assert_eq!(g.body(), vec![(5, 5), (5, 4)]);
}

#[test]
fn quit_ends_without_moving() {
    let mut g = Game::new(10, 10, 10);
    let s = g.step(Some(Input::Quit));
    assert!(matches!(s, Status::Terminated(EndReason::PlayerQuit)));
    assert_eq!(g.body(), vec![(5, 5)]);
}

#[test]
fn eating_an_apple_scores_and_grows() {
    let mut g = Game::new(10, 10, 10);
    assert_eq!(g.free_cell_count(), 99);
    g.place_apple(45);
    assert_eq!(g.apple(), Some((4, 5)));
    let s = g.step(None);
    assert!(matches!(s, Status::Running));
    assert_eq!(head_of(&g), (4, 5));
    assert_eq!(g.score(), 1);
    assert_eq!(g.target_length(), 10 + GROWTH);
    assert_eq!(g.target_length(), 12);
    assert_eq!(g.apple(), None);
    let mut rng = rand::thread_rng();
    assert!(g.spawn_apple(&mut rng));
    let apple = g.apple().unwrap();
    assert!(!g.body().contains(&apple));
    assert!(apple.0 < 10 && apple.1 < 10);
}

#[test]
fn tick_eats_and_places_a_new_apple() {
    let mut rng = rand::thread_rng();
    let mut g = Game::new(10, 10, 10);
    g.place_apple(45);
    let s = g.tick(None, &mut rng);
    assert!(matches!(s, Status::Running));
    assert_eq!(head_of(&g), (4, 5));
    assert_eq!(g.score(), 1);
    assert_eq!(g.target_length(), 12);
    let apple = g.apple().unwrap();
    assert!(!g.body().contains(&apple));
}

#[test]
fn spawn_uses_the_drawn_cell() {
    let mut rng = rand::thread_rng();
    let mut g = Game::new(3, 1, 5);
    assert_eq!(g.body(), vec![(0, 1)]);
    g.step(Some(Input::D(Direction::Left)));
    assert_eq!(g.body(), vec![(0, 1), (0, 0)]);
    assert_eq!(g.free_cell_count(), 1);
    assert!(g.spawn_apple(&mut rng));
    assert_eq!(g.apple(), Some((0, 2)));
}

#[test]
fn full_board_ends_the_game() {
    let mut rng = rand::thread_rng();
    let mut g = Game::new(2, 1, 2);
    g.place_apple(0);
    assert_eq!(g.apple(), Some((0, 0)));
    let s = g.tick(Some(Input::D(Direction::Left)), &mut rng);
    assert!(matches!(s, Status::Terminated(EndReason::BoardFull)));
    assert_eq!(g.score(), 1);
    assert_eq!(g.free_cell_count(), 0);
    assert!(!g.spawn_apple(&mut rng));
}

#[test]
fn nth_free_cell_skips_the_snake() {
    let g = Game::new(10, 10, 10);
    assert_eq!(g.nth_free_cell(0), (0, 0));
    assert_eq!(g.nth_free_cell(45), (4, 5));
    assert_eq!(g.nth_free_cell(55), (5, 6));
    assert_eq!(g.nth_free_cell(98), (9, 9));
}

#[test]
fn right_edge_is_a_wall() {
    let mut g = Game::new(10, 10, 10);
    let s = run(
        &mut g,
        &[Some(Input::D(Direction::Right)), None, None, None],
    );
    assert!(matches!(s, Status::Running));
    assert_eq!(head_of(&g), (5, 9));
    let before = g.body();
    let s = g.step(None);
    assert!(matches!(s, Status::Terminated(EndReason::WallCollision)));
    assert_eq!(g.body(), before);
}

#[test]
fn every_edge_is_a_wall() {
    let mut g = Game::new(10, 10, 10);
    let s = run(&mut g, &[None, None, None, None, None]);
    assert!(matches!(s, Status::Running));
    assert_eq!(head_of(&g), (0, 5));
    assert!(matches!(g.step(None), Status::Terminated(EndReason::WallCollision)));

    let mut g = Game::new(10, 10, 10);
    let moves = [Some(Input::D(Direction::Left)), None, None, None, None];
    assert!(matches!(run(&mut g, &moves), Status::Running));
    assert_eq!(head_of(&g), (5, 0));
    assert!(matches!(g.step(None), Status::Terminated(EndReason::WallCollision)));

    let mut g = Game::new(10, 10, 10);
    let moves = [Some(Input::D(Direction::Left)), Some(Input::D(Direction::Down)), None, None, None];
    assert!(matches!(run(&mut g, &moves), Status::Running));
    assert_eq!(head_of(&g), (9, 4));
    assert!(matches!(g.step(None), Status::Terminated(EndReason::WallCollision)));
}

#[test]
fn running_into_the_body_ends_the_game() {
    let mut g = Game::new(10, 10, 10);
    let moves = [
        Some(Input::D(Direction::Right)),
        Some(Input::D(Direction::Down)),
        Some(Input::D(Direction::Left)),
    ];
    assert!(matches!(run(&mut g, &moves), Status::Running));
    let s = g.step(Some(Input::D(Direction::Up)));
    assert!(matches!(s, Status::Terminated(EndReason::SelfCollision)));
    assert_eq!(g.body().len(), 4);
}

#[test]
fn moving_onto_the_departing_tail_is_allowed() {
    let mut g = Game::new(10, 10, 4);
    let moves = [
        Some(Input::D(Direction::Right)),
        Some(Input::D(Direction::Down)),
        Some(Input::D(Direction::Left)),
    ];
    assert!(matches!(run(&mut g, &moves), Status::Running));
    assert_eq!(g.body(), vec![(5, 5), (5, 6), (6, 6), (6, 5)]);
    let s = g.step(Some(Input::D(Direction::Up)));
    assert!(matches!(s, Status::Running));
    assert_eq!(g.body(), vec![(5, 6), (6, 6), (6, 5), (5, 5)]);
}

#[test]
fn body_never_outgrows_target() {
    let mut rng = rand::thread_rng();
    let dirs = [Direction::Up, Direction::Left, Direction::Down, Direction::Right];
    for round in 0..20u32 {
        let mut g = Game::new(8, 6, 3);
        assert!(g.spawn_apple(&mut rng));
        for t in 0..200u32 {
            let input = if (t + round) % 3 == 0 {
                Some(Input::D(dirs[((t / 3 + round) % 4) as usize]))
            } else {
                None
            };
            let s = g.tick(input, &mut rng);
            assert!(g.body().len() as u32 <= g.target_length());
            if !matches!(s, Status::Running) {
                break;
            }
            let apple = g.apple().unwrap();
            assert!(!g.body().contains(&apple));
        }
    }
}

#[test]
fn empty_polls_keep_heading() {
    let mut g = Game::new(10, 10, 10);
    g.step(Some(Input::D(Direction::Left)));
    for _ in 0..4 {
        let polled = snake::latest_input(&[]);
        assert!(polled.is_none());
        assert!(matches!(g.step(polled), Status::Running));
        assert!(g.heading() == Direction::Left);
    }
}

#[test]
fn pause_fills_the_frame_budget() {
    assert_eq!(frame_pause(3, 10), 7);
    assert_eq!(frame_pause(0, 100_000_000), 100_000_000);
    assert_eq!(frame_pause(10, 10), 0);
    assert_eq!(frame_pause(12, 10), 0);
}
