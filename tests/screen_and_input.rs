use snake::{
    _update_snake, handle_keyevent, latest_input, render_frame, reset_screen, Direction, Game,
    GameItems, Input, Key, Segment, SegmentType,
};

fn is_dir(i: Option<Input>, d: Direction) -> bool {
    matches!(i, Some(Input::D(x)) if x == d)
}

#[test]
fn opposite_directions() {
    assert!(Direction::Up.opposite() == Direction::Down);
    assert!(Direction::Down.opposite() == Direction::Up);
    assert!(Direction::Left.opposite() == Direction::Right);
    assert!(Direction::Right.opposite() == Direction::Left);
    assert!(Direction::Up != Direction::Left);
}

#[test]
fn keys_decode_to_commands() {
    assert!(is_dir(handle_keyevent(Key::Up), Direction::Up));
    assert!(is_dir(handle_keyevent(Key::Down), Direction::Down));
    assert!(is_dir(handle_keyevent(Key::Left), Direction::Left));
    assert!(is_dir(handle_keyevent(Key::Right), Direction::Right));
    assert!(is_dir(handle_keyevent(Key::Char('w')), Direction::Up));
    assert!(is_dir(handle_keyevent(Key::Char('A')), Direction::Left));
    assert!(is_dir(handle_keyevent(Key::Char('s')), Direction::Down));
    assert!(is_dir(handle_keyevent(Key::Char('d')), Direction::Right));
    assert!(matches!(handle_keyevent(Key::Char('q')), Some(Input::Quit)));
    assert!(matches!(handle_keyevent(Key::Char('Q')), Some(Input::Quit)));
    assert!(matches!(handle_keyevent(Key::Esc), Some(Input::Quit)));
    assert!(handle_keyevent(Key::Char('x')).is_none());
    assert!(handle_keyevent(Key::Other).is_none());
}

#[test]
fn latest_input_takes_the_newest() {
    assert!(latest_input(&[]).is_none());
    let pending = [Input::D(Direction::Left), Input::D(Direction::Down)];
    assert!(is_dir(latest_input(&pending), Direction::Down));
    let pending = [Input::Quit, Input::D(Direction::Down)];
    assert!(matches!(latest_input(&pending), Some(Input::Quit)));
}

#[test]
fn glyphs() {
    assert_eq!(GameItems::Empty.glyph(), "  ");
    assert_eq!(GameItems::Apple.glyph(), "()");
    assert_eq!(GameItems::SnakeTailSegment(SegmentType::Def).glyph(), "[]");
    assert_eq!(GameItems::SnakeTailSegment(SegmentType::Corner(Direction::Up)).glyph(), "\\.");
    assert_eq!(GameItems::SnakeTailSegment(SegmentType::Straight(Direction::Left)).glyph(), "==");
    assert_eq!(GameItems::SnakeHead(Direction::Right).glyph(), "0{");
    assert_eq!(GameItems::SnakeHead(Direction::Up).glyph(), "\\/");
}

#[test]
fn reset_screen_clears_every_cell() {
    let s = vec![vec![GameItems::Apple; 3], vec![GameItems::Apple; 3]];
    let r = reset_screen(&s);
    assert_eq!(r.len(), 2);
    for row in &r {
        assert_eq!(row.len(), 3);
        assert!(row.iter().all(|c| matches!(c, GameItems::Empty)));
    }
}

#[test]
fn frame_text_is_framed() {
    let s = vec![vec![GameItems::Apple, GameItems::Empty]];
    let text = render_frame(&s, 12);
    assert_eq!(text, " .,.,.,\n ¦()  ¦\n ¨\"¨\"¨\"\nscore: 12\n");
    let text = render_frame(&s, 0);
    assert!(text.ends_with("score: 0\n"));
    let text = render_frame(&s, 4_000_000_007);
    assert!(text.ends_with("score: 4000000007\n"));
}

#[test]
fn paint_shows_head_body_and_apple() {
    let mut g = Game::new(4, 3, 5);
    assert_eq!(g.body(), vec![(1, 2)]);
    g.step(Some(Input::D(Direction::Left)));
    g.place_apple(0);
    let screen = g.paint();
    assert_eq!(screen.len(), 3);
    assert!(screen.iter().all(|r| r.len() == 4));
    assert!(matches!(screen[0][0], GameItems::Apple));
    assert!(matches!(screen[1][1], GameItems::SnakeHead(Direction::Left)));
    assert!(matches!(screen[1][2], GameItems::SnakeTailSegment(SegmentType::Def)));
    assert!(matches!(screen[2][3], GameItems::Empty));
    let text = render_frame(&screen, g.score());
    assert!(text.contains(" ¦()      ¦\n ¦  }0[]  ¦\n"));
}

#[test]
fn segments_keep_their_shape() {
    let seg = Segment::new((3, 4));
    assert_eq!(seg.position, (3, 4));
    assert!(matches!(seg.kind, SegmentType::Def));
    let body = vec![seg, Segment::new((3, 5))];
    let same = _update_snake(&body);
    assert_eq!(same.len(), 2);
    assert_eq!(same[1].position, (3, 5));
}
