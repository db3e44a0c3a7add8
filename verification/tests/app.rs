use keyboard_cursor::{App, Direction, Input, Key, KeyResult, Level, Point, Renderer, Size, Speed};

fn top_left() -> Point {
    Point { x: 0, y: 0 }
}

fn screen() -> Size {
    Size { width: 160, height: 160 }
}

fn press(keys: &[Key]) -> Input {
    Input { pressed: keys.to_vec(), held: Vec::new(), shift: false }
}

fn hold(keys: &[Key], shift: bool) -> Input {
    Input { pressed: Vec::new(), held: keys.to_vec(), shift }
}

fn idle() -> Input {
    Input::new()
}

fn step(app: &mut App, input: &Input) -> KeyResult {
    app.update(top_left(), screen(), input)
}

fn app_at_fine_level() -> App {
    let mut app = App::new();
    assert_eq!(step(&mut app, &press(&[Key::Char('A')])), KeyResult::Await);
    assert_eq!(
        step(&mut app, &press(&[Key::Char('D')])),
        KeyResult::WarpPointer { position: Point { x: 120, y: 120 } }
    );
    app
}

fn is_coarse(app: &App) -> bool {
    matches!(app.level(), Level::Coarse(_))
}

#[test]
fn new_session_starts_at_the_coarse_level() {
    let app = App::new();
    assert!(is_coarse(&app));
    assert!(!app.is_closing());
    match app.level() {
        Level::Coarse(grid) => {
            assert_eq!(grid.grid(), None);
            assert_eq!(grid.first_key(), None);
        }
        Level::Fine(_) => panic!("a new session is at the coarse level"),
    }
}

#[test]
fn empty_input_is_empty() {
    let input = Input::new();
    assert!(input.pressed.is_empty());
    assert!(input.held.is_empty());
    assert!(!input.shift);
    assert!(!input.key_pressed(Key::Escape));
    assert!(!input.key_down(Key::Space));
    assert_eq!(input.pressed_letter(), None);
    assert_eq!(input.pressed_digit(), None);
}

#[test]
fn input_reports_pressed_and_held_keys_apart() {
    let input = Input {
        pressed: vec![Key::Char('Q'), Key::Char('7'), Key::Char('C'), Key::Char('2')],
        held: vec![Key::ArrowLeft, Key::Char('A'), Key::Char('1')],
        shift: false,
    };
    assert!(input.key_pressed(Key::Char('Q')));
    assert!(!input.key_pressed(Key::ArrowLeft));
    assert!(input.key_down(Key::ArrowLeft));
    assert!(!input.key_down(Key::Char('Q')));
    assert_eq!(input.pressed_letter(), Some('C'));
    assert_eq!(input.pressed_digit(), Some('2'));
}

#[test]
fn input_scans_only_capital_letters_and_the_digits_one_to_nine() {
    let input = Input {
        pressed: vec![Key::Char('a'), Key::Char('0'), Key::Char('['), Key::Char('@'), Key::Char(':')],
        held: Vec::new(),
        shift: false,
    };
    assert_eq!(input.pressed_letter(), None);
    assert_eq!(input.pressed_digit(), None);
    let edges = press(&[Key::Char('Z'), Key::Char('9')]);
    assert_eq!(edges.pressed_letter(), Some('Z'));
    assert_eq!(edges.pressed_digit(), Some('9'));
}

#[test]
fn first_frame_lays_the_coarse_grid_out() {
    let mut app = App::new();
    assert_eq!(step(&mut app, &idle()), KeyResult::Await);
    match app.level() {
        Level::Coarse(grid) => {
            let laid = grid.grid().unwrap();
            assert_eq!((laid.rows, laid.cols), (2, 2));
            assert_eq!(grid.get_label_position("AD"), Some(Point { x: 120, y: 120 }));
        }
        Level::Fine(_) => panic!("nothing was typed"),
    }
}

#[test]
fn resolved_label_enters_the_fine_level_and_warps_the_pointer() {
    let mut app = App::new();
    assert_eq!(step(&mut app, &press(&[Key::Char('A')])), KeyResult::Await);
    assert!(is_coarse(&app));
    assert_eq!(
        step(&mut app, &press(&[Key::Char('C')])),
        KeyResult::WarpPointer { position: Point { x: 40, y: 120 } }
    );
    assert!(!app.is_closing());
    match app.level() {
        Level::Fine(grid) => {
            assert_eq!(grid.center(), Point { x: 40, y: 120 });
            assert_eq!(grid.outer_size(), Size { width: 80, height: 80 });
            assert_eq!(grid.cell_size(), Size { width: 26, height: 26 });
            assert_eq!(grid.get_label_position("5"), Some(Point { x: 40, y: 120 }));
            assert_eq!(grid.get_label_position("1"), Some(Point { x: 14, y: 94 }));
        }
        Level::Coarse(_) => panic!("the label AC names a cell"),
    }
}

#[test]
fn unknown_label_keeps_the_coarse_level() {
    let mut app = App::new();
    assert_eq!(step(&mut app, &press(&[Key::Char('B')])), KeyResult::Await);
    assert_eq!(step(&mut app, &press(&[Key::Char('Z')])), KeyResult::Await);
    assert!(is_coarse(&app));
    assert_eq!(step(&mut app, &press(&[Key::Char('A')])), KeyResult::Await);
    assert_eq!(
        step(&mut app, &press(&[Key::Char('A')])),
        KeyResult::WarpPointer { position: Point { x: 40, y: 40 } }
    );
}

#[test]
fn digit_at_the_fine_level_clicks_and_ends_the_session() {
    let mut app = app_at_fine_level();
    assert_eq!(
        step(&mut app, &press(&[Key::Char('1')])),
        KeyResult::MoveAndClick { position: Point { x: 94, y: 94 } }
    );
    assert!(app.is_closing());
    assert_eq!(step(&mut app, &press(&[Key::Char('5')])), KeyResult::Await);
    assert_eq!(step(&mut app, &press(&[Key::Escape])), KeyResult::Await);
    assert!(app.is_closing());
}

#[test]
fn space_at_the_fine_level_clicks_and_ends_the_session() {
    let mut app = app_at_fine_level();
    assert_eq!(step(&mut app, &press(&[Key::Space])), KeyResult::Click);
    assert!(app.is_closing());
    assert_eq!(step(&mut app, &press(&[Key::Space])), KeyResult::Await);
}

#[test]
fn space_and_digits_mean_nothing_at_the_coarse_level() {
    let mut app = App::new();
    assert_eq!(step(&mut app, &press(&[Key::Space, Key::Char('5')])), KeyResult::Await);
    assert_eq!(step(&mut app, &hold(&[Key::ArrowLeft], true)), KeyResult::Await);
    assert!(is_coarse(&app));
    assert!(!app.is_closing());
}

#[test]
fn held_keys_move_the_pointer_frame_after_frame() {
    let mut app = app_at_fine_level();
    for _ in 0..3 {
        assert_eq!(
            step(&mut app, &hold(&[Key::ArrowLeft, Key::ArrowUp], false)),
            KeyResult::Move { direction: Direction::UpLeft, speed: Speed::Normal }
        );
    }
    assert_eq!(
        step(&mut app, &hold(&[Key::Char('L')], true)),
        KeyResult::Move { direction: Direction::Right, speed: Speed::Fast }
    );
    assert_eq!(step(&mut app, &idle()), KeyResult::Await);
    assert!(!app.is_closing());
    assert!(!is_coarse(&app));
}

#[test]
fn letters_at_the_fine_level_do_not_return_to_the_coarse_level() {
    let mut app = app_at_fine_level();
    assert_eq!(step(&mut app, &press(&[Key::Char('A')])), KeyResult::Await);
    assert_eq!(step(&mut app, &press(&[Key::Char('A')])), KeyResult::Await);
    assert!(!is_coarse(&app));
}

#[test]
fn escape_at_the_coarse_level_terminates() {
    let mut app = App::new();
    assert_eq!(step(&mut app, &press(&[Key::Escape])), KeyResult::Terminate);
    assert!(app.is_closing());
    assert!(is_coarse(&app));
    assert_eq!(step(&mut app, &press(&[Key::Char('A')])), KeyResult::Await);
}

#[test]
fn escape_at_the_fine_level_terminates() {
    let mut app = app_at_fine_level();
    assert_eq!(step(&mut app, &press(&[Key::Escape])), KeyResult::Terminate);
    assert!(app.is_closing());
    assert!(!is_coarse(&app));
    assert_eq!(step(&mut app, &hold(&[Key::ArrowLeft], false)), KeyResult::Await);
}

#[test]
fn escape_comes_before_every_other_key() {
    let mut app = App::new();
    assert_eq!(step(&mut app, &press(&[Key::Char('A')])), KeyResult::Await);
    assert_eq!(step(&mut app, &press(&[Key::Char('A'), Key::Escape])), KeyResult::Terminate);
    match app.level() {
        Level::Coarse(grid) => assert_eq!(grid.first_key(), Some('A')),
        Level::Fine(_) => panic!("the session was cancelled"),
    }

    let mut fine = app_at_fine_level();
    let input = Input {
        pressed: vec![Key::Char('5'), Key::Space, Key::Escape],
        held: vec![Key::ArrowDown],
        shift: false,
    };
    assert_eq!(step(&mut fine, &input), KeyResult::Terminate);
}

#[test]
fn held_escape_does_not_cancel() {
    let mut app = App::new();
    assert_eq!(step(&mut app, &hold(&[Key::Escape], false)), KeyResult::Await);
    assert!(!app.is_closing());
}

#[test]
fn coarse_grid_follows_the_area_of_each_frame() {
    let mut app = App::new();
    assert_eq!(app.update(top_left(), screen(), &press(&[Key::Char('A')])), KeyResult::Await);
    let wide = Size { width: 26 * 80, height: 160 };
    assert_eq!(
        app.update(Point { x: 10, y: 10 }, wide, &press(&[Key::Char('E')])),
        KeyResult::WarpPointer { position: Point { x: 10 + 4 * 80 + 40, y: 50 } }
    );
}
