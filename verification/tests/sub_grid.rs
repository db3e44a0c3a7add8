use keyboard_cursor::renderer::{DEFAULT_MOUSE_SPEED, FAST_MOUSE_SPEED};
use keyboard_cursor::sub_grid::{get_speed, resolve_direction};
use keyboard_cursor::{Direction, Input, Key, KeyResult, Point, Renderer, Size, Speed, SubGrid};

fn nowhere() -> Point {
    Point { x: 0, y: 0 }
}

fn nothing() -> Size {
    Size { width: 0, height: 0 }
}

fn fine_grid() -> SubGrid {
    let mut grid = SubGrid::new(Point { x: 100, y: 100 }, Size { width: 90, height: 90 });
    grid.render(nowhere(), nothing());
    grid
}

fn pressing(keys: &[Key]) -> Input {
    Input { pressed: keys.to_vec(), held: Vec::new(), shift: false }
}

fn holding(keys: &[Key], shift: bool) -> Input {
    Input { pressed: Vec::new(), held: keys.to_vec(), shift }
}

fn click_at(x: i32, y: i32) -> KeyResult {
    KeyResult::MoveAndClick { position: Point { x, y } }
}

fn all_directions() -> [Direction; 8] {
    [
        Direction::Up,
        Direction::Down,
        Direction::Left,
        Direction::Right,
        Direction::UpLeft,
        Direction::UpRight,
        Direction::DownLeft,
        Direction::DownRight,
    ]
}

#[test]
fn new_sub_grid_takes_a_third_of_the_cell() {
    let grid = SubGrid::new(Point { x: 100, y: 100 }, Size { width: 90, height: 91 });
    assert_eq!(grid.center(), Point { x: 100, y: 100 });
    assert_eq!(grid.outer_size(), Size { width: 90, height: 91 });
    assert_eq!(grid.cell_size(), Size { width: 30, height: 30 });
    assert_eq!(grid.get_label_position("5"), None);

    let negative = SubGrid::new(nowhere(), Size { width: -91, height: -2 });
    assert_eq!(negative.cell_size(), Size { width: -30, height: 0 });
}

#[test]
fn digits_lie_row_major_around_the_center() {
    let grid = fine_grid();
    assert_eq!(grid.get_label_position("1"), Some(Point { x: 70, y: 70 }));
    assert_eq!(grid.get_label_position("2"), Some(Point { x: 100, y: 70 }));
    assert_eq!(grid.get_label_position("3"), Some(Point { x: 130, y: 70 }));
    assert_eq!(grid.get_label_position("4"), Some(Point { x: 70, y: 100 }));
    assert_eq!(grid.get_label_position("5"), Some(Point { x: 100, y: 100 }));
    assert_eq!(grid.get_label_position("6"), Some(Point { x: 130, y: 100 }));
    assert_eq!(grid.get_label_position("7"), Some(Point { x: 70, y: 130 }));
    assert_eq!(grid.get_label_position("8"), Some(Point { x: 100, y: 130 }));
    assert_eq!(grid.get_label_position("9"), Some(Point { x: 130, y: 130 }));
    assert_eq!(grid.get_label_position("0"), None);
    assert_eq!(grid.get_label_position("10"), None);
    assert_eq!(grid.get_label_position("AA"), None);
}

#[test]
fn cell_center_matches_the_labels() {
    let grid = fine_grid();
    assert_eq!(grid.cell_center(0, 0), Point { x: 70, y: 70 });
    assert_eq!(grid.cell_center(1, 1), Point { x: 100, y: 100 });
    assert_eq!(grid.cell_center(2, 0), Point { x: 70, y: 130 });
    assert_eq!(grid.cell_center(0, 2), Point { x: 130, y: 70 });
}

#[test]
fn sub_grid_layout_does_not_depend_on_the_area() {
    let mut grid = fine_grid();
    grid.render(Point { x: 500, y: 500 }, Size { width: 1000, height: 1000 });
    assert_eq!(grid.get_label_position("1"), Some(Point { x: 70, y: 70 }));
    assert_eq!(grid.center(), Point { x: 100, y: 100 });
    assert_eq!(grid.cell_size(), Size { width: 30, height: 30 });
}

#[test]
fn sub_cell_centers_stop_at_the_ends_of_the_range() {
    let mut grid = SubGrid::new(
        Point { x: i32::MAX - 5, y: i32::MIN + 5 },
        Size { width: 90, height: 90 },
    );
    grid.render(nowhere(), nothing());
    assert_eq!(grid.get_label_position("3"), Some(Point { x: i32::MAX, y: i32::MIN }));
    assert_eq!(grid.get_label_position("5"), Some(Point { x: i32::MAX - 5, y: i32::MIN + 5 }));
    assert_eq!(grid.get_label_position("7"), Some(Point { x: i32::MAX - 35, y: i32::MIN + 35 }));
}

#[test]
fn digit_five_resolves_to_the_center_and_digit_one_to_the_top_left() {
    let mut grid = fine_grid();
    assert_eq!(grid.await_key(&pressing(&[Key::Char('5')])), click_at(100, 100));
    assert_eq!(grid.await_key(&pressing(&[Key::Char('1')])), click_at(70, 70));
    assert_eq!(grid.await_key(&pressing(&[Key::Char('9')])), click_at(130, 130));
}

#[test]
fn lowest_digit_counts_where_several_go_down() {
    let mut grid = fine_grid();
    let input = pressing(&[Key::Char('8'), Key::Char('3'), Key::Char('6')]);
    assert_eq!(grid.await_key(&input), click_at(130, 70));
}

#[test]
fn digit_comes_before_space_and_movement() {
    let mut grid = fine_grid();
    let input = Input {
        pressed: vec![Key::Space, Key::Char('4')],
        held: vec![Key::ArrowLeft],
        shift: true,
    };
    assert_eq!(grid.await_key(&input), click_at(70, 100));
}

#[test]
fn digit_before_the_first_layout_is_passed_over() {
    let mut grid = SubGrid::new(Point { x: 100, y: 100 }, Size { width: 90, height: 90 });
    assert_eq!(grid.await_key(&pressing(&[Key::Char('5')])), KeyResult::Await);
    assert_eq!(grid.await_key(&pressing(&[Key::Char('5'), Key::Space])), KeyResult::Click);
}

#[test]
fn keys_that_are_no_digit_from_one_to_nine_resolve_nothing() {
    let mut grid = fine_grid();
    assert_eq!(grid.await_key(&pressing(&[Key::Char('0')])), KeyResult::Await);
    assert_eq!(grid.await_key(&pressing(&[Key::Char('A')])), KeyResult::Await);
    assert_eq!(grid.await_key(&holding(&[Key::Char('5')], false)), KeyResult::Await);
}

#[test]
fn space_clicks_in_place() {
    let mut grid = fine_grid();
    assert_eq!(grid.await_key(&pressing(&[Key::Space])), KeyResult::Click);
    let with_movement =
        Input { pressed: vec![Key::Space], held: vec![Key::ArrowUp], shift: false };
    assert_eq!(grid.await_key(&with_movement), KeyResult::Click);
    assert_eq!(grid.await_key(&holding(&[Key::Space], false)), KeyResult::Await);
}

#[test]
fn left_and_up_held_together_move_up_left_once() {
    let mut grid = fine_grid();
    let expected = KeyResult::Move { direction: Direction::UpLeft, speed: Speed::Normal };
    assert_eq!(grid.await_key(&holding(&[Key::ArrowLeft, Key::ArrowUp], false)), expected);
    assert_eq!(grid.await_key(&holding(&[Key::Char('H'), Key::Char('K')], false)), expected);
    assert_eq!(grid.await_key(&holding(&[Key::ArrowUp, Key::Char('H')], false)), expected);
}

#[test]
fn left_and_right_held_together_leave_no_horizontal_movement() {
    let mut grid = fine_grid();
    assert_eq!(
        grid.await_key(&holding(&[Key::ArrowLeft, Key::ArrowRight], false)),
        KeyResult::Await
    );
    assert_eq!(
        grid.await_key(&holding(&[Key::Char('H'), Key::ArrowRight, Key::ArrowDown], false)),
        KeyResult::Move { direction: Direction::Down, speed: Speed::Normal }
    );
    assert_eq!(
        grid.await_key(&holding(&[Key::ArrowUp, Key::Char('J'), Key::Char('L')], false)),
        KeyResult::Move { direction: Direction::Right, speed: Speed::Normal }
    );
    let all = [Key::ArrowLeft, Key::ArrowRight, Key::ArrowUp, Key::ArrowDown];
    assert_eq!(grid.await_key(&holding(&all, true)), KeyResult::Await);
}

#[test]
fn each_movement_key_moves_in_its_direction() {
    let mut grid = fine_grid();
    let cases = [
        (Key::ArrowLeft, Direction::Left),
        (Key::Char('H'), Direction::Left),
        (Key::ArrowRight, Direction::Right),
        (Key::Char('L'), Direction::Right),
        (Key::ArrowUp, Direction::Up),
        (Key::Char('K'), Direction::Up),
        (Key::ArrowDown, Direction::Down),
        (Key::Char('J'), Direction::Down),
    ];
    for (key, direction) in cases {
        assert_eq!(
            grid.await_key(&holding(&[key], false)),
            KeyResult::Move { direction, speed: Speed::Normal }
        );
    }
}

#[test]
fn movement_goes_by_held_keys_and_not_by_key_presses() {
    let mut grid = fine_grid();
    assert_eq!(grid.await_key(&pressing(&[Key::ArrowLeft])), KeyResult::Await);
    assert_eq!(grid.await_key(&pressing(&[Key::Char('H')])), KeyResult::Await);
}

#[test]
fn resolve_direction_covers_all_sixteen_combinations() {
    let expected = |left: bool, right: bool, up: bool, down: bool| {
        let dx = right as i32 - left as i32;
        let dy = down as i32 - up as i32;
        match (dx, dy) {
            (-1, -1) => Some(Direction::UpLeft),
            (0, -1) => Some(Direction::Up),
            (1, -1) => Some(Direction::UpRight),
            (-1, 0) => Some(Direction::Left),
            (1, 0) => Some(Direction::Right),
            (-1, 1) => Some(Direction::DownLeft),
            (0, 1) => Some(Direction::Down),
            (1, 1) => Some(Direction::DownRight),
            _ => None,
        }
    };
    for bits in 0..16u8 {
        let (left, right, up, down) =
            (bits & 1 != 0, bits & 2 != 0, bits & 4 != 0, bits & 8 != 0);
        assert_eq!(resolve_direction(left, right, up, down), expected(left, right, up, down));
    }
    assert_eq!(resolve_direction(true, false, true, false), Some(Direction::UpLeft));
    assert_eq!(resolve_direction(true, true, false, false), None);
}

#[test]
fn shift_selects_fast_speed_for_every_direction() {
    let mut grid = fine_grid();
    let keys = [
        vec![Key::ArrowUp],
        vec![Key::ArrowDown],
        vec![Key::ArrowLeft],
        vec![Key::ArrowRight],
        vec![Key::ArrowUp, Key::ArrowLeft],
        vec![Key::ArrowUp, Key::ArrowRight],
        vec![Key::ArrowDown, Key::ArrowLeft],
        vec![Key::ArrowDown, Key::ArrowRight],
    ];
    for (held, direction) in keys.iter().zip(all_directions()) {
        assert_eq!(
            grid.await_key(&holding(held, false)),
            KeyResult::Move { direction, speed: Speed::Normal }
        );
        assert_eq!(
            grid.await_key(&holding(held, true)),
            KeyResult::Move { direction, speed: Speed::Fast }
        );
    }
}

#[test]
fn get_speed_follows_shift() {
    assert_eq!(get_speed(&holding(&[], false)), Speed::Normal);
    assert_eq!(get_speed(&holding(&[], true)), Speed::Fast);
    assert_eq!(Speed::Normal.magnitude(), 1);
    assert_eq!(Speed::Fast.magnitude(), 10);
    assert_eq!(DEFAULT_MOUSE_SPEED, 1);
    assert_eq!(FAST_MOUSE_SPEED, 10);
}

#[test]
fn displacement_scales_with_speed() {
    assert_eq!(Direction::Up.displacement(Speed::Normal), (0, -1));
    assert_eq!(Direction::Down.displacement(Speed::Normal), (0, 1));
    assert_eq!(Direction::Left.displacement(Speed::Normal), (-1, 0));
    assert_eq!(Direction::Right.displacement(Speed::Normal), (1, 0));
    assert_eq!(Direction::UpLeft.displacement(Speed::Fast), (-10, -10));
    assert_eq!(Direction::UpRight.displacement(Speed::Fast), (10, -10));
    assert_eq!(Direction::DownLeft.displacement(Speed::Fast), (-10, 10));
    assert_eq!(Direction::DownRight.displacement(Speed::Fast), (10, 10));
    for direction in all_directions() {
        let (slow_x, slow_y) = direction.displacement(Speed::Normal);
        let (fast_x, fast_y) = direction.displacement(Speed::Fast);
        assert_eq!((fast_x, fast_y), (10 * slow_x, 10 * slow_y));
        assert!(slow_x != 0 || slow_y != 0);
    }
}

#[test]
fn await_key_leaves_the_sub_grid_as_it_is() {
    let mut grid = fine_grid();
    grid.await_key(&pressing(&[Key::Char('5')]));
    grid.await_key(&holding(&[Key::ArrowLeft], true));
    assert_eq!(grid.center(), Point { x: 100, y: 100 });
    assert_eq!(grid.cell_size(), Size { width: 30, height: 30 });
    assert_eq!(grid.get_label_position("9"), Some(Point { x: 130, y: 130 }));
}
