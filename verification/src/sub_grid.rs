//! The fine level: a 3×3 grid of digit labels over one coarse cell, and the
//! keys that nudge the pointer.
use vstd::prelude::*;
use vstd::hash_map::StringHashMap;
use crate::geometry::{saturate, Point, Size};
use crate::input::{first_pressed_from, Input, Key};
use crate::renderer::{Direction, KeyResult, Renderer, Speed};

verus! {

/// The fine level. Its geometry is fixed when it is made; its label
/// positions are rebuilt from it at every layout.
pub struct SubGrid {
    center: Point,
    outer_size: Size,
    cell_size: Size,
    label_positions: StringHashMap<Point>,
}

/// What a [`SubGrid`] holds.
pub struct SubGridView {
    /// Center of the coarse cell that is subdivided.
    pub center: Point,
    /// Size of the coarse cell that is subdivided.
    pub outer_size: Size,
    /// Size of one of the nine cells.
    pub cell_size: Size,
    /// The positions of the labels of the last layout.
    pub labels: Map<Seq<char>, Point>,
}

/// A third of `v`, rounded toward zero.
pub open spec fn third(v: int) -> int {
    if v >= 0 {
        v / 3
    } else {
        -((-v) / 3)
    }
}

/// The label of a digit from 1 to 9.
pub open spec fn digit_label(digit: int) -> Seq<char> {
    seq![('0' as int + digit) as char]
}

/// The digit from 1 to 9 that `label` names, if it names one.
pub open spec fn label_digit(label: Seq<char>) -> Option<int> {
    if label.len() == 1 && '1' <= label[0] <= '9' {
        Some(label[0] as int - '0' as int)
    } else {
        None
    }
}

/// Center of the cell in `row` and `col` (each 0, 1 or 2) of the 3×3 grid
/// around `center` whose cells have size `cell_size`.
pub open spec fn sub_cell_center(center: Point, cell_size: Size, row: int, col: int) -> Point {
    Point {
        x: saturate(center.x + (col - 1) * cell_size.width),
        y: saturate(center.y + (row - 1) * cell_size.height),
    }
}

/// Where the digit `digit` lies: the digits run row-major from 1 at the top
/// left to 9 at the bottom right.
pub open spec fn digit_position(center: Point, cell_size: Size, digit: int) -> Point {
    sub_cell_center(center, cell_size, (digit - 1) / 3, (digit - 1) % 3)
}

/// The positions of the digits up to and including `last`.
pub open spec fn digit_positions_upto(center: Point, cell_size: Size, last: int) -> Map<
    Seq<char>,
    Point,
> {
    Map::new(
        |label: Seq<char>| label_digit(label) matches Some(digit) && digit <= last,
        |label: Seq<char>| digit_position(center, cell_size, label_digit(label).unwrap()),
    )
}

/// The positions of the nine digits.
pub open spec fn digit_positions(center: Point, cell_size: Size) -> Map<Seq<char>, Point> {
    digit_positions_upto(center, cell_size, 9)
}

/// What two opposed signals amount to: 1 where only the positive one is on,
/// -1 where only the negative one is, 0 where both or neither are.
pub open spec fn net(negative: bool, positive: bool) -> int {
    (if positive { 1int } else { 0int }) - (if negative { 1int } else { 0int })
}

/// The direction that four held signals amount to: opposed signals cancel,
/// and what is left of the horizontal and the vertical pair is combined.
pub open spec fn spec_resolve_direction(left: bool, right: bool, up: bool, down: bool) -> Option<
    Direction,
> {
    Direction::from_components(net(left, right), net(up, down))
}

/// Whether a key that moves the pointer to the left is held.
pub open spec fn moves_left(input: Input) -> bool {
    input.is_down(Key::ArrowLeft) || input.is_down(Key::Char('H'))
}

/// Whether a key that moves the pointer to the right is held.
pub open spec fn moves_right(input: Input) -> bool {
    input.is_down(Key::ArrowRight) || input.is_down(Key::Char('L'))
}

/// Whether a key that moves the pointer up is held.
pub open spec fn moves_up(input: Input) -> bool {
    input.is_down(Key::ArrowUp) || input.is_down(Key::Char('K'))
}

/// Whether a key that moves the pointer down is held.
pub open spec fn moves_down(input: Input) -> bool {
    input.is_down(Key::ArrowDown) || input.is_down(Key::Char('J'))
}

/// The speed that the frame selects: fast while shift is held.
pub open spec fn spec_get_speed(input: Input) -> Speed {
    if input.shift {
        Speed::Fast
    } else {
        Speed::Normal
    }
}

/// The command that the held movement keys yield.
pub open spec fn movement(input: Input) -> KeyResult {
    match spec_resolve_direction(
        moves_left(input),
        moves_right(input),
        moves_up(input),
        moves_down(input),
    ) {
        Some(direction) => KeyResult::Move { direction, speed: spec_get_speed(input) },
        None => KeyResult::Await,
    }
}

impl SubGridView {
    /// The state of a fine level newly made over the coarse cell of size
    /// `outer_size` centered on `center`: each of its nine cells has a third
    /// of that size, and no label is laid out yet.
    pub open spec fn entered(center: Point, outer_size: Size) -> SubGridView {
        SubGridView {
            center,
            outer_size,
            cell_size: Size {
                width: third(outer_size.width as int) as i32,
                height: third(outer_size.height as int) as i32,
            },
            labels: Map::empty(),
        }
    }

    /// Whether this is a state that a fine level can reach: each cell has a
    /// third of the size of the coarse cell, and the labels are the nine
    /// digits at their places, or none before the first layout.
    pub open spec fn well_formed(self) -> bool {
        &&& self.cell_size.width == third(self.outer_size.width as int)
        &&& self.cell_size.height == third(self.outer_size.height as int)
        &&& self.labels == digit_positions(self.center, self.cell_size) || self.labels == Map::<
            Seq<char>,
            Point,
        >::empty()
    }

    /// The state after laying out: the nine digits lie at their places.
    pub open spec fn laid_out(self) -> SubGridView {
        SubGridView { labels: digit_positions(self.center, self.cell_size), ..self }
    }

    /// The command that a frame of input yields.
    ///
    /// A digit whose label is laid out moves the pointer to it and clicks.
    /// Failing that, space clicks where the pointer is. Failing that, the
    /// held movement keys nudge the pointer.
    pub open spec fn key_result(self, input: Input) -> KeyResult {
        if self.digit_target(input) is Some {
            KeyResult::MoveAndClick { position: self.digit_target(input).unwrap() }
        } else if input.is_pressed(Key::Space) {
            KeyResult::Click
        } else {
            movement(input)
        }
    }

    /// Where the digit pressed in this frame lies, if one was pressed and its
    /// label is laid out.
    pub open spec fn digit_target(self, input: Input) -> Option<Point> {
        match input.spec_pressed_digit() {
            Some(digit) => if self.labels.contains_key(seq![digit]) {
                Some(self.labels[seq![digit]])
            } else {
                None
            },
            None => None,
        }
    }
}

impl View for SubGrid {
    type V = SubGridView;

    closed spec fn view(&self) -> SubGridView {
        SubGridView {
            center: self.center,
            outer_size: self.outer_size,
            cell_size: self.cell_size,
            labels: self.label_positions@,
        }
    }
}

/// Combines four held signals into at most one direction.
pub fn resolve_direction(left: bool, right: bool, up: bool, down: bool) -> (direction: Option<
    Direction,
>)
    ensures
        direction == spec_resolve_direction(left, right, up, down),
{
    let leftward = left && !right;
    let rightward = right && !left;
    let upward = up && !down;
    let downward = down && !up;
    if leftward && upward {
        Some(Direction::UpLeft)
    } else if upward && rightward {
        Some(Direction::UpRight)
    } else if upward {
        Some(Direction::Up)
    } else if rightward && downward {
        Some(Direction::DownRight)
    } else if rightward {
        Some(Direction::Right)
    } else if downward && leftward {
        Some(Direction::DownLeft)
    } else if downward {
        Some(Direction::Down)
    } else if leftward {
        Some(Direction::Left)
    } else {
        None
    }
}

/// The speed that the frame selects: fast while shift is held.
pub fn get_speed(input: &Input) -> (speed: Speed)
    ensures
        speed == spec_get_speed(*input),
{
    if input.shift {
        Speed::Fast
    } else {
        Speed::Normal
    }
}

fn any_down(input: &Input, arrow: Key, letter: char) -> (down: bool)
    ensures
        down == (input.is_down(arrow) || input.is_down(Key::Char(letter))),
{
    input.key_down(arrow) || input.key_down(Key::Char(letter))
}

fn offset_by_cells(start: i32, cells: i32, extent: i32) -> (r: i32)
    requires
        -1 <= cells <= 1,
    ensures
        r == saturate(start + cells * extent),
{
    assert(-0x8000_0000 <= cells * extent <= 0x8000_0000) by (nonlinear_arith)
        requires
            -1 <= cells <= 1,
            -0x8000_0000 <= extent < 0x8000_0000,
    ;
    let shifted: i64 = start as i64 + (cells as i64) * (extent as i64);
    if shifted < i32::MIN as i64 {
        i32::MIN
    } else if shifted > i32::MAX as i64 {
        i32::MAX
    } else {
        shifted as i32
    }
}

impl SubGrid {
    /// A fine level over the coarse cell of size `outer_cell_size` centered
    /// on `center_position`. Each of its nine cells has a third of that size.
    /// Its labels are not laid out yet.
    pub fn new(center_position: Point, outer_cell_size: Size) -> (sub_grid: SubGrid)
        ensures
            sub_grid@ == SubGridView::entered(center_position, outer_cell_size),
            sub_grid@.well_formed(),
    {
        SubGrid {
            center: center_position,
            outer_size: outer_cell_size,
            cell_size: Size { width: outer_cell_size.width / 3, height: outer_cell_size.height / 3 },
            label_positions: StringHashMap::new(),
        }
    }

    /// Center of the coarse cell that is subdivided.
    pub fn center(&self) -> (center: Point)
        ensures
            center == self@.center,
    {
        self.center
    }

    /// Size of the coarse cell that is subdivided.
    pub fn outer_size(&self) -> (size: Size)
        ensures
            size == self@.outer_size,
    {
        self.outer_size
    }

    /// Size of one of the nine cells.
    pub fn cell_size(&self) -> (size: Size)
        ensures
            size == self@.cell_size,
    {
        self.cell_size
    }

    /// Center of the cell in `row` and `col` of the 3×3 grid.
    pub fn cell_center(&self, row: u8, col: u8) -> (center: Point)
        requires
            row < 3,
            col < 3,
        ensures
            center == sub_cell_center(self@.center, self@.cell_size, row as int, col as int),
    {
        Point {
            x: offset_by_cells(self.center.x, col as i32 - 1, self.cell_size.width),
            y: offset_by_cells(self.center.y, row as i32 - 1, self.cell_size.height),
        }
    }
}

impl Renderer for SubGrid {
    open spec fn labels(&self) -> Map<Seq<char>, Point> {
        self@.labels
    }

    open spec fn labels_over(&self, origin: Point, available: Size) -> Map<Seq<char>, Point> {
        digit_positions(self@.center, self@.cell_size)
    }

    open spec fn key_result(&self, input: Input) -> KeyResult {
        self@.key_result(input)
    }

    /// Lays the nine digits out afresh. The geometry is that of the coarse
    /// cell and does not depend on the area.
    fn render(&mut self, origin: Point, available: Size)
        ensures
            final(self)@ == old(self)@.laid_out(),
            old(self)@.well_formed() ==> final(self)@.well_formed(),
    {
        self.label_positions.clear();
        let mut digit: u8 = 1;
        assert(self.label_positions@ =~= digit_positions_upto(self.center, self.cell_size, 0));
        while digit <= 9
            invariant
                1 <= digit <= 10,
                self.center == old(self).center,
                self.outer_size == old(self).outer_size,
                self.cell_size == old(self).cell_size,
                self.label_positions@ == digit_positions_upto(
                    self.center,
                    self.cell_size,
                    digit - 1,
                ),
            decreases 10 - digit,
        {
            let position = self.cell_center((digit - 1) / 3, (digit - 1) % 3);
            let mut label = String::new();
            label.push(('0' as u8 + digit) as char);
            assert(label@ =~= digit_label(digit as int));
            self.label_positions.insert(label, position);
            assert(self.label_positions@ =~= digit_positions_upto(
                self.center,
                self.cell_size,
                digit as int,
            )) by {
                assert(label_digit(digit_label(digit as int)) == Some(digit as int));
                assert forall|other: Seq<char>| label_digit(other) == Some(digit as int) implies other
                    == digit_label(digit as int) by {
                    assert(other =~= digit_label(digit as int));
                }
            }
            digit = digit + 1;
        }
    }

    fn get_label_position(&self, label: &str) -> (position: Option<Point>) {
        match self.label_positions.get(label) {
            Some(position) => Some(*position),
            None => None,
        }
    }

    /// Interprets one frame of input. The level itself does not change.
    fn await_key(&mut self, input: &Input) -> (result: KeyResult)
        ensures
            final(self)@ == old(self)@,
    {
        if let Some(digit) = input.pressed_digit() {
            let mut label = String::new();
            label.push(digit);
            assert(label@ =~= seq![digit]);
            if let Some(position) = self.get_label_position(label.as_str()) {
                return KeyResult::MoveAndClick { position };
            }
        }
        if input.key_pressed(Key::Space) {
            return KeyResult::Click;
        }
        let move_left = any_down(input, Key::ArrowLeft, 'H');
        let move_up = any_down(input, Key::ArrowUp, 'K');
        let move_down = any_down(input, Key::ArrowDown, 'J');
        let move_right = any_down(input, Key::ArrowRight, 'L');
        match resolve_direction(move_left, move_right, move_up, move_down) {
            Some(direction) => KeyResult::Move { direction, speed: get_speed(input) },
            None => KeyResult::Await,
        }
    }
}

/// A fine level begins well formed and stays so through every layout.
pub proof fn lemma_sub_grid_stays_well_formed(sub_grid: SubGridView, center: Point, size: Size)
    requires
        sub_grid.well_formed(),
    ensures
        SubGridView::entered(center, size).well_formed(),
        sub_grid.laid_out().well_formed(),
{
}

/// The direction that is emitted has exactly the components that the held
/// signals leave after opposed ones have cancelled, and none is emitted
/// only where nothing is left.
pub proof fn lemma_direction_follows_signals(left: bool, right: bool, up: bool, down: bool)
    ensures
        match spec_resolve_direction(left, right, up, down) {
            Some(direction) => direction.dx() == net(left, right) && direction.dy() == net(
                up,
                down,
            ),
            None => net(left, right) == 0 && net(up, down) == 0,
        },
{
}

/// Left and right held together leave no horizontal component, and up and
/// down held together no vertical one, whatever else is held.
pub proof fn lemma_opposed_signals_cancel(first: bool, second: bool)
    ensures
        spec_resolve_direction(true, true, first, second) matches Some(direction)
            ==> direction.dx() == 0,
        spec_resolve_direction(first, second, true, true) matches Some(direction)
            ==> direction.dy() == 0,
        spec_resolve_direction(true, true, true, true) is None,
{
}

/// What a scan finds depends only on which keys went down.
proof fn lemma_scan_same_keys(a: Input, b: Input, from: int, until: int)
    requires
        a.pressed@ == b.pressed@,
    ensures
        first_pressed_from(a, from, until) == first_pressed_from(b, from, until),
    decreases until - from,
{
    if from < until {
        lemma_scan_same_keys(a, b, from + 1, until);
    }
}

/// Holding shift changes nothing but the speed: where a frame without shift
/// moves the pointer at normal speed, the same keys with shift move it in
/// the same direction at fast speed, and every other command is the same.
pub proof fn lemma_shift_selects_fast(sub_grid: SubGridView, plain: Input, shifted: Input)
    requires
        plain.pressed@ == shifted.pressed@,
        plain.held@ == shifted.held@,
        !plain.shift,
        shifted.shift,
    ensures
        match sub_grid.key_result(plain) {
            KeyResult::Move { direction, speed } => {
                &&& speed == Speed::Normal
                &&& sub_grid.key_result(shifted) == KeyResult::Move {
                    direction,
                    speed: Speed::Fast,
                }
            },
            other => sub_grid.key_result(shifted) == other,
        },
{
    lemma_scan_same_keys(plain, shifted, '1' as int, '9' as int + 1);
}

/// The digit 5 lies on the center of the coarse cell, whatever its size.
pub proof fn lemma_middle_digit_is_center(center: Point, cell_size: Size)
    ensures
        digit_position(center, cell_size, 5) == center,
{
    assert(0 * cell_size.width == 0 && 0 * cell_size.height == 0);
}

} // verus!
