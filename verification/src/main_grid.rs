//! The coarse level: a grid of two-letter labels over the whole area.
use vstd::prelude::*;
use vstd::hash_map::StringHashMap;
use vstd::arithmetic::div_mod::lemma_fundamental_div_mod_converse;
use crate::geometry::{layout, lemma_cells_along_fits, spec_layout, Grid, Point, Size};
use crate::input::{lemma_scan_order, Input};
use crate::label::{
    index_to_label, is_letter, label_code, label_of, lemma_label_code_of_label,
    lemma_label_of_code, LABEL_COUNT,
};
use crate::renderer::{KeyResult, Renderer};

verus! {

/// The cell size that the coarse grid aims at.
pub const TARGET_CELL_SIZE: u32 = 80;

/// The coarse level. It keeps the first key of a label while the second is
/// awaited, and the grid and label positions of the last layout.
pub struct MainGrid {
    label_positions: StringHashMap<Point>,
    grid: Option<Grid>,
    first_key: Option<char>,
}

/// What a [`MainGrid`] holds.
pub struct MainGridView {
    /// The first key of a label, while the second is awaited.
    pub first_key: Option<char>,
    /// The grid of the last layout.
    pub grid: Option<Grid>,
    /// The positions of the labels of the last layout.
    pub labels: Map<Seq<char>, Point>,
}

/// Among the first `count` cells, the last one whose label has the given
/// code.
pub open spec fn last_index_labelled(code: int, count: int) -> int {
    count - 1 - ((count - 1 - code) % 676)
}

/// The label positions of the first `count` cells of `grid`: each label that
/// occurs among them, with the center of the last cell that carries it.
pub open spec fn label_positions_upto(grid: Grid, count: int) -> Map<Seq<char>, Point> {
    Map::new(
        |label: Seq<char>| label_code(label) matches Some(code) && code < count,
        |label: Seq<char>| grid.center_at(last_index_labelled(label_code(label).unwrap(), count)),
    )
}

/// The label positions of `grid`. The cells are labelled in row-major order
/// from index 0. Beyond 676 cells the labels repeat, and a label then stands
/// for the last cell that carries it.
pub open spec fn label_positions(grid: Grid) -> Map<Seq<char>, Point> {
    label_positions_upto(grid, grid.cell_count())
}

/// The label that two keys typed one after the other spell.
pub open spec fn combo_label(first: char, second: char) -> Seq<char> {
    seq![first, second]
}

impl MainGridView {
    /// The state after laying the grid out over the area of `available` size
    /// whose top left corner is `origin`: the grid and the label positions
    /// are new, a pending first key is kept.
    pub open spec fn laid_out(self, origin: Point, available: Size) -> MainGridView {
        let grid = spec_layout(origin, available, TARGET_CELL_SIZE);
        MainGridView { first_key: self.first_key, grid: Some(grid), labels: label_positions(grid) }
    }

    /// The state of a coarse level that has not been laid out and awaits a
    /// first key.
    pub open spec fn fresh() -> MainGridView {
        MainGridView { first_key: None, grid: None, labels: Map::empty() }
    }

    /// Whether this is a state that a coarse level can reach: a pending first
    /// key is a capital letter, and the labels are those of the grid, or none
    /// before the first layout.
    pub open spec fn well_formed(self) -> bool {
        &&& self.first_key matches Some(key) ==> is_letter(key)
        &&& match self.grid {
            Some(grid) => grid.rows >= 1 && grid.cols >= 1 && self.labels == label_positions(
                grid,
            ),
            None => self.labels == Map::<Seq<char>, Point>::empty(),
        }
    }

    /// The state after a frame of input, and the command it yields.
    ///
    /// Without a letter nothing changes. The first letter is kept. The second
    /// letter completes a label and empties the pending state, whether or not
    /// the label names a cell; if it does, the fine level is to be entered on
    /// that cell.
    pub open spec fn key_outcome(self, input: Input) -> (MainGridView, KeyResult) {
        match input.spec_pressed_letter() {
            None => (self, KeyResult::Await),
            Some(second) => match self.first_key {
                None => (MainGridView { first_key: Some(second), ..self }, KeyResult::Await),
                Some(first) => (
                    MainGridView { first_key: None, ..self },
                    self.resolve(combo_label(first, second)),
                ),
            },
        }
    }

    /// The command that a completed label yields.
    pub open spec fn resolve(self, label: Seq<char>) -> KeyResult {
        if self.labels.contains_key(label) && self.grid is Some {
            KeyResult::EnterFine {
                origin: self.labels[label],
                cell_size: self.grid.unwrap().cell_size,
            }
        } else {
            KeyResult::Await
        }
    }
}

impl View for MainGrid {
    type V = MainGridView;

    closed spec fn view(&self) -> MainGridView {
        MainGridView {
            first_key: self.first_key,
            grid: self.grid,
            labels: self.label_positions@,
        }
    }
}

impl MainGrid {
    /// A coarse level that has not been laid out and awaits a first key.
    pub fn new() -> (main_grid: MainGrid)
        ensures
            main_grid@ == MainGridView::fresh(),
            main_grid@.well_formed(),
    {
        MainGrid { label_positions: StringHashMap::new(), grid: None, first_key: None }
    }

    /// The grid of the last layout.
    pub fn grid(&self) -> (grid: Option<Grid>)
        ensures
            grid == self@.grid,
    {
        self.grid
    }

    /// The first key of a label, while the second is awaited.
    pub fn first_key(&self) -> (key: Option<char>)
        ensures
            key == self@.first_key,
    {
        self.first_key
    }
}

impl Renderer for MainGrid {
    open spec fn labels(&self) -> Map<Seq<char>, Point> {
        self@.labels
    }

    open spec fn labels_over(&self, origin: Point, available: Size) -> Map<Seq<char>, Point> {
        label_positions(spec_layout(origin, available, TARGET_CELL_SIZE))
    }

    open spec fn key_result(&self, input: Input) -> KeyResult {
        self@.key_outcome(input).1
    }

    /// Lays the grid out over the area and labels its cells afresh. A pending
    /// first key is kept.
    fn render(&mut self, origin: Point, available: Size)
        ensures
            final(self)@ == old(self)@.laid_out(origin, available),
            old(self)@.well_formed() ==> final(self)@.well_formed(),
    {
        proof {
            if old(self)@.well_formed() {
                lemma_laid_out_well_formed(old(self)@, origin, available);
            }
        }
        let grid = layout(origin, available, TARGET_CELL_SIZE);
        self.grid = Some(grid);
        self.label_positions.clear();
        let mut id: u64 = 0;
        let mut row: u32 = 0;
        assert(self.label_positions@ =~= label_positions_upto(grid, 0));
        while row < grid.rows
            invariant
                grid.cols >= 1,
                row <= grid.rows,
                id == row * grid.cols,
                self.label_positions@ == label_positions_upto(grid, id as int),
                self.grid == Some(grid),
                self.first_key == old(self).first_key,
            decreases grid.rows - row,
        {
            let mut col: u32 = 0;
            while col < grid.cols
                invariant
                    grid.cols >= 1,
                    row < grid.rows,
                    col <= grid.cols,
                    id == row * grid.cols + col,
                    self.label_positions@ == label_positions_upto(grid, id as int),
                    self.grid == Some(grid),
                    self.first_key == old(self).first_key,
                decreases grid.cols - col,
            {
                proof {
                    lemma_index_bound(grid, row as int, col as int);
                    lemma_label_step(grid, row as int, col as int);
                }
                let label = index_to_label((id % (LABEL_COUNT as u64)) as usize);
                self.label_positions.insert(label, grid.cell_center(row, col));
                id = id + 1;
                col = col + 1;
            }
            assert(row * grid.cols + grid.cols == (row + 1) * grid.cols) by (nonlinear_arith);
            row = row + 1;
        }
    }

    fn get_label_position(&self, label: &str) -> (position: Option<Point>) {
        match self.label_positions.get(label) {
            Some(position) => Some(*position),
            None => None,
        }
    }

    /// Interprets one frame of input: the first letter pressed is kept, the
    /// second completes a label, which is looked up and then forgotten.
    fn await_key(&mut self, input: &Input) -> (result: KeyResult)
        ensures
            final(self)@ == old(self)@.key_outcome(*input).0,
            old(self)@.well_formed() ==> final(self)@.well_formed(),
    {
        proof {
            lemma_scan_order(*input);
        }
        let Some(second) = input.pressed_letter() else {
            return KeyResult::Await;
        };
        let Some(first) = self.first_key else {
            self.first_key = Some(second);
            return KeyResult::Await;
        };
        self.first_key = None;
        let mut key_combo = String::new();
        key_combo.push(first);
        key_combo.push(second);
        assert(key_combo@ =~= combo_label(first, second));
        match (self.get_label_position(key_combo.as_str()), self.grid) {
            (Some(position), Some(grid)) => KeyResult::EnterFine {
                origin: position,
                cell_size: grid.cell_size,
            },
            _ => KeyResult::Await,
        }
    }
}

/// A coarse level begins well formed and stays so through every layout and
/// every frame of input.
pub proof fn lemma_main_grid_stays_well_formed(
    main_grid: MainGridView,
    origin: Point,
    available: Size,
    input: Input,
)
    requires
        main_grid.well_formed(),
    ensures
        MainGridView::fresh().well_formed(),
        main_grid.laid_out(origin, available).well_formed(),
        main_grid.key_outcome(input).0.well_formed(),
{
    lemma_laid_out_well_formed(main_grid, origin, available);
    lemma_scan_order(input);
}

/// Laying out keeps a coarse level well formed.
proof fn lemma_laid_out_well_formed(main_grid: MainGridView, origin: Point, available: Size)
    requires
        main_grid.well_formed(),
    ensures
        main_grid.laid_out(origin, available).well_formed(),
{
    lemma_cells_along_fits(available.width as int, TARGET_CELL_SIZE as int);
    lemma_cells_along_fits(available.height as int, TARGET_CELL_SIZE as int);
}

/// Among the first `count` cells, the last one with a given label is a cell
/// with that label, and none of the cells after it has the label.
pub proof fn lemma_last_index_labelled(code: int, count: int)
    requires
        0 <= code < 676,
        code < count,
    ensures
        ({
            let last: int = last_index_labelled(code, count);
            &&& 0 <= last < count
            &&& label_code(label_of(last as nat)) == Some(code)
            &&& forall|index: int|
                last < index < count ==> #[trigger] label_of(index as nat) != label_of(
                    last as nat,
                )
        }),
{
    let last: int = last_index_labelled(code, count);
    lemma_label_code_of_label(last as nat);
    assert forall|index: int| last < index < count implies #[trigger] label_of(index as nat)
        != label_of(last as nat) by {
        lemma_label_code_of_label(index as nat);
    }
}

/// In a grid laid out, every cell among the last 676 is found under its
/// label: the label of its row-major index lies on its center. In a grid of
/// at most 676 cells that is every cell.
pub proof fn lemma_cell_is_labelled(grid: Grid, row: int, col: int)
    requires
        0 <= row < grid.rows,
        0 <= col < grid.cols,
        grid.cell_count() - grid.cell_index(row, col) <= 676,
    ensures
        label_positions(grid).contains_key(label_of(grid.cell_index(row, col) as nat)),
        label_positions(grid)[label_of(grid.cell_index(row, col) as nat)]
            == grid.spec_cell_center(row, col),
{
    let index: int = grid.cell_index(row, col);
    lemma_index_bound(grid, row, col);
    lemma_fundamental_div_mod_converse(index, grid.cols as int, row, col);
    lemma_label_code_of_label(index as nat);
    assert(last_index_labelled(index % 676, grid.cell_count()) == index);
}

/// A second letter always empties the pending state. The two letters enter
/// the fine level exactly where they spell the label of a cell of the grid
/// laid out: then on the center of the last cell that carries the label, with
/// the size of a cell. In a grid of at most 676 cells that is the cell whose
/// row-major index is the code of the label. Any other pair is dropped.
pub proof fn lemma_combo_resolves(
    main_grid: MainGridView,
    origin: Point,
    available: Size,
    input: Input,
    first: char,
    second: char,
)
    requires
        main_grid.first_key == Some(first),
        input.spec_pressed_letter() == Some(second),
    ensures
        ({
            let grid = spec_layout(origin, available, TARGET_CELL_SIZE);
            let count: int = grid.cell_count();
            let laid = main_grid.laid_out(origin, available);
            let (next, result) = laid.key_outcome(input);
            &&& next == MainGridView { first_key: None, ..laid }
            &&& match label_code(combo_label(first, second)) {
                Some(code) => if code < count {
                    &&& result == KeyResult::EnterFine {
                        origin: grid.center_at(last_index_labelled(code, count)),
                        cell_size: grid.cell_size,
                    }
                    &&& count <= 676 ==> last_index_labelled(code, count) == code
                } else {
                    result == KeyResult::Await
                },
                None => result == KeyResult::Await,
            }
        }),
{
    if label_code(combo_label(first, second)) is Some {
        lemma_label_of_code(combo_label(first, second));
    }
}

/// The row-major index of a cell of the grid fits in 64 bits.
proof fn lemma_index_bound(grid: Grid, row: int, col: int)
    requires
        0 <= row < grid.rows,
        0 <= col < grid.cols,
    ensures
        0 <= row * grid.cols + col < grid.rows * grid.cols <= u64::MAX,
{
    assert(0 <= row * grid.cols + col < grid.rows * grid.cols <= 0xffff_ffff * 0xffff_ffff)
        by (nonlinear_arith)
        requires
            0 <= row < grid.rows <= 0xffff_ffff,
            0 <= col < grid.cols <= 0xffff_ffff,
    ;
}

/// Labelling one more cell extends the label positions by that cell.
proof fn lemma_label_step(grid: Grid, row: int, col: int)
    requires
        0 <= row,
        0 <= col < grid.cols,
    ensures
        ({
            let index: int = row * grid.cols + col;
            label_positions_upto(grid, index).insert(
                label_of(index as nat),
                grid.spec_cell_center(row, col),
            ) == label_positions_upto(grid, index + 1)
        }),
{
    let index: int = row * grid.cols + col;
    assert(index >= 0) by (nonlinear_arith)
        requires
            index == row * grid.cols + col,
            row >= 0,
            col >= 0,
            grid.cols >= 1,
    ;
    lemma_fundamental_div_mod_converse(index, grid.cols as int, row, col);
    assert(grid.center_at(index) == grid.spec_cell_center(row, col));
    lemma_label_code_of_label(index as nat);
    let center = grid.spec_cell_center(row, col);
    let before = label_positions_upto(grid, index);
    let after = label_positions_upto(grid, index + 1);
    let stepped = before.insert(label_of(index as nat), center);
    assert forall|label: Seq<char>| #[trigger]
        stepped.dom().contains(label) == after.dom().contains(label) && (after.dom().contains(
            label,
        ) ==> stepped[label] == after[label]) by {
        if label_code(label) is Some {
            let code: int = label_code(label).unwrap();
            lemma_label_of_code(label);
            lemma_last_index_step(code, index);
            if code == index % 676 {
                assert(label == label_of(index as nat));
            } else {
                assert(label != label_of(index as nat));
            }
        } else {
            assert(label != label_of(index as nat));
        }
    }
    assert(stepped =~= after);
}

/// How the last cell that carries a label changes when one more cell is
/// labelled: the new cell takes over its own label and leaves the others.
proof fn lemma_last_index_step(code: int, count: int)
    requires
        0 <= code < 676,
        0 <= count,
    ensures
        code == count % 676 ==> code < count + 1 && last_index_labelled(code, count + 1) == count,
        code != count % 676 ==> (code < count + 1 <==> code < count),
        code != count % 676 && code < count ==> last_index_labelled(code, count + 1)
            == last_index_labelled(code, count),
{
    let gap: int = (count - 1 - code) % 676;
    if code != count % 676 && code < count {
        assert(gap != 675);
        assert((count - code) % 676 == gap + 1);
    }
}

} // verus!
