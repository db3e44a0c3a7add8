//! The targeting session: which level is active, and whether the session is
//! over.
use vstd::prelude::*;
use crate::geometry::{Point, Size};
use crate::input::{Input, Key};
use crate::main_grid::{lemma_main_grid_stays_well_formed, MainGrid, MainGridView};
use crate::renderer::{KeyResult, Renderer};
use crate::sub_grid::{lemma_sub_grid_stays_well_formed, SubGrid, SubGridView};

verus! {

/// The active level of targeting.
pub enum Level {
    /// Choosing a cell of the coarse grid by its two-letter label.
    Coarse(MainGrid),
    /// Refining within the chosen cell.
    Fine(SubGrid),
}

/// What a [`Level`] holds.
pub enum LevelView {
    Coarse(MainGridView),
    Fine(SubGridView),
}

/// A targeting session. It starts at the coarse level, enters the fine level
/// when a label is resolved, and is over after a click or a cancel.
pub struct App {
    level: Level,
    is_closing: bool,
}

/// What an [`App`] holds.
pub struct AppView {
    /// The active level.
    pub level: LevelView,
    /// Whether the session is over.
    pub is_closing: bool,
}

impl View for Level {
    type V = LevelView;

    open spec fn view(&self) -> LevelView {
        match self {
            Level::Coarse(main_grid) => LevelView::Coarse(main_grid@),
            Level::Fine(sub_grid) => LevelView::Fine(sub_grid@),
        }
    }
}

impl View for App {
    type V = AppView;

    closed spec fn view(&self) -> AppView {
        AppView { level: self.level@, is_closing: self.is_closing }
    }
}

impl AppView {
    /// The state of a session that has just begun.
    pub open spec fn fresh() -> AppView {
        AppView { level: LevelView::Coarse(MainGridView::fresh()), is_closing: false }
    }

    /// Whether this is a state that a session can reach: the active level is
    /// well formed.
    pub open spec fn well_formed(self) -> bool {
        match self.level {
            LevelView::Coarse(main_grid) => main_grid.well_formed(),
            LevelView::Fine(sub_grid) => sub_grid.well_formed(),
        }
    }

    /// The state after one frame, and the command that the frame yields.
    ///
    /// A session that is over stays as it is and yields nothing. Otherwise
    /// escape ends the session before anything else is looked at. Otherwise
    /// the active level is laid out and interprets the input.
    pub open spec fn step(self, origin: Point, available: Size, input: Input) -> (
        AppView,
        KeyResult,
    ) {
        if self.is_closing {
            (self, KeyResult::Await)
        } else if input.is_pressed(Key::Escape) {
            (AppView { is_closing: true, ..self }, KeyResult::Terminate)
        } else {
            match self.level {
                LevelView::Coarse(main_grid) => Self::coarse_step(
                    main_grid.laid_out(origin, available),
                    input,
                ),
                LevelView::Fine(sub_grid) => Self::fine_step(sub_grid.laid_out(), input),
            }
        }
    }

    /// One frame at the coarse level, laid out: a resolved label enters the
    /// fine level on the chosen cell and sends the pointer to its center;
    /// anything else waits.
    pub open spec fn coarse_step(main_grid: MainGridView, input: Input) -> (AppView, KeyResult) {
        let (next, result) = main_grid.key_outcome(input);
        match result {
            KeyResult::EnterFine { origin, cell_size } => (
                AppView {
                    level: LevelView::Fine(SubGridView::entered(origin, cell_size).laid_out()),
                    is_closing: false,
                },
                KeyResult::WarpPointer { position: origin },
            ),
            _ => (AppView { level: LevelView::Coarse(next), is_closing: false }, KeyResult::Await),
        }
    }

    /// One frame at the fine level, laid out: the command of the level is
    /// passed on, and a click ends the session.
    pub open spec fn fine_step(sub_grid: SubGridView, input: Input) -> (AppView, KeyResult) {
        let result = sub_grid.key_result(input);
        (
            AppView {
                level: LevelView::Fine(sub_grid),
                is_closing: result is MoveAndClick || result is Click,
            },
            result,
        )
    }
}

impl App {
    /// A session at the coarse level, awaiting the first key.
    pub fn new() -> (app: App)
        ensures
            app@ == AppView::fresh(),
            app@.well_formed(),
    {
        App { level: Level::Coarse(MainGrid::new()), is_closing: false }
    }

    /// Whether the session is over.
    pub fn is_closing(&self) -> (closing: bool)
        ensures
            closing == self@.is_closing,
    {
        self.is_closing
    }

    /// The active level.
    pub fn level(&self) -> (level: &Level)
        ensures
            level@ == self@.level,
    {
        &self.level
    }

    /// Advances the session by one frame: `input` is the keyboard state of
    /// the frame, and the drawable area has size `available` and its top left
    /// corner at `origin`. Returns the command for the host to carry out.
    pub fn update(&mut self, origin: Point, available: Size, input: &Input) -> (result: KeyResult)
        ensures
            (final(self)@, result) == old(self)@.step(origin, available, *input),
            old(self)@.well_formed() ==> final(self)@.well_formed(),
    {
        proof {
            if old(self)@.well_formed() {
                lemma_session_stays_well_formed(old(self)@, origin, available, *input);
            }
        }
        if self.is_closing {
            return KeyResult::Await;
        }
        if input.key_pressed(Key::Escape) {
            self.is_closing = true;
            return KeyResult::Terminate;
        }
        let result = match &mut self.level {
            Level::Coarse(main_grid) => {
                main_grid.render(origin, available);
                main_grid.await_key(input)
            },
            Level::Fine(sub_grid) => {
                sub_grid.render(origin, available);
                sub_grid.await_key(input)
            },
        };
        match result {
            KeyResult::EnterFine { origin: position, cell_size } => {
                let mut sub_grid = SubGrid::new(position, cell_size);
                sub_grid.render(origin, available);
                self.level = Level::Fine(sub_grid);
                KeyResult::WarpPointer { position }
            },
            KeyResult::MoveAndClick { .. } | KeyResult::Click => {
                self.is_closing = true;
                result
            },
            _ => result,
        }
    }
}

/// A session begins well formed and stays so through every frame.
pub proof fn lemma_session_stays_well_formed(
    app: AppView,
    origin: Point,
    available: Size,
    input: Input,
)
    requires
        app.well_formed(),
    ensures
        AppView::fresh().well_formed(),
        app.step(origin, available, input).0.well_formed(),
{
    match app.level {
        LevelView::Coarse(main_grid) => {
            lemma_main_grid_stays_well_formed(main_grid, origin, available, input);
            let laid = main_grid.laid_out(origin, available);
            lemma_main_grid_stays_well_formed(laid, origin, available, input);
            if let KeyResult::EnterFine { origin: center, cell_size } = laid.key_outcome(input).1 {
                let entered = SubGridView::entered(center, cell_size);
                lemma_sub_grid_stays_well_formed(entered, center, cell_size);
            }
        },
        LevelView::Fine(sub_grid) => {
            lemma_sub_grid_stays_well_formed(sub_grid, sub_grid.center, sub_grid.outer_size);
        },
    }
}

/// Escape ends a running session at either level: the frame yields
/// `Terminate` and nothing else, and the level is left as it was.
pub proof fn lemma_cancel_terminates(app: AppView, origin: Point, available: Size, input: Input)
    requires
        !app.is_closing,
        input.is_pressed(Key::Escape),
    ensures
        app.step(origin, available, input) == (
            AppView { level: app.level, is_closing: true },
            KeyResult::Terminate,
        ),
{
}

/// A session that is over stays over, keeps its state and yields nothing.
pub proof fn lemma_closed_session_stays(
    app: AppView,
    origin: Point,
    available: Size,
    input: Input,
)
    requires
        app.is_closing,
    ensures
        app.step(origin, available, input) == (app, KeyResult::Await),
{
}

/// Which commands a frame can yield, and what they mean for the session.
/// The coarse level only waits or sends the pointer to a chosen cell, and
/// the fine level is entered exactly then. The fine level is never left for
/// the coarse one. A running session ends exactly with a cancel or a click.
pub proof fn lemma_step_transitions(app: AppView, origin: Point, available: Size, input: Input)
    requires
        !app.is_closing,
    ensures
        ({
            let (next, result) = app.step(origin, available, input);
            &&& !(result is EnterFine)
            &&& app.level is Coarse ==> result is Await || result is WarpPointer
                || result is Terminate
            &&& app.level is Coarse ==> (next.level is Fine <==> result is WarpPointer)
            &&& app.level is Fine ==> next.level is Fine && !(result is WarpPointer)
            &&& next.is_closing <==> result is Terminate || result is MoveAndClick
                || result is Click
        }),
{
}

} // verus!
