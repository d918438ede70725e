//! From pointer samples to changes on the board: the buttons' state
//! machines, the click events they give rise to, the test of a position
//! against the tiles' regions, and the reveal and flag operations.

use vstd::prelude::*;
use crate::board::Board;
use crate::grid::{lemma_state_keeps_types, Grid};
use crate::tile::Tile;

verus! {

/// A position in world space, in whole world units.
///
/// The corners of every region are whole numbers, so a position between two
/// of them lies in the same regions as the position rounded down.
#[derive(Clone, Copy, Debug, PartialEq, Eq, Structural)]
pub struct Position {
    pub x: i64,
    pub y: i64,
}

/// Struct that defines a bounding box. The bottom left corner belongs to
/// the box, the top right corner does not.
#[derive(Clone, Copy, Debug, PartialEq, Eq, Structural)]
pub struct Bound {
    bottom_left: Position,
    top_right: Position,
}

impl Bound {
    /// The bottom left corner lies below and to the left of the top right
    /// one, so the box holds at least one position.
    #[verifier::type_invariant]
    pub open spec fn wf(&self) -> bool {
        &&& self.spec_bottom_left().x < self.spec_top_right().x
        &&& self.spec_bottom_left().y < self.spec_top_right().y
    }

    /// The corner that belongs to the box.
    pub closed spec fn spec_bottom_left(&self) -> Position {
        self.bottom_left
    }

    /// The corner that does not belong to the box.
    pub closed spec fn spec_top_right(&self) -> Position {
        self.top_right
    }

    /// Whether `position` lies in the box.
    pub open spec fn contains(&self, position: Position) -> bool {
        &&& self.spec_bottom_left().x <= position.x < self.spec_top_right().x
        &&& self.spec_bottom_left().y <= position.y < self.spec_top_right().y
    }

    /// Creates a new bound from the given bottom left (inclusive) and top right (exclusive) corners.
    pub fn new(bottom_left: Position, top_right: Position) -> (bound: Bound)
        requires
            bottom_left.x < top_right.x,
            bottom_left.y < top_right.y,
        ensures
            bound.wf(),
            bound.spec_bottom_left() == bottom_left,
            bound.spec_top_right() == top_right,
    {
        Bound { bottom_left, top_right }
    }

    /// Returns the corner that belongs to the box.
    #[verifier::when_used_as_spec(spec_bottom_left)]
    pub fn bottom_left(&self) -> (corner: Position)
        ensures
            corner == self.spec_bottom_left(),
    {
        self.bottom_left
    }

    /// Returns the corner that does not belong to the box.
    #[verifier::when_used_as_spec(spec_top_right)]
    pub fn top_right(&self) -> (corner: Position)
        ensures
            corner == self.spec_top_right(),
    {
        self.top_right
    }

    /// Checks that a given location is inside the bounding box.
    pub fn in_bounds(&self, position: Position) -> (inside: bool)
        ensures
            inside == self.contains(position),
    {
        (self.bottom_left.x <= position.x) && (self.top_right.x > position.x) && (self.bottom_left.y
            <= position.y) && (self.top_right.y > position.y)
    }
}

/// Component added to any entity that can be selected.
#[derive(Clone, Copy, Debug, PartialEq, Eq, Structural)]
pub struct Selectable {
    bound: Bound,
}

impl Selectable {
    /// The region in which the entity can be selected.
    pub closed spec fn spec_bound(&self) -> Bound {
        self.bound
    }

    /// Creates a new selectable object from the given bottom left (inclusive) and top right (exclusive) corners.
    pub fn new(bottom_left: Position, top_right: Position) -> (selectable: Selectable)
        requires
            bottom_left.x < top_right.x,
            bottom_left.y < top_right.y,
        ensures
            selectable.spec_bound().wf(),
            selectable.spec_bound().spec_bottom_left() == bottom_left,
            selectable.spec_bound().spec_top_right() == top_right,
    {
        Selectable { bound: Bound::new(bottom_left, top_right) }
    }

    /// Returns the region in which the entity can be selected.
    #[verifier::when_used_as_spec(spec_bound)]
    pub fn bound(&self) -> (bound: Bound)
        ensures
            bound == self.spec_bound(),
    {
        self.bound
    }
}

/// The coordinate of the tile that an entity stands for.
#[derive(Clone, Copy, Debug, PartialEq, Eq, Structural)]
pub struct TileEntity {
    pub x: usize,
    pub y: usize,
}

/// What the input layer knows of one entity on screen: the region in which
/// it can be selected and the tile that it stands for.
#[derive(Clone, Copy, Debug, PartialEq, Eq, Structural)]
pub struct SelectableTile {
    pub selectable: Selectable,
    pub tile: TileEntity,
}

/// Every entity of `tiles` stands for a tile of `grid`.
pub open spec fn tiles_on_grid(tiles: Seq<SelectableTile>, grid: Grid) -> bool {
    forall|k: int|
        0 <= k < tiles.len() ==> grid.in_range(
            (#[trigger] tiles[k]).tile.x as int,
            tiles[k].tile.y as int,
        )
}

/// The mouse buttons that the game listens to.
#[derive(Clone, Copy, Debug, PartialEq, Eq, Structural)]
pub enum MouseButton {
    Left,
    Right,
}

/// What happened to a button in one update cycle.
#[derive(Clone, Copy, Debug, PartialEq, Eq, Structural)]
pub enum ClickType {
    /// First frame of the mouse button being pressed.
    Clicked,
    /// Any other frame of the mouse button being pressed.
    Held,
    /// First frame of the mouse button being released.
    Released,
}

/// One occurrence on a mouse button, at the place of the pointer.
#[derive(Clone, Copy, Debug, PartialEq, Eq, Structural)]
pub struct ClickEvent {
    pub position: Position,
    pub click_type: ClickType,
    pub button: MouseButton,
}

/// Where a button stands in the course of a press.
#[derive(Clone, Copy, Debug, PartialEq, Eq, Structural)]
pub enum ButtonState {
    /// The button is up and was up before.
    Idle,
    /// The button is down and was up before.
    Pressed,
    /// The button is down and was down before.
    Held,
    /// The button is up and was down before.
    Released,
}

impl ButtonState {
    /// Whether the button was read as down.
    pub open spec fn is_down(self) -> bool {
        self is Pressed || self is Held
    }

    /// The state after the button was read once more: `down` tells what was read.
    pub open spec fn spec_next(self, down: bool) -> ButtonState {
        if down {
            if self.is_down() {
                ButtonState::Held
            } else {
                ButtonState::Pressed
            }
        } else {
            if self.is_down() {
                ButtonState::Released
            } else {
                ButtonState::Idle
            }
        }
    }

    /// Returns the state after the button was read once more.
    #[verifier::when_used_as_spec(spec_next)]
    pub fn next(self, down: bool) -> (state: ButtonState)
        ensures
            state == self.spec_next(down),
    {
        let was_down = match self {
            ButtonState::Pressed => true,
            ButtonState::Held => true,
            ButtonState::Idle => false,
            ButtonState::Released => false,
        };
        if down {
            if was_down {
                ButtonState::Held
            } else {
                ButtonState::Pressed
            }
        } else {
            if was_down {
                ButtonState::Released
            } else {
                ButtonState::Idle
            }
        }
    }

    /// What the state reports to listeners: nothing while the button is idle.
    pub open spec fn spec_click_type(self) -> Option<ClickType> {
        match self {
            ButtonState::Idle => None,
            ButtonState::Pressed => Some(ClickType::Clicked),
            ButtonState::Held => Some(ClickType::Held),
            ButtonState::Released => Some(ClickType::Released),
        }
    }

    /// Returns what the state reports to listeners.
    #[verifier::when_used_as_spec(spec_click_type)]
    pub fn click_type(self) -> (click_type: Option<ClickType>)
        ensures
            click_type == self.spec_click_type(),
    {
        match self {
            ButtonState::Idle => None,
            ButtonState::Pressed => Some(ClickType::Clicked),
            ButtonState::Held => Some(ClickType::Held),
            ButtonState::Released => Some(ClickType::Released),
        }
    }
}

/// The states of the two buttons, carried from one update cycle to the next.
#[derive(Clone, Copy, Debug, PartialEq, Eq, Structural)]
pub struct MouseButtons {
    pub left: ButtonState,
    pub right: ButtonState,
}

impl MouseButtons {
    /// Both buttons idle.
    pub open spec fn spec_new() -> MouseButtons {
        MouseButtons { left: ButtonState::Idle, right: ButtonState::Idle }
    }

    /// Returns the states to start from: both buttons idle.
    #[verifier::when_used_as_spec(spec_new)]
    pub fn new() -> (buttons: MouseButtons)
        ensures
            buttons == MouseButtons::spec_new(),
    {
        MouseButtons { left: ButtonState::Idle, right: ButtonState::Idle }
    }

    /// The states after both buttons were read once more.
    pub open spec fn next(self, left_down: bool, right_down: bool) -> MouseButtons {
        MouseButtons { left: self.left.next(left_down), right: self.right.next(right_down) }
    }

    /// The state of `button`.
    pub open spec fn state(self, button: MouseButton) -> ButtonState {
        match button {
            MouseButton::Left => self.left,
            MouseButton::Right => self.right,
        }
    }
}

/// The event that a button in `state` gives rise to at `position`, if any.
pub open spec fn button_events(button: MouseButton, state: ButtonState, position: Position) -> Seq<
    ClickEvent,
> {
    match state.click_type() {
        Some(click_type) => seq![ClickEvent { position, click_type, button }],
        None => Seq::empty(),
    }
}

/// The events of one update cycle: none without a pointer position, else
/// that of the left button followed by that of the right one.
pub open spec fn click_events(buttons: MouseButtons, position: Option<Position>) -> Seq<
    ClickEvent,
> {
    match position {
        Some(position) => button_events(MouseButton::Left, buttons.left, position)
            + button_events(MouseButton::Right, buttons.right, position),
        None => Seq::empty(),
    }
}

/// Reads both buttons once more and reports what happened to them at the
/// place of the pointer. `position` is `None` while the pointer is outside
/// the window: the buttons are followed all the same, and nothing is reported.
pub fn click_detection(
    buttons: &mut MouseButtons,
    position: Option<Position>,
    left_down: bool,
    right_down: bool,
) -> (clicks: Vec<ClickEvent>)
    ensures
        *final(buttons) == old(buttons).next(left_down, right_down),
        clicks@ == click_events(*final(buttons), position),
{
    buttons.left = buttons.left.next(left_down);
    buttons.right = buttons.right.next(right_down);

    let mut clicks: Vec<ClickEvent> = Vec::new();
    let Some(position) = position else {
        return clicks;
    };

    if let Some(click_type) = buttons.left.click_type() {
        clicks.push(ClickEvent { position, click_type, button: MouseButton::Left });
    }
    if let Some(click_type) = buttons.right.click_type() {
        clicks.push(ClickEvent { position, click_type, button: MouseButton::Right });
    }
    clicks
}

/// An instruction to the renderer: draw entity number `entity` of the list
/// of tiles with the sprite at `index`.
#[derive(Clone, Copy, Debug, PartialEq, Eq, Structural)]
pub struct SpriteUpdate {
    pub entity: usize,
    pub index: usize,
}

/// What the player can do to a tile.
#[derive(Clone, Copy, Debug, PartialEq, Eq, Structural)]
pub enum Action {
    /// Show what the tile holds.
    Reveal,
    /// Mark the tile as a suspected bomb, or take the mark away.
    Flag,
}

impl Action {
    /// The button that asks for the action: the left one reveals, the right one flags.
    pub open spec fn button(self) -> MouseButton {
        match self {
            Action::Reveal => MouseButton::Left,
            Action::Flag => MouseButton::Right,
        }
    }

    /// Whether `click` asks for the action: only the first frame of a press
    /// of the action's button does.
    pub open spec fn triggered_by(self, click: ClickEvent) -> bool {
        click.click_type == ClickType::Clicked && click.button == self.button()
    }

    /// The grid after the action on the tile at `(x, y)`.
    pub open spec fn apply(self, grid: Grid, x: int, y: int) -> Grid {
        match self {
            Action::Reveal => grid.reveal_tile(x, y),
            Action::Flag => grid.flag_tile(x, y),
        }
    }

    /// The sprite index to switch to after the action on `tile`, if the
    /// action changes the tile.
    pub open spec fn sprite(self, tile: Tile) -> Option<usize> {
        match self {
            Action::Reveal => tile.reveal_index(),
            Action::Flag => tile.flag_index(),
        }
    }
}

/// A grid together with the instructions to the renderer that led to it.
pub struct Outcome {
    pub grid: Grid,
    pub updates: Seq<SpriteUpdate>,
}

/// What one press at `position` does: the action is applied, in the order
/// of the list, to the tile of each of the first `n` entities whose region
/// holds the position.
pub open spec fn press(
    action: Action,
    grid: Grid,
    tiles: Seq<SelectableTile>,
    position: Position,
    n: nat,
) -> Outcome
    decreases n,
{
    if n == 0 {
        Outcome { grid, updates: Seq::empty() }
    } else {
        let before = press(action, grid, tiles, position, (n - 1) as nat);
        let entity = tiles[n - 1];
        let (x, y) = (entity.tile.x as int, entity.tile.y as int);
        if entity.selectable.bound().contains(position) {
            Outcome {
                grid: action.apply(before.grid, x, y),
                updates: match action.sprite(before.grid.tile(x, y)) {
                    Some(index) => before.updates.push(
                        SpriteUpdate { entity: (n - 1) as usize, index },
                    ),
                    None => before.updates,
                },
            }
        } else {
            before
        }
    }
}

/// What the first `n` of `clicks` do, one after the other: each click that
/// asks for the action is a press at its position, the others do nothing.
pub open spec fn press_all(
    action: Action,
    grid: Grid,
    tiles: Seq<SelectableTile>,
    clicks: Seq<ClickEvent>,
    n: nat,
) -> Outcome
    decreases n,
{
    if n == 0 {
        Outcome { grid, updates: Seq::empty() }
    } else {
        let before = press_all(action, grid, tiles, clicks, (n - 1) as nat);
        let click = clicks[n - 1];
        if action.triggered_by(click) {
            let after = press(action, before.grid, tiles, click.position, tiles.len());
            Outcome { grid: after.grid, updates: before.updates + after.updates }
        } else {
            before
        }
    }
}

/// The player's presses change what is seen of the tiles and nothing else:
/// after any of them every tile is of the type it was, so the bombs stay
/// where they were placed and the counts around them stay exact.
pub proof fn lemma_press_keeps_types(
    action: Action,
    grid: Grid,
    tiles: Seq<SelectableTile>,
    position: Position,
    n: nat,
)
    requires
        grid.wf(),
        tiles_on_grid(tiles, grid),
        n <= tiles.len(),
    ensures
        press(action, grid, tiles, position, n).grid.wf(),
        press(action, grid, tiles, position, n).grid.same_types(grid),
    decreases n,
{
    if n > 0 {
        lemma_press_keeps_types(action, grid, tiles, position, (n - 1) as nat);
        let before = press(action, grid, tiles, position, (n - 1) as nat).grid;
        let entity = tiles[n - 1];
        let (x, y) = (entity.tile.x as int, entity.tile.y as int);
        lemma_state_keeps_types(before, x, y, before.tile(x, y).state.revealed());
        lemma_state_keeps_types(before, x, y, before.tile(x, y).state.toggled());
    }
}

/// [`lemma_press_keeps_types`] for a list of clicks.
pub proof fn lemma_press_all_keeps_types(
    action: Action,
    grid: Grid,
    tiles: Seq<SelectableTile>,
    clicks: Seq<ClickEvent>,
    n: nat,
)
    requires
        grid.wf(),
        tiles_on_grid(tiles, grid),
        n <= clicks.len(),
    ensures
        press_all(action, grid, tiles, clicks, n).grid.wf(),
        press_all(action, grid, tiles, clicks, n).grid.same_types(grid),
    decreases n,
{
    if n > 0 {
        lemma_press_all_keeps_types(action, grid, tiles, clicks, (n - 1) as nat);
        let before = press_all(action, grid, tiles, clicks, (n - 1) as nat).grid;
        lemma_press_keeps_types(action, before, tiles, clicks[n - 1].position, tiles.len());
    }
}

/// Applies `action` to the board for every click that asks for it, and
/// returns the instructions to the renderer in the order in which the tiles
/// changed.
fn apply_clicks(
    action: Action,
    tiles: &Vec<SelectableTile>,
    board: &mut Board,
    clicks: &Vec<ClickEvent>,
) -> (updates: Vec<SpriteUpdate>)
    requires
        tiles_on_grid(tiles@, old(board)@),
    ensures
        final(board)@ == press_all(action, old(board)@, tiles@, clicks@, clicks@.len()).grid,
        updates@ == press_all(action, old(board)@, tiles@, clicks@, clicks@.len()).updates,
{
    let mut updates: Vec<SpriteUpdate> = Vec::new();
    let button = match action {
        Action::Reveal => MouseButton::Left,
        Action::Flag => MouseButton::Right,
    };
    proof {
        use_type_invariant(&*board);
    }
    for m in 0..clicks.len()
        invariant
            board.wf(),
            button == action.button(),
            board@.width == old(board)@.width,
            board@.height == old(board)@.height,
            tiles_on_grid(tiles@, old(board)@),
            board@ == press_all(action, old(board)@, tiles@, clicks@, m as nat).grid,
            updates@ == press_all(action, old(board)@, tiles@, clicks@, m as nat).updates,
    {
        let click = clicks[m];
        if click.click_type == ClickType::Clicked && click.button == button {
            let ghost before = board@;
            let ghost reported = updates@;
            for n in 0..tiles.len()
                invariant
                    board.wf(),
                    before.wf(),
                    board@.width == old(board)@.width,
                    board@.height == old(board)@.height,
                    tiles_on_grid(tiles@, old(board)@),
                    board@ == press(action, before, tiles@, click.position, n as nat).grid,
                    updates@ == reported + press(
                        action,
                        before,
                        tiles@,
                        click.position,
                        n as nat,
                    ).updates,
            {
                let entity = tiles[n];
                if entity.selectable.bound().in_bounds(click.position) {
                    let index = match action {
                        Action::Reveal => board.reveal_tile(entity.tile.x, entity.tile.y),
                        Action::Flag => board.flag_tile(entity.tile.x, entity.tile.y),
                    };
                    if let Some(index) = index {
                        updates.push(SpriteUpdate { entity: n, index });
                    }
                }
                proof {
                    use_type_invariant(&*board);
                }
            }
        }
    }
    updates
}

/// Reveals the tile under the pointer for every first frame of a press of
/// the left button among `clicks`. Only a hidden tile changes, and for each
/// tile that does the sprite index of its content is reported.
pub fn tile_reveal(tiles: &Vec<SelectableTile>, board: &mut Board, clicks: &Vec<ClickEvent>) -> (updates:
    Vec<SpriteUpdate>)
    requires
        tiles_on_grid(tiles@, old(board)@),
    ensures
        final(board)@ == press_all(
            Action::Reveal,
            old(board)@,
            tiles@,
            clicks@,
            clicks@.len(),
        ).grid,
        updates@ == press_all(
            Action::Reveal,
            old(board)@,
            tiles@,
            clicks@,
            clicks@.len(),
        ).updates,
{
    apply_clicks(Action::Reveal, tiles, board, clicks)
}

/// Flags the tile under the pointer, or takes its flag away, for every
/// first frame of a press of the right button among `clicks`. A visible
/// tile stays as it is, and for each tile that changes the sprite index of
/// its new marker is reported.
pub fn tile_flag(tiles: &Vec<SelectableTile>, board: &mut Board, clicks: &Vec<ClickEvent>) -> (updates:
    Vec<SpriteUpdate>)
    requires
        tiles_on_grid(tiles@, old(board)@),
    ensures
        final(board)@ == press_all(Action::Flag, old(board)@, tiles@, clicks@, clicks@.len()).grid,
        updates@ == press_all(
            Action::Flag,
            old(board)@,
            tiles@,
            clicks@,
            clicks@.len(),
        ).updates,
{
    apply_clicks(Action::Flag, tiles, board, clicks)
}

/// What the pointer and the buttons read in one update cycle.
pub struct Sample {
    pub position: Option<Position>,
    pub left_down: bool,
    pub right_down: bool,
}

impl Sample {
    /// Whether `button` was read as down.
    pub open spec fn down(self, button: MouseButton) -> bool {
        match button {
            MouseButton::Left => self.left_down,
            MouseButton::Right => self.right_down,
        }
    }
}

/// What a run of update cycles does by way of `action`: in each cycle the
/// buttons are read, the clicks are detected, and the action is applied for
/// those that ask for it.
pub open spec fn cycles(
    action: Action,
    buttons: MouseButtons,
    grid: Grid,
    tiles: Seq<SelectableTile>,
    samples: Seq<Sample>,
) -> Outcome
    decreases samples.len(),
{
    if samples.len() == 0 {
        Outcome { grid, updates: Seq::empty() }
    } else {
        let sample = samples.first();
        let buttons = buttons.next(sample.left_down, sample.right_down);
        let clicks = click_events(buttons, sample.position);
        let first = press_all(action, grid, tiles, clicks, clicks.len());
        let rest = cycles(action, buttons, first.grid, tiles, samples.drop_first());
        Outcome { grid: rest.grid, updates: first.updates + rest.updates }
    }
}

/// The clicks of one cycle are one press where the pointer stands if the
/// action's button has just gone down, and nothing in any other state of
/// the button or without a pointer position.
pub proof fn lemma_cycle_acts_on_press(
    action: Action,
    buttons: MouseButtons,
    grid: Grid,
    tiles: Seq<SelectableTile>,
    position: Option<Position>,
)
    ensures
        press_all(
            action,
            grid,
            tiles,
            click_events(buttons, position),
            click_events(buttons, position).len(),
        ) == match position {
            Some(position) if buttons.state(action.button()) == ButtonState::Pressed => press(
                action,
                grid,
                tiles,
                position,
                tiles.len(),
            ),
            _ => Outcome { grid, updates: Seq::empty() },
        },
{
    reveal_with_fuel(press_all, 3);
}

/// While the button of an action stays down after a cycle in which it was
/// down, the action is applied to no tile, however many cycles go by and
/// wherever the pointer moves.
pub proof fn lemma_held_does_nothing(
    action: Action,
    buttons: MouseButtons,
    grid: Grid,
    tiles: Seq<SelectableTile>,
    samples: Seq<Sample>,
)
    requires
        buttons.state(action.button()).is_down(),
        forall|k: int| 0 <= k < samples.len() ==> (#[trigger] samples[k]).down(action.button()),
    ensures
        cycles(action, buttons, grid, tiles, samples) == (Outcome { grid, updates: Seq::empty() }),
    decreases samples.len(),
{
    if samples.len() > 0 {
        let sample = samples.first();
        let next = buttons.next(sample.left_down, sample.right_down);
        lemma_cycle_acts_on_press(action, next, grid, tiles, sample.position);
        lemma_held_does_nothing(action, next, grid, tiles, samples.drop_first());
    }
}

/// Holding the button of an action down for any number of cycles is one
/// press at the place where the pointer stood in the first of them: the
/// cycles that follow add nothing, and without a pointer position in the
/// first cycle the action is applied to no tile at all. So a left button
/// held down reveals once, and a right button held down flags once.
pub proof fn lemma_hold_acts_once(
    action: Action,
    buttons: MouseButtons,
    grid: Grid,
    tiles: Seq<SelectableTile>,
    samples: Seq<Sample>,
)
    requires
        !buttons.state(action.button()).is_down(),
        samples.len() >= 1,
        forall|k: int| 0 <= k < samples.len() ==> (#[trigger] samples[k]).down(action.button()),
    ensures
        cycles(action, buttons, grid, tiles, samples) == match samples[0].position {
            Some(position) => press(action, grid, tiles, position, tiles.len()),
            None => Outcome { grid, updates: Seq::empty() },
        },
{
    let sample = samples.first();
    let next = buttons.next(sample.left_down, sample.right_down);
    let clicks = click_events(next, sample.position);
    let first = press_all(action, grid, tiles, clicks, clicks.len());
    lemma_cycle_acts_on_press(action, next, grid, tiles, sample.position);
    lemma_held_does_nothing(action, next, first.grid, tiles, samples.drop_first());
}

} // verus!
