//! GUI state that the renderer and the screens share: which screen is shown and
//! how to go back, the text fields' contents, the hover tip's props, and the
//! per-frame context of GUI-embedded game objects.
use vstd::prelude::*;
use crate::scene::TileCoord;

verus! {

/// The screen of the main GUI.
#[derive(Clone, Copy, Debug, PartialEq, Eq, Structural)]
pub enum Screen {
    MainMenu,
    MapLoad,
    Options,
    Ingame,
    Paused,
}

#[derive(Clone, Copy, Debug, PartialEq, Eq, Structural)]
pub enum OptionsMenuState {
    Graphics,
    Audio,
    Gui,
    Controls,
}

/// What part of a screen is open; `Plain` for the screen itself.
#[derive(Clone, Copy, Debug, PartialEq, Eq, Structural)]
pub enum SubState {
    Plain,
    Options(OptionsMenuState),
}

/// The popup shown over the main GUI; `Hidden` when there is none.
#[derive(Debug, PartialEq, Eq)]
pub enum PopupState {
    Hidden,
    MapCreate,
    MapDeleteConfirmation(String),
    InvalidName,
}

/// The GUI's text fields.
#[derive(Clone, Copy, Debug, PartialEq, Eq, Structural, Hash)]
pub enum TextField {
    Filter,
    MapRenaming,
    MapName,
}

/// The contents of each text field.
pub struct TextFieldState {
    filter: String,
    map_renaming: String,
    map_name: String,
}

impl TextFieldState {
    pub closed spec fn field(&self, f: TextField) -> Seq<char> {
        match f {
            TextField::Filter => self.filter@,
            TextField::MapRenaming => self.map_renaming@,
            TextField::MapName => self.map_name@,
        }
    }

    /// All fields empty.
    pub fn new() -> (r: TextFieldState)
        ensures
            forall|f: TextField| r.field(f) == Seq::<char>::empty(),
    {
        TextFieldState { filter: String::new(), map_renaming: String::new(), map_name: String::new() }
    }

    /// The contents of `field`, to read or edit in place.
    pub fn get(&mut self, field: TextField) -> (r: &mut String)
        ensures
            r@ == old(self).field(field),
            final(self).field(field) == final(r)@,
            forall|f: TextField| f != field ==> final(self).field(f) == old(self).field(f),
    {
        match field {
            TextField::Filter => &mut self.filter,
            TextField::MapRenaming => &mut self.map_renaming,
            TextField::MapName => &mut self.map_name,
        }
    }

    /// Takes the contents of `field` out, leaving it empty.
    pub fn take(&mut self, field: TextField) -> (r: String)
        ensures
            r@ == old(self).field(field),
            final(self).field(field) == Seq::<char>::empty(),
            forall|f: TextField| f != field ==> final(self).field(f) == old(self).field(f),
    {
        let mut out = String::new();
        match field {
            TextField::Filter => std::mem::swap(&mut out, &mut self.filter),
            TextField::MapRenaming => std::mem::swap(&mut out, &mut self.map_renaming),
            TextField::MapName => std::mem::swap(&mut out, &mut self.map_name),
        }
        out
    }
}

/// The state of the GUI between frames.
pub struct GuiState {
    pub screen: Screen,
    pub previous: Option<Screen>,
    pub substate: SubState,
    pub popup: PopupState,
    pub debugger_open: bool,
    pub text_field: TextFieldState,
    pub renaming_map: Option<String>,
    pub tile_selection_category: Option<u64>,
    /// The currently selected tile.
    pub selected_tile_id: Option<u64>,
    /// The last placed tile, so that a place request is not sent repeatedly.
    pub already_placed_at: Option<TileCoord>,
    /// The tile whose config menu is open.
    pub config_open_at: Option<TileCoord>,
    /// The tile currently linking.
    pub linking_tile: Option<TileCoord>,
    /// The currently grouped tiles.
    pub grouped_tiles: Vec<TileCoord>,
    /// The stored initial cursor position, for moving tiles.
    pub initial_cursor_position: Option<TileCoord>,
    /// The current placement direction, while one is being chosen.
    pub placement_direction: Option<TileCoord>,
    pub prev_placement_direction: Option<TileCoord>,
    pub selected_research: Option<u64>,
    pub selected_research_puzzle_tile: Option<TileCoord>,
    pub research_puzzle_selections: Option<(TileCoord, Vec<u64>)>,
}

impl GuiState {
    /// `self` and `other` agree on every field but the screen, the screen to go
    /// back to and the sub-state.
    pub open spec fn same_but_navigation(&self, other: &GuiState) -> bool {
        &&& self.popup == other.popup
        &&& self.debugger_open == other.debugger_open
        &&& self.text_field == other.text_field
        &&& self.renaming_map == other.renaming_map
        &&& self.tile_selection_category == other.tile_selection_category
        &&& self.selected_tile_id == other.selected_tile_id
        &&& self.already_placed_at == other.already_placed_at
        &&& self.config_open_at == other.config_open_at
        &&& self.linking_tile == other.linking_tile
        &&& self.grouped_tiles == other.grouped_tiles
        &&& self.initial_cursor_position == other.initial_cursor_position
        &&& self.placement_direction == other.placement_direction
        &&& self.prev_placement_direction == other.prev_placement_direction
        &&& self.selected_research == other.selected_research
        &&& self.selected_research_puzzle_tile == other.selected_research_puzzle_tile
        &&& self.research_puzzle_selections == other.research_puzzle_selections
    }

    /// `self` and `other` agree on every field but the screen and the screen to
    /// go back to.
    pub open spec fn same_but_screens(&self, other: &GuiState) -> bool {
        self.same_but_navigation(other) && self.substate == other.substate
    }

    /// The main menu, with nothing selected and no popup.
    pub fn new() -> (r: GuiState)
        ensures
            r.screen == Screen::MainMenu,
            r.previous is None,
            r.substate == SubState::Plain,
            r.popup == PopupState::Hidden,
            !r.debugger_open,
            forall|f: TextField| r.text_field.field(f) == Seq::<char>::empty(),
            r.renaming_map is None,
            r.tile_selection_category is None,
            r.selected_tile_id is None,
            r.already_placed_at is None,
            r.config_open_at is None,
            r.linking_tile is None,
            r.grouped_tiles.len() == 0,
            r.initial_cursor_position is None,
            r.placement_direction is None,
            r.prev_placement_direction is None,
            r.selected_research is None,
            r.selected_research_puzzle_tile is None,
            r.research_puzzle_selections is None,
    {
        GuiState {
            screen: Screen::MainMenu,
            previous: None,
            substate: SubState::Plain,
            popup: PopupState::Hidden,
            debugger_open: false,
            text_field: TextFieldState::new(),
            renaming_map: None,
            tile_selection_category: None,
            selected_tile_id: None,
            already_placed_at: None,
            config_open_at: None,
            linking_tile: None,
            grouped_tiles: Vec::new(),
            initial_cursor_position: None,
            placement_direction: None,
            prev_placement_direction: None,
            selected_research: None,
            selected_research_puzzle_tile: None,
            research_puzzle_selections: None,
        }
    }

    /// Goes back to the previous screen, if there is one, and forgets it.
    pub fn return_screen(&mut self)
        ensures
            final(self).screen == match old(self).previous {
                Some(p) => p,
                None => old(self).screen,
            },
            final(self).previous is None,
            final(self).same_but_screens(old(self)),
    {
        if let Some(prev) = self.previous {
            self.screen = prev;
        }
        self.previous = None;
    }

    /// Shows `new`, remembering the current screen to go back to.
    pub fn switch_screen(&mut self, new: Screen)
        ensures
            final(self).screen == new,
            final(self).previous == Some(old(self).screen),
            final(self).same_but_screens(old(self)),
    {
        self.previous = Some(self.screen);
        self.screen = new;
    }

    /// Shows `new` with the sub-state `sub`.
    pub fn switch_screen_sub(&mut self, new: Screen, sub: SubState)
        ensures
            final(self).screen == new,
            final(self).previous == Some(old(self).screen),
            final(self).substate == sub,
            final(self).same_but_navigation(old(self)),
    {
        self.switch_screen(new);
        self.substate = sub;
    }

    /// Shows `new` if `condition` holds of the current state; returns whether it did.
    pub fn switch_screen_when<F: Fn(&GuiState) -> bool>(&mut self, condition: &F, new: Screen) -> (r: bool)
        requires
            condition.requires((&*old(self),)),
        ensures
            condition.ensures((&*old(self),), r),
            r ==> final(self).screen == new && final(self).previous == Some(old(self).screen)
                && final(self).same_but_screens(old(self)),
            !r ==> *final(self) == *old(self),
    {
        if condition(&*self) {
            self.switch_screen(new);
            true
        } else {
            false
        }
    }
}

/// Props of the hover tip, a widget that follows the mouse.
#[derive(Clone, Copy, Debug, PartialEq, Eq, Structural)]
pub struct Hover {}

impl Hover {
    pub fn new() -> (r: Hover)
        ensures
            r == (Hover {}),
    {
        Hover {}
    }
}

/// The hover tip's widget state: its latest props.
#[derive(Clone, Copy, Debug, PartialEq, Eq, Structural)]
pub struct HoverWidget {
    pub props: Hover,
}

impl HoverWidget {
    pub fn new() -> (r: HoverWidget)
        ensures
            r.props == (Hover {}),
    {
        HoverWidget { props: Hover::new() }
    }

    pub fn update(&mut self, props: Hover)
        ensures
            final(self).props == props,
    {
        self.props = props;
    }
}

/// The per-frame context of game objects drawn inside the GUI: the game's start
/// time, for their animations, and the index handed to the next one, which
/// addresses its instance in the GUI's batch.
#[derive(Clone, Copy, Debug, PartialEq, Eq, Structural)]
pub struct CustomPaintState {
    pub start_instant: Option<u64>,
    pub index_counter: usize,
}

impl CustomPaintState {
    pub fn new() -> (r: CustomPaintState)
        ensures
            r.start_instant is None,
            r.index_counter == 0,
    {
        CustomPaintState { start_instant: None, index_counter: 0 }
    }

    /// The index of a new GUI game object: the counter, which then moves on.
    pub fn next_index(&mut self) -> (r: usize)
        requires
            old(self).index_counter < usize::MAX,
        ensures
            r == old(self).index_counter,
            final(self).index_counter == old(self).index_counter + 1,
            final(self).start_instant == old(self).start_instant,
    {
        let index = self.index_counter;
        self.index_counter = index + 1;
        index
    }
}

/// Records the game's start time for the animations of GUI game objects.
pub fn init_custom_paint_state(state: &mut CustomPaintState, start_instant: u64)
    ensures
        final(state).start_instant == Some(start_instant),
        final(state).index_counter == old(state).index_counter,
{
    state.start_instant = Some(start_instant);
}

/// Starts a new frame of GUI game objects: indices count from zero again.
pub fn reset_custom_paint_state(state: &mut CustomPaintState)
    ensures
        final(state).index_counter == 0,
        final(state).start_instant == old(state).start_instant,
{
    state.index_counter = 0;
}

} // verus!
