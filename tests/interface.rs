use automancy::gui::{
    init_custom_paint_state, reset_custom_paint_state, CustomPaintState, GuiState, Hover, HoverWidget,
    OptionsMenuState, PopupState, Screen, SubState, TextField, TextFieldState,
};
use automancy::translate::{NameTable, ResourceManager, TranslateDef};

#[test]
fn screens_switch_and_return() {
    let mut s = GuiState::new();
    assert!(s.screen == Screen::MainMenu);
    assert!(s.popup == PopupState::Hidden);
    s.switch_screen(Screen::Options);
    assert!(s.previous == Some(Screen::MainMenu));
    s.return_screen();
    assert!(s.screen == Screen::MainMenu);
    assert!(s.previous.is_none());
    s.return_screen();
    assert!(s.screen == Screen::MainMenu);
    s.switch_screen_sub(Screen::Options, SubState::Options(OptionsMenuState::Audio));
    assert!(s.substate == SubState::Options(OptionsMenuState::Audio));
    assert!(!s.switch_screen_when(&|g: &GuiState| g.screen == Screen::Ingame, Screen::Paused));
    assert!(s.screen == Screen::Options);
    assert!(s.switch_screen_when(&|g: &GuiState| g.screen == Screen::Options, Screen::Paused));
    assert!(s.screen == Screen::Paused && s.previous == Some(Screen::Options));
}

#[test]
fn text_fields_edit_and_take() {
    let mut t = TextFieldState::new();
    t.get(TextField::MapName).push_str("island");
    assert_eq!(t.get(TextField::Filter).as_str(), "");
    assert_eq!(t.take(TextField::MapName), "island");
    assert_eq!(t.get(TextField::MapName).as_str(), "");
}

#[test]
fn hover_props() {
    let mut w = HoverWidget::new();
    w.update(Hover::new());
    assert_eq!(w.props, Hover {});
}

#[test]
fn paint_indices_restart_each_frame() {
    let mut p = CustomPaintState::new();
    init_custom_paint_state(&mut p, 42);
    assert_eq!(p.next_index(), 0);
    assert_eq!(p.next_index(), 1);
    reset_custom_paint_state(&mut p);
    assert_eq!(p.next_index(), 0);
    assert_eq!(p.start_instant, Some(42));
}

#[test]
fn names_fall_back() {
    let mut t = TranslateDef::new("none".to_string(), "unnamed".to_string());
    t.items = NameTable::from_entries(vec![(1, "Iron".to_string())]);
    t.tiles = NameTable::from_entries(vec![(2, "Belt".to_string())]);
    t.gui = NameTable::from_entries(vec![(3, "Play".to_string())]);
    let rm = ResourceManager { translates: t };
    assert_eq!(rm.item_name(1), "Iron");
    assert_eq!(rm.item_name(2), "unnamed");
    assert_eq!(rm.try_item_name(None), "none");
    assert_eq!(rm.try_tile_name(Some(2)), "Belt");
    assert_eq!(rm.tile_name(1), "unnamed");
    assert_eq!(rm.category_name(1), "unnamed");
    assert_eq!(rm.try_category_name(None), "none");
    assert_eq!(rm.gui_str(3), "Play");
    assert_eq!(rm.research_str(3), "unnamed");
    assert_eq!(rm.script_name(1), "unnamed");
    assert_eq!(rm.try_script_name(Some(1)), "Iron");
}

#[test]
fn later_entry_for_an_id_wins() {
    let t = NameTable::from_entries(vec![
        (1, "Copper".to_string()),
        (2, "Tin".to_string()),
        (1, "Iron".to_string()),
    ]);
    let unnamed = "unnamed".to_string();
    assert_eq!(t.name_or(1, &unnamed), "Iron");
    assert_eq!(t.name_or(2, &unnamed), "Tin");
    assert_eq!(t.name_or(3, &unnamed), "unnamed");
}
