use sulis::area_widget::{AreaWidget, InputAction};
use sulis::geometry::{Point, Size};
use sulis::script_menu::{ScriptMenu, ScriptMenuChoice, ScriptMenuEvent};

#[test]
fn draw_text_mode_clips_to_box_and_area() {
    let w = AreaWidget::new(5, 4);
    let rows = w.draw_text_mode(Point::new(10, 20), Size::new(3, 10), Point::new(1, 2));
    assert_eq!(rows.len(), 2);
    assert_eq!(rows[0].cursor, Point::new(10, 20));
    assert_eq!(rows[1].cursor, Point::new(10, 21));
    assert_eq!(rows[0].tiles, vec![Point::new(1, 2), Point::new(2, 2), Point::new(3, 2)]);
    assert_eq!(rows[1].tiles, vec![Point::new(1, 3), Point::new(2, 3), Point::new(3, 3)]);
}

#[test]
fn draw_text_mode_scrolled_past_the_area_draws_nothing() {
    let w = AreaWidget::new(5, 4);
    assert!(w.draw_text_mode(Point::new(0, 0), Size::new(3, 3), Point::new(0, 9)).is_empty());
    let rows = w.draw_text_mode(Point::new(0, 0), Size::new(3, 3), Point::new(7, 0));
    assert_eq!(rows.len(), 3);
    assert!(rows.iter().all(|r| r.tiles.is_empty()));
}

#[test]
fn keys_scroll_one_tile() {
    let w = AreaWidget::new(5, 4);
    assert_eq!(w.on_key_press(InputAction::ScrollUp), Some((0, -1)));
    assert_eq!(w.on_key_press(InputAction::ScrollDown), Some((0, 1)));
    assert_eq!(w.on_key_press(InputAction::ScrollLeft), Some((-1, 0)));
    assert_eq!(w.on_key_press(InputAction::ScrollRight), Some((1, 0)));
    assert_eq!(w.on_key_press(InputAction::Other), None);
    assert_eq!(w.on_add(), (5, 4));
    assert_eq!(w.get_name(), "Area");
}

#[test]
fn click_targets_account_for_size_and_scroll() {
    let w = AreaWidget::new(50, 40);
    assert_eq!(w.on_mouse_click(3, Point::new(2, 2), Point::new(10, 5), Point::new(8, 9)), Some(Point::new(15, 11)));
    assert_eq!(w.on_mouse_click(3, Point::new(2, 2), Point::new(10, 5), Point::new(2, 9)), None);
    assert_eq!(w.on_mouse_click(-3, Point::new(0, 0), Point::new(0, 0), Point::new(0, 0)), Some(Point::new(1, 1)));
}

#[test]
fn mouse_over_text() {
    let w = AreaWidget::new(5, 4);
    assert_eq!(w.on_mouse_move(Point::new(-3, 12)), "[-3,12]");
    assert_eq!(w.on_mouse_move(Point::new(0, 0)), "[0,0]");
    assert_eq!(w.on_mouse_exit(), "");
}

#[test]
fn script_menu_entries_and_selection() {
    let choices = vec![
        ScriptMenuChoice { display: "Yes".to_string(), value: "y".to_string() },
        ScriptMenuChoice { display: "No".to_string(), value: "n".to_string() },
    ];
    let menu = ScriptMenu::new(7u32, "Continue?".to_string(), choices);
    let layout = menu.on_add();
    assert_eq!(layout.title.get("title"), Some("Continue?".to_string()));
    assert_eq!(layout.entries.len(), 2);
    assert_eq!(layout.entries[1].get("choice"), Some("No".to_string()));
    assert_eq!(menu.select(0).value, "y");
    assert_eq!(menu.select(1).value, "n");
    assert_eq!(menu.callback, 7);
}

#[test]
fn script_menu_entry_selects_once_and_closes() {
    let choices = vec![
        ScriptMenuChoice { display: "Left".to_string(), value: "l".to_string() },
        ScriptMenuChoice { display: "Right".to_string(), value: "r".to_string() },
    ];
    let mut menu = ScriptMenu::new(1u8, "Which way?".to_string(), choices);
    assert!(menu.open);
    let sel = menu.on_event(ScriptMenuEvent::Entry(1));
    assert_eq!(sel.map(|s| s.value), Some("r".to_string()));
    assert!(!menu.open);
    assert_eq!(menu.choices.len(), 2);
}

#[test]
fn script_menu_cancel_closes_without_selection() {
    let choices = vec![ScriptMenuChoice { display: "Ok".to_string(), value: "ok".to_string() }];
    let mut menu = ScriptMenu::new(1u8, "Done?".to_string(), choices);
    assert!(menu.on_event(ScriptMenuEvent::Cancel).is_none());
    assert!(!menu.open);
    assert_eq!(menu.title, "Done?");
}
