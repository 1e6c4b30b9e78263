use menu_launcher::menu::Menu;
use menu_launcher::render::Frame;

fn lines(v: &[&str]) -> Vec<String> {
    v.iter().map(|s| s.to_string()).collect()
}

#[test]
fn new_menu_is_empty() {
    let m = Menu::new();
    assert_eq!(m.len(), 0);
    assert_eq!(m.selected_index(), 0);
    assert_eq!(m.layout_width(), 0);
    assert!(m.selected_item().is_none());
}

#[test]
fn malformed_lines_are_skipped_in_order() {
    let m = Menu::from_lines(&lines(&[
        "garbage",
        "A,.,true",
        "Bad,only-two",
        "",
        "B,.,false",
        "Broken,.,echo 'x",
        "C,./c,",
    ]));
    assert_eq!(m.len(), 3);
    assert_eq!(m.item(0).name, "A");
    assert_eq!(m.item(1).name, "B");
    assert_eq!(m.item(2).name, "C");
    assert_eq!(m.selected_index(), 0);
}

#[test]
fn layout_width_is_longest_name_plus_two() {
    let m = Menu::from_lines(&lines(&["Hi,.,true", "Longest,.,true", "Mid,.,true"]));
    assert_eq!(m.layout_width(), 9);
    let with_bad = Menu::from_lines(&lines(&[
        "Hi,.,true",
        "AVeryVeryLongBrokenLine",
        "Longest,.,true",
        "Unbalanced name here,.,\"x",
    ]));
    assert_eq!(with_bad.layout_width(), 9);
}

#[test]
fn layout_width_counts_characters() {
    let m = Menu::from_lines(&lines(&["Café,.,true"]));
    assert_eq!(m.layout_width(), 6);
}

#[test]
fn cursor_stops_at_both_ends() {
    let mut m = Menu::from_lines(&lines(&["A,.,true", "B,.,true", "C,.,true"]));
    m.move_up();
    assert_eq!(m.selected_index(), 0);
    m.move_down();
    m.move_down();
    assert_eq!(m.selected_index(), 2);
    m.move_down();
    assert_eq!(m.selected_index(), 2);
    m.move_up();
    assert_eq!(m.selected_index(), 1);
    assert_eq!(m.selected_item().unwrap().name, "B");
}

#[test]
fn cursor_on_empty_menu_stays() {
    let mut m = Menu::new();
    m.move_down();
    m.move_up();
    assert_eq!(m.selected_index(), 0);
}

#[test]
fn render_draws_centred_box() {
    let mut m = Menu::from_lines(&lines(&["Shell,.,bash", "Go,.,true"]));
    m.move_down();
    let Frame { column, lines } = m.render(27);
    assert_eq!(column, 10);
    assert_eq!(
        lines,
        vec![
            "┌─────┐".to_string(),
            "│Shell│".to_string(),
            "║ Go  ║".to_string(),
            "└─────┘".to_string(),
        ]
    );
}

#[test]
fn render_in_narrow_terminal_starts_at_zero() {
    let m = Menu::from_lines(&lines(&["Shell,.,bash"]));
    let f = m.render(3);
    assert_eq!(f.column, 0);
    assert_eq!(f.lines[1], "║Shell║");
}

#[test]
fn render_empty_menu() {
    let f = Menu::new().render(80);
    assert_eq!(f.column, 40);
    assert_eq!(f.lines, vec!["┌┐".to_string(), "└┘".to_string()]);
}
