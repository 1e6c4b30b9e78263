use menu_launcher::menu::Menu;
use menu_launcher::session::{CommandRun, Key, RunOutcome, Session, Step};
use menu_launcher::terminal::{shutdown_script, TermMode, TermOp};
use menu_launcher::text::decimal_string;

const NORMAL: TermMode = TermMode { raw: false, cursor_visible: true, line_wrap: true };
const MENU: TermMode = TermMode { raw: true, cursor_visible: false, line_wrap: false };

fn menu(v: &[&str]) -> Menu {
    let ls: Vec<String> = v.iter().map(|s| s.to_string()).collect();
    Menu::from_lines(&ls)
}

fn apply(mut m: TermMode, ops: &[TermOp]) -> TermMode {
    for op in ops {
        match op {
            TermOp::EnableRaw => m.raw = true,
            TermOp::DisableRaw => m.raw = false,
            TermOp::HideCursor => m.cursor_visible = false,
            TermOp::ShowCursor => m.cursor_visible = true,
            TermOp::DisableLineWrap => m.line_wrap = false,
            TermOp::EnableLineWrap => m.line_wrap = true,
            _ => {}
        }
    }
    m
}

fn printed(ops: &[TermOp]) -> Vec<String> {
    ops.iter()
        .filter_map(|op| match op {
            TermOp::Print(s) => Some(s.clone()),
            _ => None,
        })
        .collect()
}

fn started(v: &[&str]) -> Session {
    let mut s = Session::new();
    let ops = s.start(Some(menu(v)));
    assert_eq!(ops, vec![TermOp::EnableRaw, TermOp::HideCursor, TermOp::DisableLineWrap]);
    s
}

fn take_run(step: Step) -> CommandRun {
    match step {
        Step::Run(run) => run,
        other => panic!("expected a run, got {:?}", other),
    }
}

#[test]
fn selecting_a_command_runs_it_in_normal_mode() {
    let mut s = started(&["A,.,true", "B,/tmp,ls -l \"a b\""]);
    assert!(matches!(s.on_key(Key::Down), Step::Redraw));
    let run = take_run(s.on_key(Key::Enter));
    assert_eq!(run.program, "ls");
    assert_eq!(run.args, vec!["-l".to_string(), "a b".to_string()]);
    assert_eq!(run.dir, "/tmp");
    assert_eq!(apply(MENU, &run.script), NORMAL);
    assert_eq!(run.script[2], TermOp::ClearScreen);
    assert_eq!(s.mode(), NORMAL);
}

#[test]
fn successful_command_shows_no_error() {
    let mut s = started(&["A,.,true", "B,.,false"]);
    let run = take_run(s.on_key(Key::Enter));
    assert_eq!(run.program, "true");
    let ops = s.command_finished(&run, RunOutcome::Exited(Some(0)));
    assert_eq!(ops.len(), 7);
    assert_eq!(printed(&ops), vec!["\nPress any key to continue...\n".to_string()]);
    assert_eq!(apply(NORMAL, &ops), MENU);
    assert_eq!(s.mode(), MENU);
}

#[test]
fn failing_command_shows_its_status() {
    let mut s = started(&["A,.,true", "B,.,false"]);
    s.on_key(Key::Down);
    let run = take_run(s.on_key(Key::Enter));
    assert_eq!(run.program, "false");
    let ops = s.command_finished(&run, RunOutcome::Exited(Some(1)));
    assert_eq!(ops.len(), 18);
    assert_eq!(
        printed(&ops)[1],
        "Error: Command failed with status: 1\nPress any key to continue...\n"
    );
    assert_eq!(ops[17], TermOp::DisableLineWrap);
    assert_eq!(apply(NORMAL, &ops), MENU);
}

#[test]
fn command_ended_by_signal_reports_minus_one() {
    let mut s = started(&["A,.,sleep 100"]);
    let run = take_run(s.on_key(Key::Enter));
    let ops = s.command_finished(&run, RunOutcome::Exited(None));
    assert_eq!(
        printed(&ops)[1],
        "Error: Command failed with status: -1\nPress any key to continue...\n"
    );
}

#[test]
fn spawn_failure_is_reported_and_menu_continues() {
    let mut s = started(&["X,.,no-such-program --flag"]);
    let run = take_run(s.on_key(Key::Enter));
    let ops = s.command_finished(&run, RunOutcome::SpawnFailed("not found".to_string()));
    assert_eq!(ops.len(), 11);
    assert_eq!(
        printed(&ops),
        vec!["Error: Failed to execute 'no-such-program': not found\nPress any key to continue...\n"
            .to_string()]
    );
    assert_eq!(apply(NORMAL, &ops), MENU);
    assert_eq!(s.depth(), 1);
}

#[test]
fn submenu_descent_and_return_keeps_parent_cursor() {
    let mut s = started(&["Run,.,true", "Sub,./child,", "Other,.,true"]);
    s.on_key(Key::Down);
    match s.on_key(Key::Enter) {
        Step::OpenSubmenu(path) => assert_eq!(path, "./child/menu.csv"),
        other => panic!("expected a submenu, got {:?}", other),
    }
    let ops = s.submenu_loaded(Some(menu(&["Inner,.,true", "Inner2,.,true"])));
    assert!(ops.is_empty());
    assert_eq!(s.depth(), 2);
    assert_eq!(s.current().unwrap().item(0).name, "Inner");
    s.on_key(Key::Down);
    assert!(matches!(s.on_key(Key::Esc), Step::Redraw));
    assert_eq!(s.depth(), 1);
    assert_eq!(s.current().unwrap().selected_index(), 1);
    assert!(matches!(s.on_key(Key::Esc), Step::Quit));
    assert_eq!(s.depth(), 0);
}

#[test]
fn failed_submenu_load_shows_prompt() {
    let mut s = started(&["Sub,./missing,"]);
    assert!(matches!(s.on_key(Key::Enter), Step::OpenSubmenu(_)));
    let ops = s.submenu_loaded(None);
    assert_eq!(
        printed(&ops),
        vec!["Error: Failed to load submenu\nPress any key to continue...\n".to_string()]
    );
    assert_eq!(s.depth(), 1);
    assert_eq!(s.mode(), MENU);
}

#[test]
fn other_keys_change_nothing() {
    let mut s = started(&["A,.,true", "B,.,true"]);
    assert!(matches!(s.on_key(Key::Other), Step::Redraw));
    assert_eq!(s.current().unwrap().selected_index(), 0);
    s.on_key(Key::Up);
    assert_eq!(s.current().unwrap().selected_index(), 0);
}

#[test]
fn unparsable_top_level_file_prompts() {
    let mut s = Session::new();
    let ops = s.start(Some(menu(&["only garbage", "Bad,two"])));
    assert_eq!(&ops[..3], &[TermOp::EnableRaw, TermOp::HideCursor, TermOp::DisableLineWrap]);
    assert_eq!(
        printed(&ops),
        vec!["Error: Failed to load menu.csv\nPress any key to continue...\n".to_string()]
    );
    assert_eq!(s.depth(), 0);
    assert_eq!(s.mode(), MENU);
    assert!(matches!(s.on_key(Key::Enter), Step::Quit));
}

#[test]
fn unparsable_submenu_file_prompts() {
    let mut s = started(&["Sub,./child,"]);
    assert!(matches!(s.on_key(Key::Enter), Step::OpenSubmenu(_)));
    let ops = s.submenu_loaded(Some(menu(&["nothing here"])));
    assert_eq!(
        printed(&ops),
        vec!["Error: Failed to load submenu\nPress any key to continue...\n".to_string()]
    );
    assert_eq!(s.depth(), 1);
    assert_eq!(s.mode(), MENU);
}

#[test]
fn missing_top_level_file_prompts() {
    let mut s = Session::new();
    let ops = s.start(None);
    assert_eq!(
        printed(&ops),
        vec!["Error: Failed to load menu.csv\nPress any key to continue...\n".to_string()]
    );
    assert_eq!(s.depth(), 0);
    assert!(matches!(s.on_key(Key::Enter), Step::Quit));
    let end = s.finish();
    assert_eq!(apply(MENU, &end), NORMAL);
    assert_eq!(s.mode(), NORMAL);
}

#[test]
fn finish_restores_normal_mode_from_any_state() {
    let mut s = started(&["A,.,true"]);
    let run = take_run(s.on_key(Key::Enter));
    drop(run);
    let end = s.finish();
    assert_eq!(end, vec![TermOp::ShowCursor, TermOp::EnableLineWrap, TermOp::DisableRaw]);
    for raw in [false, true] {
        for cursor_visible in [false, true] {
            for line_wrap in [false, true] {
                let m = TermMode { raw, cursor_visible, line_wrap };
                assert_eq!(apply(m, &shutdown_script()), NORMAL);
            }
        }
    }
}

#[test]
fn frame_draws_innermost_menu() {
    let mut s = started(&["Top,.,true"]);
    assert_eq!(s.frame(9).unwrap().lines[1], "║Top║");
    s.on_key(Key::Esc);
    assert!(s.frame(9).is_none());
}

#[test]
fn decimal_strings() {
    assert_eq!(decimal_string(0), "0");
    assert_eq!(decimal_string(42), "42");
    assert_eq!(decimal_string(-1), "-1");
    assert_eq!(decimal_string(i32::MIN), "-2147483648");
    assert_eq!(decimal_string(i32::MAX), "2147483647");
}
