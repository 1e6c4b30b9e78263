use menu_launcher::item::{
    expand_tilde, expand_tilde_with, join_path_str, record_fields, submenu_file, MenuError,
    MenuItem,
};

fn words(v: &[&str]) -> Vec<String> {
    v.iter().map(|s| s.to_string()).collect()
}

#[test]
fn parses_plain_command() {
    let item = MenuItem::from_csv_line("Shell,.,bash").unwrap();
    assert_eq!(item.name, "Shell");
    assert_eq!(item.working_dir, ".");
    assert_eq!(item.command, words(&["bash"]));
    assert!(!item.is_submenu());
}

#[test]
fn empty_command_marks_submenu() {
    let item = MenuItem::from_csv_line("Nested,./sub,").unwrap();
    assert_eq!(item.name, "Nested");
    assert_eq!(item.working_dir, "./sub");
    assert!(item.command.is_empty());
    assert!(item.is_submenu());
}

#[test]
fn blank_command_marks_submenu() {
    let item = MenuItem::from_csv_line("Nested,./sub, \t ").unwrap();
    assert!(item.is_submenu());
}

#[test]
fn two_fields_is_malformed() {
    assert!(MenuItem::from_csv_line("Bad,only-two-fields").is_none());
    assert!(MenuItem::from_csv_line("").is_none());
    assert!(MenuItem::from_csv_line("no commas at all").is_none());
}

#[test]
fn quoted_argument_is_one_word() {
    let item = MenuItem::from_csv_line("Edit,.,vim \"file with space.txt\"").unwrap();
    assert_eq!(item.command, words(&["vim", "file with space.txt"]));
}

#[test]
fn command_is_trimmed_and_split() {
    let item = MenuItem::from_csv_line("List,/tmp,  ls   -l  -a ").unwrap();
    assert_eq!(item.command, words(&["ls", "-l", "-a"]));
    assert_eq!(item.working_dir, "/tmp");
}

#[test]
fn unbalanced_quote_is_malformed() {
    assert!(MenuItem::from_csv_line("Broken,.,echo \"oops").is_none());
}

#[test]
fn fields_after_the_third_are_ignored() {
    let item = MenuItem::from_csv_line("Echo,.,echo a,b").unwrap();
    assert_eq!(item.command, words(&["echo", "a"]));
}

#[test]
fn record_fields_splits_on_commas() {
    let (name, dir, cmd) = record_fields(" A , ~/x ,  run me  ,tail").unwrap();
    assert_eq!(name, " A ");
    assert_eq!(dir, " ~/x ");
    assert_eq!(cmd, "run me");
    assert!(record_fields("a,b").is_none());
    let (n, d, c) = record_fields(",,").unwrap();
    assert_eq!((n.as_str(), d.as_str(), c.as_str()), ("", "", ""));
}

#[test]
fn tilde_alone_is_home() {
    let r = expand_tilde_with("~", Some("/home/ann".to_string()));
    assert_eq!(r, Ok("/home/ann".to_string()));
}

#[test]
fn tilde_slash_joins_onto_home() {
    let r = expand_tilde_with("~/projects/x", Some("/home/ann".to_string()));
    assert_eq!(r, Ok("/home/ann/projects/x".to_string()));
    let r = expand_tilde_with("~/a", Some("/home/ann/".to_string()));
    assert_eq!(r, Ok("/home/ann/a".to_string()));
}

#[test]
fn path_without_tilde_is_kept() {
    let r = expand_tilde_with("./sub/dir", None);
    assert_eq!(r, Ok("./sub/dir".to_string()));
    let r = expand_tilde_with("/abs/~x", Some("/h".to_string()));
    assert_eq!(r, Ok("/abs/~x".to_string()));
}

#[test]
fn tilde_without_home_fails() {
    assert_eq!(expand_tilde_with("~/x", None), Err(MenuError::HomeNotFound));
    assert_eq!(expand_tilde_with("~", None), Err(MenuError::HomeNotFound));
}

#[test]
fn expand_tilde_uses_home_directory() {
    assert_eq!(expand_tilde("rel/path"), Ok("rel/path".to_string()));
    if let Ok(p) = expand_tilde("~/marker") {
        assert!(p.ends_with("/marker"));
        assert_ne!(p, "~/marker");
    }
}

#[test]
fn expanded_working_dir_of_item() {
    let item = MenuItem::from_csv_line("Here,./child,").unwrap();
    assert_eq!(item.get_expanded_working_dir(), Ok("./child".to_string()));
}

#[test]
fn join_follows_path_rules() {
    assert_eq!(join_path_str("a", "b"), "a/b");
    assert_eq!(join_path_str("a/", "b"), "a/b");
    assert_eq!(join_path_str("", "b"), "b");
    assert_eq!(join_path_str("a", "/b"), "/b");
    assert_eq!(join_path_str("a", ""), "a/");
    assert_eq!(submenu_file("./child"), "./child/menu.csv");
}
