use vgrep::tui::{
    editor_line_argument, result_lines_label, result_path_label, Key, TuiAction, TuiMode, TuiState,
};

#[test]
fn typing_and_searching() {
    let mut s = TuiState::new();
    assert_eq!(s.status_text(), "Ready");
    assert_eq!(s.handle_key(Key::Enter, true), TuiAction::Continue);
    for c in "fn main".chars() {
        assert_eq!(s.handle_key(Key::Char(c), true), TuiAction::Continue);
    }
    assert_eq!(s.handle_key(Key::Backspace, true), TuiAction::Continue);
    assert_eq!(s.query(), "fn mai");
    assert_eq!(s.handle_key(Key::Char('x'), false), TuiAction::Continue);
    assert_eq!(s.query(), "fn mai");
    assert_eq!(s.handle_key(Key::Enter, true), TuiAction::Search);
    s.finish_search(Ok(3));
    assert_eq!(s.status_text(), "Found 3 results");
    assert_eq!(s.mode, TuiMode::Results);
    assert_eq!(s.selected, Some(0));
}

#[test]
fn moving_round_the_results() {
    let mut s = TuiState::new();
    s.handle_key(Key::Char('q'), true);
    s.handle_key(Key::Enter, true);
    s.finish_search(Ok(3));
    assert_eq!(s.handle_key(Key::Up, true), TuiAction::Continue);
    assert_eq!(s.selected, Some(2));
    s.handle_key(Key::Char('j'), true);
    assert_eq!(s.selected, Some(0));
    s.handle_key(Key::Down, true);
    s.handle_key(Key::Char('k'), true);
    assert_eq!(s.selected, Some(0));
    s.handle_key(Key::Down, true);
    assert_eq!(s.handle_key(Key::Enter, true), TuiAction::Open(1));
    s.finish_open(Ok("./src/main.rs".to_string()));
    assert_eq!(s.status_text(), "Opened: ./src/main.rs");
    s.finish_open(Err("no editor".to_string()));
    assert_eq!(s.status_text(), "Error opening file: no editor");
    assert_eq!(s.handle_key(Key::Tab, true), TuiAction::Continue);
    assert_eq!(s.mode, TuiMode::Input);
    assert_eq!(s.handle_key(Key::Tab, true), TuiAction::Continue);
    assert_eq!(s.mode, TuiMode::Results);
    assert_eq!(s.selected, Some(1));
    assert_eq!(s.handle_key(Key::Char('q'), true), TuiAction::Quit);
}

#[test]
fn empty_and_failed_searches() {
    let mut s = TuiState::new();
    s.handle_key(Key::Char('a'), true);
    s.finish_search(Ok(0));
    assert_eq!(s.status_text(), "No results found");
    assert_eq!(s.mode, TuiMode::Input);
    assert_eq!(s.handle_key(Key::Tab, true), TuiAction::Continue);
    assert_eq!(s.mode, TuiMode::Input);
    s.finish_search(Err("index missing".to_string()));
    assert_eq!(s.status_text(), "Error: index missing");
    assert_eq!(s.result_count, 0);
    assert_eq!(s.handle_key(Key::Esc, true), TuiAction::Quit);
}

#[test]
fn editor_arguments() {
    assert_eq!(editor_line_argument("vim", 12), Some("+12".to_string()));
    assert_eq!(editor_line_argument("/usr/bin/nano", 1), Some("+1".to_string()));
    assert_eq!(editor_line_argument("emacs", 0), Some("+0".to_string()));
    assert_eq!(editor_line_argument("nvim", -3), Some("+-3".to_string()));
    assert_eq!(editor_line_argument("code", 12), None);
    assert_eq!(editor_line_argument("vi", i32::MIN), Some(format!("+{}", i32::MIN)));
}

#[test]
fn result_labels() {
    assert_eq!(result_path_label("/home/u/p/src/a.rs", "/home/u/p"), "./src/a.rs");
    assert_eq!(result_path_label("/home/u/p/src/a.rs", "/home/u/p/"), "./src/a.rs");
    assert_eq!(result_path_label("/home/u/pq/a.rs", "/home/u/p"), ".//home/u/pq/a.rs");
    assert_eq!(result_path_label("/other/x.rs", "/home/u/p"), ".//other/x.rs");
    assert_eq!(result_lines_label(0, 9), " :1:10");
    assert_eq!(result_lines_label(-3, -1), " :-2:0");
}
