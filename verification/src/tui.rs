//! The decisions of the interactive search screen: what each key press does
//! to the query, the mode and the selected result, and what the screen shows
//! after a search or after opening a file.
//!
//! The application draws the screen, reads the keys, runs the searches and
//! the editor, and reports back here.
use vstd::prelude::*;

use crate::paths::{spec_strip_prefix, strip_prefix};
use crate::text::{concat_str, contains_chars, contains_seq, chars_of, decimal, decimal_string};

verus! {

/// Where the keys go: the query line or the result list.
#[derive(Debug, Clone, Copy, PartialEq, Eq, Structural)]
pub enum TuiMode {
    Input,
    Results,
}

/// A key of the keyboard, as far as the screen tells keys apart.
#[derive(Debug, Clone, Copy, PartialEq, Eq, Structural)]
pub enum Key {
    Esc,
    Enter,
    Tab,
    Backspace,
    Up,
    Down,
    Char(char),
    Other,
}

/// What the application does after a key.
#[derive(Debug, Clone, Copy, PartialEq, Eq, Structural)]
pub enum TuiAction {
    /// Draw again and read the next key.
    Continue,
    /// Leave the screen.
    Quit,
    /// Search for the query, then report with `finish_search`.
    Search,
    /// Open the result at this position in the editor, then report with `finish_open`.
    Open(usize),
}

/// The state of the search screen.
pub struct TuiState {
    /// The query typed so far.
    pub input: Vec<char>,
    pub mode: TuiMode,
    /// The selected result, if any.
    pub selected: Option<usize>,
    /// How many results the last search gave.
    pub result_count: usize,
    /// The message of the status bar.
    pub status: Option<String>,
}

/// The selection after moving down: the next result, back to the first after
/// the last; the first when nothing is selected; unchanged without results.
pub open spec fn next_selection(sel: Option<usize>, n: usize) -> Option<usize> {
    if n == 0 {
        sel
    } else {
        match sel {
            Some(i) => if i >= n - 1 {
                Some(0usize)
            } else {
                Some((i + 1) as usize)
            },
            None => Some(0usize),
        }
    }
}

/// The selection after moving up: the previous result, round to the last
/// from the first; the first when nothing is selected; unchanged without results.
pub open spec fn previous_selection(sel: Option<usize>, n: usize) -> Option<usize> {
    if n == 0 {
        sel
    } else {
        match sel {
            Some(i) => if i == 0 {
                Some((n - 1) as usize)
            } else {
                Some((i - 1) as usize)
            },
            None => Some(0usize),
        }
    }
}

/// Two states agree on the query, the mode, the selection, the result count
/// and the status.
pub open spec fn same_view(a: TuiState, b: TuiState) -> bool {
    &&& a.input@ == b.input@
    &&& a.mode == b.mode
    &&& a.selected == b.selected
    &&& a.result_count == b.result_count
    &&& a.status == b.status
}

/// What a key press does: `new` and the action `act` follow from `old`.
/// Keys that are released, not pressed, change nothing.
pub open spec fn key_step(old: TuiState, new: TuiState, key: Key, pressed: bool, act: TuiAction) -> bool {
    if !pressed {
        act == TuiAction::Continue && same_view(old, new)
    } else {
        match old.mode {
            TuiMode::Input => match key {
                Key::Esc => act == TuiAction::Quit && same_view(old, new),
                Key::Enter => same_view(old, new) && act == (if old.input@.len() > 0 {
                    TuiAction::Search
                } else {
                    TuiAction::Continue
                }),
                Key::Char(c) => act == TuiAction::Continue && new.input@ == old.input@.push(c)
                    && new.mode == old.mode && new.selected == old.selected && new.result_count
                    == old.result_count && new.status == old.status,
                Key::Backspace => act == TuiAction::Continue && new.input@ == (if old.input@.len()
                    > 0 {
                    old.input@.drop_last()
                } else {
                    old.input@
                }) && new.mode == old.mode && new.selected == old.selected && new.result_count
                    == old.result_count && new.status == old.status,
                Key::Tab => act == TuiAction::Continue && if old.result_count > 0 {
                    &&& new.mode == TuiMode::Results
                    &&& new.selected == (if old.selected is None {
                        Some(0usize)
                    } else {
                        old.selected
                    })
                    &&& new.input@ == old.input@
                    &&& new.result_count == old.result_count
                    &&& new.status == old.status
                } else {
                    same_view(old, new)
                },
                _ => act == TuiAction::Continue && same_view(old, new),
            },
            TuiMode::Results => match key {
                Key::Esc | Key::Tab => act == TuiAction::Continue && new.mode == TuiMode::Input
                    && new.input@ == old.input@ && new.selected == old.selected
                    && new.result_count == old.result_count && new.status == old.status,
                Key::Char('q') => act == TuiAction::Quit && same_view(old, new),
                Key::Up | Key::Char('k') => act == TuiAction::Continue && new.selected
                    == previous_selection(old.selected, old.result_count) && new.mode == old.mode
                    && new.input@ == old.input@ && new.result_count == old.result_count
                    && new.status == old.status,
                Key::Down | Key::Char('j') => act == TuiAction::Continue && new.selected
                    == next_selection(old.selected, old.result_count) && new.mode == old.mode
                    && new.input@ == old.input@ && new.result_count == old.result_count
                    && new.status == old.status,
                Key::Enter => same_view(old, new) && act == (match old.selected {
                    Some(i) => if i < old.result_count {
                        TuiAction::Open(i)
                    } else {
                        TuiAction::Continue
                    },
                    None => TuiAction::Continue,
                }),
                _ => act == TuiAction::Continue && same_view(old, new),
            },
        }
    }
}

/// The message after a search that found `n` results.
pub open spec fn found_message(n: nat) -> Seq<char> {
    if n == 0 {
        "No results found"@
    } else {
        "Found "@ + decimal(n) + " results"@
    }
}

impl TuiState {
    /// The screen as it opens: empty query, keys going to it, no results.
    pub fn new() -> (s: TuiState)
        ensures
            s.input@.len() == 0,
            s.mode == TuiMode::Input,
            s.selected is None,
            s.result_count == 0,
            s.status is None,
            s.wf(),
    {
        TuiState {
            input: Vec::new(),
            mode: TuiMode::Input,
            selected: None,
            result_count: 0,
            status: None,
        }
    }

    /// The states that the screen can reach: the result list has the keys
    /// only while there are results and one is selected, and a selection
    /// points into the results whenever there are any.
    pub open spec fn wf(&self) -> bool {
        &&& self.mode == TuiMode::Results ==> self.result_count > 0 && self.selected is Some
        &&& self.result_count > 0 ==> (self.selected matches Some(i) ==> i < self.result_count)
    }

    /// The query as text.
    pub fn query(&self) -> (r: String)
        ensures
            r@ == self.input@,
    {
        crate::text::string_from_chars(self.input.clone())
    }

    /// The text of the status bar: the last message, or `Ready`.
    pub fn status_text(&self) -> (r: &str)
        ensures
            match self.status {
                Some(m) => r@ == m@,
                None => r@ == "Ready"@,
            },
    {
        match &self.status {
            Some(m) => m.as_str(),
            None => "Ready",
        }
    }

    /// Moves the selection down, round to the first result after the last.
    pub fn next(&mut self)
        ensures
            final(self).selected == next_selection(old(self).selected, old(self).result_count),
            final(self).input@ == old(self).input@,
            final(self).mode == old(self).mode,
            final(self).result_count == old(self).result_count,
            final(self).status == old(self).status,
    {
        if self.result_count == 0 {
            return;
        }
        let i = match self.selected {
            Some(i) => if i >= self.result_count - 1 {
                0
            } else {
                i + 1
            },
            None => 0,
        };
        self.selected = Some(i);
    }

    /// Moves the selection up, round to the last result from the first.
    pub fn previous(&mut self)
        ensures
            final(self).selected == previous_selection(old(self).selected, old(self).result_count),
            final(self).input@ == old(self).input@,
            final(self).mode == old(self).mode,
            final(self).result_count == old(self).result_count,
            final(self).status == old(self).status,
    {
        if self.result_count == 0 {
            return;
        }
        let i = match self.selected {
            Some(i) => if i == 0 {
                self.result_count - 1
            } else {
                i - 1
            },
            None => 0,
        };
        self.selected = Some(i);
    }

    /// Handles one key event; `pressed` is false for key releases and repeats
    /// that are not presses.
    pub fn handle_key(&mut self, key: Key, pressed: bool) -> (act: TuiAction)
        ensures
            key_step(*old(self), *final(self), key, pressed, act),
            old(self).wf() ==> final(self).wf(),
            pressed && old(self).mode == TuiMode::Input && key is Char ==> act == TuiAction::Continue
                && final(self).input@ == old(self).input@.push(key->0),
            pressed && old(self).mode == TuiMode::Results && key == Key::Esc ==> act
                == TuiAction::Continue && final(self).mode == TuiMode::Input,
            act == TuiAction::Quit ==> pressed && ((old(self).mode == TuiMode::Input && key
                == Key::Esc) || (old(self).mode == TuiMode::Results && key == Key::Char('q'))),
    {
        let ghost before = *self;
        let act = self.handle_key_step(key, pressed);
        proof {
            if pressed {
                if before.mode == TuiMode::Input && key is Char {
                    lemma_typing_appends(before, *self, key->0, act);
                }
                if before.mode == TuiMode::Results && key == Key::Esc {
                    lemma_esc_in_results_returns_to_query(before, *self, act);
                }
            }
            if act == TuiAction::Quit {
                lemma_quit_keys(before, *self, key, pressed, act);
            }
        }
        act
    }

    fn handle_key_step(&mut self, key: Key, pressed: bool) -> (act: TuiAction)
        ensures
            key_step(*old(self), *final(self), key, pressed, act),
            old(self).wf() ==> final(self).wf(),
    {
        if !pressed {
            return TuiAction::Continue;
        }
        match self.mode {
            TuiMode::Input => match key {
                Key::Esc => TuiAction::Quit,
                Key::Enter => {
                    if self.input.len() > 0 {
                        TuiAction::Search
                    } else {
                        TuiAction::Continue
                    }
                },
                Key::Char(c) => {
                    self.input.push(c);
                    TuiAction::Continue
                },
                Key::Backspace => {
                    self.input.pop();
                    TuiAction::Continue
                },
                Key::Tab => {
                    if self.result_count > 0 {
                        self.mode = TuiMode::Results;
                        if self.selected.is_none() {
                            self.selected = Some(0);
                        }
                    }
                    TuiAction::Continue
                },
                _ => TuiAction::Continue,
            },
            TuiMode::Results => match key {
                Key::Esc | Key::Tab => {
                    self.mode = TuiMode::Input;
                    TuiAction::Continue
                },
                Key::Char('q') => TuiAction::Quit,
                Key::Up | Key::Char('k') => {
                    self.previous();
                    TuiAction::Continue
                },
                Key::Down | Key::Char('j') => {
                    self.next();
                    TuiAction::Continue
                },
                Key::Enter => match self.selected {
                    Some(i) => if i < self.result_count {
                        TuiAction::Open(i)
                    } else {
                        TuiAction::Continue
                    },
                    None => TuiAction::Continue,
                },
                _ => TuiAction::Continue,
            },
        }
    }

    /// Takes in the outcome of a search: the number of results, or the
    /// error's message. Results move the keys to the list with the first one
    /// selected; no results or an error leave the keys where they are.
    pub fn finish_search(&mut self, outcome: Result<usize, String>)
        ensures
            match outcome {
                Ok(n) => {
                    &&& final(self).result_count == n
                    &&& final(self).status matches Some(m) && m@ == found_message(n as nat)
                    &&& n > 0 ==> final(self).mode == TuiMode::Results && final(self).selected
                        == Some(0usize)
                    &&& n == 0 ==> final(self).mode == old(self).mode && final(self).selected
                        == old(self).selected
                },
                Err(e) => {
                    &&& final(self).result_count == 0
                    &&& final(self).status matches Some(m) && m@ == "Error: "@ + e@
                    &&& final(self).mode == old(self).mode
                    &&& final(self).selected == old(self).selected
                },
            },
            final(self).input@ == old(self).input@,
            old(self).wf() && old(self).mode == TuiMode::Input ==> final(self).wf(),
    {
        match outcome {
            Ok(n) => {
                if n == 0 {
                    self.status = Some("No results found".to_owned());
                } else {
                    let count = decimal_string(n as u64);
                    let m = concat_str("Found ", count.as_str());
                    self.status = Some(concat_str(m.as_str(), " results"));
                    self.mode = TuiMode::Results;
                    self.selected = Some(0);
                }
                self.result_count = n;
            },
            Err(e) => {
                self.status = Some(concat_str("Error: ", e.as_str()));
                self.result_count = 0;
            },
        }
    }

    /// Takes in the outcome of opening a file in the editor: the path shown
    /// for it, or the error's message.
    pub fn finish_open(&mut self, outcome: Result<String, String>)
        ensures
            match outcome {
                Ok(p) => final(self).status matches Some(m) && m@ == "Opened: "@ + p@,
                Err(e) => final(self).status matches Some(m) && m@ == "Error opening file: "@ + e@,
            },
            final(self).input@ == old(self).input@,
            final(self).mode == old(self).mode,
            final(self).selected == old(self).selected,
            final(self).result_count == old(self).result_count,
    {
        match outcome {
            Ok(p) => {
                self.status = Some(concat_str("Opened: ", p.as_str()));
            },
            Err(e) => {
                self.status = Some(concat_str("Error opening file: ", e.as_str()));
            },
        }
    }
}

/// Moving down then up comes back to the same result, and so does moving up
/// then down.
pub proof fn lemma_next_previous_inverse(i: usize, n: usize)
    requires
        i < n,
    ensures
        previous_selection(next_selection(Some(i), n), n) == Some(i),
        next_selection(previous_selection(Some(i), n), n) == Some(i),
{
}

/// Moving keeps a selection inside the results.
pub proof fn lemma_moves_stay_in_results(sel: Option<usize>, n: usize)
    requires
        n > 0,
        sel matches Some(i) ==> i < n,
    ensures
        next_selection(sel, n) matches Some(j) && j < n,
        previous_selection(sel, n) matches Some(j) && j < n,
{
}

/// Decimal notation of an integer, with a minus sign when it is negative.
pub open spec fn signed_decimal(i: int) -> Seq<char> {
    if i < 0 {
        "-"@ + decimal((-i) as nat)
    } else {
        decimal(i as nat)
    }
}

/// The editors that take a `+LINE` argument to open a file at a line.
pub open spec fn takes_line_argument(editor: Seq<char>) -> bool {
    contains_seq(editor, "vi"@) || contains_seq(editor, "nano"@) || contains_seq(editor, "emacs"@)
}

/// The argument that opens a file at `line` in `editor`: `+LINE` for
/// editors whose command holds `vi`, `nano` or `emacs`; none for others.
pub fn editor_line_argument(editor: &str, line: i32) -> (r: Option<String>)
    ensures
        takes_line_argument(editor@) ==> (r matches Some(a) && a@ == "+"@ + signed_decimal(
            line as int,
        )),
        !takes_line_argument(editor@) ==> r is None,
{
    let v = chars_of(editor);
    if contains_chars(&v, &chars_of("vi")) || contains_chars(&v, &chars_of("nano"))
        || contains_chars(&v, &chars_of("emacs")) {
        let number = signed_decimal_string(line as i64);
        Some(concat_str("+", number.as_str()))
    } else {
        None
    }
}

/// Decimal notation of `i`, with a minus sign when it is negative.
fn signed_decimal_string(i: i64) -> (r: String)
    requires
        i > i64::MIN,
    ensures
        r@ == signed_decimal(i as int),
{
    if i < 0 {
        let magnitude = decimal_string((0i64 - i) as u64);
        concat_str("-", magnitude.as_str())
    } else {
        decimal_string(i as u64)
    }
}

/// How a result's file is shown: `./` and its path relative to `root` when
/// `root` is a prefix of it, else `./` and the path as it is.
pub open spec fn result_path_label_spec(path: Seq<char>, root: Seq<char>) -> Seq<char> {
    "./"@ + match spec_strip_prefix(path, root) {
        Some(rest) => rest,
        None => path,
    }
}

/// The label of a result's file, relative to `root` (the working directory).
pub fn result_path_label(path: &str, root: &str) -> (r: String)
    ensures
        r@ == result_path_label_spec(path@, root@),
{
    match strip_prefix(path, root) {
        Some(rest) => concat_str("./", rest.as_str()),
        None => concat_str("./", path),
    }
}

/// The label of a result's lines, counted from 1: ` :START:END`.
pub fn result_lines_label(start_line: i32, end_line: i32) -> (r: String)
    requires
        start_line < i32::MAX,
        end_line < i32::MAX,
    ensures
        r@ == " :"@ + signed_decimal(start_line + 1) + ":"@ + signed_decimal(end_line + 1),
{
    let start = signed_decimal_string(start_line as i64 + 1);
    let end = signed_decimal_string(end_line as i64 + 1);
    let m = concat_str(" :", start.as_str());
    let m = concat_str(m.as_str(), ":");
    concat_str(m.as_str(), end.as_str())
}

/// On the query line every typed character, whatever it is, is added to the
/// end of the query, and the screen stays open.
pub proof fn lemma_typing_appends(old: TuiState, new: TuiState, c: char, act: TuiAction)
    requires
        old.mode == TuiMode::Input,
        key_step(old, new, Key::Char(c), true, act),
    ensures
        act == TuiAction::Continue,
        new.input@ == old.input@.push(c),
        new.mode == TuiMode::Input,
{
}

/// In the result list, Esc goes back to the query line, keeping the query,
/// the results and the selection; it does not leave the screen.
pub proof fn lemma_esc_in_results_returns_to_query(old: TuiState, new: TuiState, act: TuiAction)
    requires
        old.mode == TuiMode::Results,
        key_step(old, new, Key::Esc, true, act),
    ensures
        act == TuiAction::Continue,
        new.mode == TuiMode::Input,
        new.input@ == old.input@,
        new.selected == old.selected,
        new.result_count == old.result_count,
        new.status == old.status,
{
}

/// Only two key presses leave the screen: Esc on the query line and `q` in
/// the result list.
pub proof fn lemma_quit_keys(old: TuiState, new: TuiState, key: Key, pressed: bool, act: TuiAction)
    requires
        key_step(old, new, key, pressed, act),
        act == TuiAction::Quit,
    ensures
        pressed,
        old.mode == TuiMode::Input ==> key == Key::Esc,
        old.mode == TuiMode::Results ==> key == Key::Char('q'),
{
}

/// A key that is released, not pressed, changes nothing and never leaves
/// the screen.
pub proof fn lemma_released_key_changes_nothing(
    old: TuiState,
    new: TuiState,
    key: Key,
    act: TuiAction,
)
    requires
        key_step(old, new, key, false, act),
    ensures
        act == TuiAction::Continue,
        new.input@ == old.input@,
        new.mode == old.mode,
        new.selected == old.selected,
        new.result_count == old.result_count,
        new.status == old.status,
{
}

/// Enter on the query line searches exactly when the query is not empty,
/// and changes nothing on the screen.
pub proof fn lemma_enter_searches_nonempty_query(old: TuiState, new: TuiState, act: TuiAction)
    requires
        old.mode == TuiMode::Input,
        key_step(old, new, Key::Enter, true, act),
    ensures
        (act == TuiAction::Search) == (old.input@.len() > 0),
        act == TuiAction::Search || act == TuiAction::Continue,
        new.input@ == old.input@,
        new.mode == TuiMode::Input,
{
}

/// Backspace on the query line takes off the last character, if there is
/// one, and keeps the rest.
pub proof fn lemma_backspace_removes_last(old: TuiState, new: TuiState, act: TuiAction)
    requires
        old.mode == TuiMode::Input,
        key_step(old, new, Key::Backspace, true, act),
    ensures
        act == TuiAction::Continue,
        old.input@.len() > 0 ==> new.input@.push(old.input@.last()) == old.input@,
        old.input@.len() == 0 ==> new.input@.len() == 0,
        new.mode == TuiMode::Input,
{
    if old.input@.len() > 0 {
        assert(old.input@.drop_last().push(old.input@.last()) =~= old.input@);
    }
}

/// Down (or `j`) in the result list moves to the next result, from the last
/// back to the first; Up (or `k`) moves to the previous one, from the first
/// round to the last; with nothing selected either selects the first.
pub proof fn lemma_list_moves_round(
    old: TuiState,
    new: TuiState,
    key: Key,
    act: TuiAction,
)
    requires
        old.mode == TuiMode::Results,
        old.result_count > 0,
        key_step(old, new, key, true, act),
        key == Key::Down || key == Key::Char('j') || key == Key::Up || key == Key::Char('k'),
        old.selected matches Some(i) ==> i < old.result_count,
    ensures
        act == TuiAction::Continue,
        new.mode == TuiMode::Results,
        new.input@ == old.input@,
        old.selected is None ==> new.selected == Some(0usize),
        (key == Key::Down || key == Key::Char('j')) ==> (old.selected matches Some(i) ==> new.selected
            == Some(((i + 1) % (old.result_count as int)) as usize)),
        (key == Key::Up || key == Key::Char('k')) ==> (old.selected matches Some(i) ==> new.selected
            == Some(((i + old.result_count - 1) % (old.result_count as int)) as usize)),
{
    let n = old.result_count as int;
    if let Some(i) = old.selected {
        assert(i + 1 < n ==> (i + 1) % n == i + 1) by (nonlinear_arith)
            requires 0 <= i < n;
        assert(i + 1 == n ==> (i + 1) % n == 0) by (nonlinear_arith)
            requires 0 <= i < n;
        assert(i == 0 ==> (i + n - 1) % n == n - 1) by (nonlinear_arith)
            requires 0 <= i < n;
        assert(i > 0 ==> (i + n - 1) % n == i - 1) by (nonlinear_arith)
            requires 0 <= i < n;
    }
}

/// Enter in the result list opens the selected result when there is one
/// among the results, and does nothing otherwise.
pub proof fn lemma_enter_opens_selected(old: TuiState, new: TuiState, act: TuiAction)
    requires
        old.mode == TuiMode::Results,
        key_step(old, new, Key::Enter, true, act),
    ensures
        (old.selected matches Some(i) && i < old.result_count) ==> act == TuiAction::Open(
            old.selected->0,
        ),
        !(old.selected matches Some(i) && i < old.result_count) ==> act == TuiAction::Continue,
        new.mode == TuiMode::Results,
        new.selected == old.selected,
{
}

/// Tab on the query line moves to the result list when there are results,
/// selecting the first when nothing was selected; without results it stays.
pub proof fn lemma_tab_to_results(old: TuiState, new: TuiState, act: TuiAction)
    requires
        old.mode == TuiMode::Input,
        key_step(old, new, Key::Tab, true, act),
    ensures
        act == TuiAction::Continue,
        old.result_count > 0 ==> new.mode == TuiMode::Results && new.selected is Some,
        old.result_count > 0 && old.selected is None ==> new.selected == Some(0usize),
        old.result_count == 0 ==> new.mode == TuiMode::Input,
        new.input@ == old.input@,
{
}

} // verus!
