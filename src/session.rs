//! The navigation state machine: a stack of menus, one per nesting level,
//! driven by key events. It decides what to do next; running programs,
//! reading files and talking to the terminal are left to its caller.
use vstd::prelude::*;
use crate::item::{is_expansion_of, join_path, submenu_file, texts, MenuError, MENU_FILE};
use crate::menu::{Menu, MenuView};
use crate::render::{frame_line, start_column, Frame};
use crate::terminal::{
    apply_ops, continue_text, error_prompt_script, is_error_prompt, is_pause, lemma_apply_ops_concat,
    menu_mode, menu_mode_ops, menu_mode_script, normal_mode, normal_mode_ops, normal_mode_script,
    push_pause, shutdown_ops, shutdown_script, TermMode, TermOp,
};
use crate::text::{concat_str, decimal_string, signed_decimal};

verus! {

/// The input events the menu reacts to; every other event is `Other`.
#[derive(Debug, Clone, Copy, PartialEq, Eq, Structural)]
pub enum Key {
    Up,
    Down,
    Enter,
    Esc,
    Other,
}

/// A program to run: first perform `script`, then run `program` with `args`
/// in the directory `dir`, wait for it, and report with
/// [`Session::command_finished`].
#[derive(Debug)]
pub struct CommandRun {
    pub script: Vec<TermOp>,
    pub program: String,
    pub args: Vec<String>,
    pub dir: String,
}

/// What the caller does after a key.
#[derive(Debug)]
pub enum Step {
    /// Draw the current menu and read the next key.
    Redraw,
    /// No menu is left: shut down.
    Quit,
    /// Load the entry file at this path and report with
    /// [`Session::submenu_loaded`].
    OpenSubmenu(String),
    /// Run a program.
    Run(CommandRun),
    /// A path could not be resolved: shut down with this error.
    Fail(MenuError),
}

/// How a program run ended.
#[derive(Debug)]
pub enum RunOutcome {
    /// It ran and exited, with this exit code when it has one (`None` when a
    /// signal ended it).
    Exited(Option<i32>),
    /// It could not be started, for the reason given.
    SpawnFailed(String),
}

/// The mathematical content of a [`Session`]: the open menus, outermost
/// first, and the terminal mode asked for last.
pub struct SessionView {
    pub menus: Seq<MenuView>,
    pub mode: TermMode,
}

impl SessionView {
    /// Every open menu is well formed.
    pub open spec fn wf(self) -> bool {
        forall|k: int| 0 <= k < self.menus.len() ==> (#[trigger] self.menus[k]).wf()
    }
}

/// The state of a run: the stack of open menus and the terminal mode.
pub struct Session {
    menus: Vec<Menu>,
    mode: TermMode,
}

/// The views of a sequence of menus.
pub open spec fn menu_views(ms: Seq<Menu>) -> Seq<MenuView> {
    ms.map_values(|m: Menu| m@)
}

impl View for Session {
    type V = SessionView;

    closed spec fn view(&self) -> SessionView {
        SessionView { menus: menu_views(self.menus@), mode: self.mode }
    }
}

/// The session after a key other than `Enter`: `Up` and `Down` move the
/// cursor of the innermost menu, `Esc` closes it, other keys change nothing.
pub open spec fn key_transition(s: SessionView, key: Key) -> SessionView {
    if s.menus.len() == 0 {
        s
    } else {
        let top = s.menus.last();
        let i = s.menus.len() - 1;
        match key {
            Key::Up => SessionView {
                menus: s.menus.update(
                    i,
                    MenuView {
                        selected: if top.selected > 0 {
                            (top.selected - 1) as nat
                        } else {
                            0
                        },
                        ..top
                    },
                ),
                ..s
            },
            Key::Down => SessionView {
                menus: s.menus.update(
                    i,
                    MenuView {
                        selected: if top.selected + 1 < top.items.len() {
                            top.selected + 1
                        } else {
                            top.selected
                        },
                        ..top
                    },
                ),
                ..s
            },
            Key::Esc => SessionView { menus: s.menus.drop_last(), ..s },
            _ => s,
        }
    }
}

/// A start on a top-level entry file that could not be used: no menu is
/// open, and the menu mode is entered before an error prompt.
pub open spec fn is_failed_start(s: SessionView, r: Seq<TermOp>) -> bool {
    &&& s.menus.len() == 0
    &&& r.subrange(0, 3) == menu_mode_ops()
    &&& is_error_prompt(r.subrange(3, r.len() as int), "Failed to load "@ + MENU_FILE@)
}

/// A submenu that could not be used: the session `t` after it is `s` in the
/// menu mode, and `r` is an error prompt.
pub open spec fn is_failed_submenu(s: SessionView, t: SessionView, r: Seq<TermOp>) -> bool {
    &&& t == (SessionView { mode: menu_mode(), ..s })
    &&& is_error_prompt(r, "Failed to load submenu"@)
}

/// The session with the menu `m` opened inside the current one.
pub open spec fn with_submenu(s: SessionView, m: MenuView) -> SessionView {
    SessionView { menus: s.menus.push(m), ..s }
}

/// What `Enter` does in `s`, given the step `r` and the session `t` after
/// it. The selected item of the innermost menu is acted on: a submenu link
/// opens the entry file in its (expanded) working directory; a command is
/// run in its (expanded) working directory after the terminal is put in the
/// normal mode. A working directory that cannot be expanded fails. With no
/// menu open it quits; with an empty menu nothing happens.
pub open spec fn enter_step(s: SessionView, r: Step, t: SessionView) -> bool {
    if s.menus.len() == 0 {
        r is Quit && t == s
    } else if s.menus.last().items.len() == 0 {
        r is Redraw && t == s
    } else {
        let item = s.menus.last().items[s.menus.last().selected as int];
        match r {
            Step::Fail(e) => t == s && is_expansion_of(item.working_dir, Err(e)),
            Step::OpenSubmenu(path) => {
                &&& item.command.len() == 0
                &&& t == s
                &&& exists|d: Seq<char>|
                    is_expansion_of(item.working_dir, Ok(d)) && path@ == join_path(d, MENU_FILE@)
            },
            Step::Run(c) => {
                &&& item.command.len() > 0
                &&& t == SessionView { mode: normal_mode(), ..s }
                &&& c.script@ == normal_mode_ops()
                &&& c.program@ == item.command[0]
                &&& texts(c.args@) == item.command.drop_first()
                &&& is_expansion_of(item.working_dir, Ok(c.dir@))
            },
            _ => false,
        }
    }
}

/// The message of the prompt shown when a program fails.
pub open spec fn run_failure_message(outcome: RunOutcome, program: Seq<char>) -> Option<Seq<char>> {
    match outcome {
        RunOutcome::Exited(Some(code)) => if code == 0 {
            None
        } else {
            Some("Command failed with status: "@ + signed_decimal(code as int))
        },
        RunOutcome::Exited(None) => Some("Command failed with status: "@ + signed_decimal(-1)),
        RunOutcome::SpawnFailed(cause) => Some("Failed to execute '"@ + program + "': "@ + cause@),
    }
}

fn clone_strings(v: &Vec<String>, from: usize) -> (r: Vec<String>)
    requires
        from <= v@.len(),
    ensures
        texts(r@) == texts(v@).skip(from as int),
{
    let mut r: Vec<String> = Vec::new();
    let mut k: usize = from;
    while k < v.len()
        invariant
            from <= k <= v@.len(),
            r@.len() == k - from,
            forall|j: int| 0 <= j < r@.len() ==> #[trigger] r@[j]@ == v@[from + j]@,
        decreases v.len() - k,
    {
        let w = v[k].clone();
        r.push(w);
        k = k + 1;
    }
    assert(texts(r@) =~= texts(v@).skip(from as int));
    r
}

impl Session {
    /// A session with no menu open and the terminal in the normal mode.
    pub fn new() -> (r: Session)
        ensures
            r@.menus.len() == 0,
            r@.mode == normal_mode(),
            r@.wf(),
    {
        Session { menus: Vec::new(), mode: TermMode { raw: false, cursor_visible: true, line_wrap: true } }
    }

    /// Starts a run on the top-level menu `root`: the terminal enters the
    /// menu mode. Where `root` could not be loaded, or no line of its entry
    /// file described an action, that is a configuration error: no menu is
    /// opened and an error prompt follows.
    pub fn start(&mut self, root: Option<Menu>) -> (r: Vec<TermOp>)
        requires
            old(self)@.wf(),
            old(self)@.menus.len() == 0,
            root matches Some(m) ==> m@.wf(),
        ensures
            final(self)@.wf(),
            final(self)@.mode == menu_mode(),
            apply_ops(old(self)@.mode, r@) == menu_mode(),
            match root {
                Some(m) => if m@.items.len() > 0 {
                    final(self)@.menus == seq![m@] && r@ == menu_mode_ops()
                } else {
                    is_failed_start(final(self)@, r@)
                },
                None => is_failed_start(final(self)@, r@),
            },
    {
        let mut r = menu_mode_script();
        self.mode = TermMode { raw: true, cursor_visible: false, line_wrap: false };
        let usable = match &root {
            Some(m) => m.len() > 0,
            None => false,
        };
        if usable {
            let m = root.unwrap();
            self.menus.push(m);
            assert(menu_views(self.menus@) =~= seq![m@]);
        } else {
            let msg = concat_str("Failed to load ", MENU_FILE);
            let mut e = error_prompt_script(msg.as_str());
            let ghost head = r@;
            let ghost tail = e@;
            r.append(&mut e);
            proof {
                assert(r@.subrange(0, 3) =~= head);
                assert(r@.subrange(3, r@.len() as int) =~= tail);
                assert(r@ =~= head + tail);
                lemma_apply_ops_concat(old(self)@.mode, head, tail);
            }
        }
        r
    }

    /// Number of open menus.
    pub fn depth(&self) -> (r: usize)
        ensures
            r == self@.menus.len(),
    {
        self.menus.len()
    }

    /// The terminal mode asked for last.
    pub fn mode(&self) -> (r: TermMode)
        ensures
            r == self@.mode,
    {
        self.mode
    }

    /// The innermost open menu.
    pub fn current(&self) -> (r: Option<&Menu>)
        ensures
            match r {
                Some(m) => self@.menus.len() > 0 && m@ == self@.menus.last(),
                None => self@.menus.len() == 0,
            },
    {
        if self.menus.len() > 0 {
            Some(&self.menus[self.menus.len() - 1])
        } else {
            None
        }
    }

    /// The box of the innermost menu for a terminal `term_width` columns
    /// wide; `None` with no menu open.
    pub fn frame(&self, term_width: usize) -> (r: Option<Frame>)
        requires
            self@.wf(),
        ensures
            match r {
                Some(f) => {
                    &&& self@.menus.len() > 0
                    &&& f.column == start_column(term_width as nat, self@.menus.last().layout_width)
                    &&& f.lines@.len() == self@.menus.last().items.len() + 2
                    &&& forall|k: int|
                        0 <= k < f.lines@.len() ==> #[trigger] f.lines@[k]@ == frame_line(
                            self@.menus.last(),
                            k,
                        )
                },
                None => self@.menus.len() == 0,
            },
    {
        match self.current() {
            Some(m) => {
                assert(self@.menus[self@.menus.len() - 1] == self@.menus.last());
                Some(m.render(term_width))
            },
            None => None,
        }
    }

    /// Reacts to one key. `Up` and `Down` move the cursor of the innermost
    /// menu (never past its ends), `Esc` closes it (quitting after the last
    /// one), `Enter` acts on the selected item, other keys change nothing.
    pub fn on_key(&mut self, key: Key) -> (r: Step)
        requires
            old(self)@.wf(),
        ensures
            final(self)@.wf(),
            key != Key::Enter ==> {
                &&& final(self)@ == key_transition(old(self)@, key)
                &&& (r is Quit <==> final(self)@.menus.len() == 0)
                &&& (r is Quit || r is Redraw)
            },
            key == Key::Enter ==> enter_step(old(self)@, r, final(self)@),
    {
        if self.menus.len() == 0 {
            return Step::Quit;
        }
        let ghost s = self@;
        let last = self.menus.len() - 1;
        match key {
            Key::Up | Key::Down => {
                let mut top = self.menus.pop().unwrap();
                proof {
                    assert(s.menus[last as int] == s.menus.last());
                }
                if key == Key::Up {
                    top.move_up();
                } else {
                    top.move_down();
                }
                self.menus.push(top);
                proof {
                    assert(menu_views(self.menus@) =~= key_transition(s, key).menus);
                }
                Step::Redraw
            },
            Key::Esc => {
                self.menus.pop();
                assert(menu_views(self.menus@) =~= s.menus.drop_last());
                if self.menus.len() == 0 {
                    Step::Quit
                } else {
                    Step::Redraw
                }
            },
            Key::Other => Step::Redraw,
            Key::Enter => {
                assert(s.menus[last as int] == s.menus.last());
                self.enter()
            },
        }
    }

    fn enter(&mut self) -> (r: Step)
        requires
            old(self)@.wf(),
            old(self)@.menus.len() > 0,
        ensures
            final(self)@.wf(),
            enter_step(old(self)@, r, final(self)@),
    {
        let ghost s = self@;
        let last = self.menus.len() - 1;
        assert(s.menus[last as int] == s.menus.last());
        let top = &self.menus[last];
        let item = match top.selected_item() {
            None => {
                return Step::Redraw;
            },
            Some(item) => item,
        };
        let dir = match item.get_expanded_working_dir() {
            Err(e) => {
                return Step::Fail(e);
            },
            Ok(dir) => dir,
        };
        if item.is_submenu() {
            return Step::OpenSubmenu(submenu_file(dir.as_str()));
        }
        let program = item.command[0].clone();
        let args = clone_strings(&item.command, 1);
        assert(texts(item.command@).skip(1) =~= item@.command.drop_first());
        let script = normal_mode_script();
        self.mode = TermMode { raw: false, cursor_visible: true, line_wrap: true };
        Step::Run(CommandRun { script, program, args, dir })
    }

    /// Reports how loading the entry file of a submenu went: a loaded menu
    /// with at least one action is opened inside the current one; otherwise
    /// (the file could not be read, or no line of it described an action) an
    /// error prompt is shown and the current menu stays.
    pub fn submenu_loaded(&mut self, loaded: Option<Menu>) -> (r: Vec<TermOp>)
        requires
            old(self)@.wf(),
            loaded matches Some(m) ==> m@.wf(),
        ensures
            final(self)@.wf(),
            apply_ops(old(self)@.mode, r@) == final(self)@.mode,
            match loaded {
                Some(m) => if m@.items.len() > 0 {
                    final(self)@ == with_submenu(old(self)@, m@) && r@.len() == 0
                } else {
                    is_failed_submenu(old(self)@, final(self)@, r@)
                },
                None => is_failed_submenu(old(self)@, final(self)@, r@),
            },
    {
        let usable = match &loaded {
            Some(m) => m.len() > 0,
            None => false,
        };
        if usable {
            let m = loaded.unwrap();
            let ghost s = self@;
            self.menus.push(m);
            assert(menu_views(self.menus@) =~= s.menus.push(m@));
            proof {
                lemma_with_submenu_wf(s, m@);
            }
            Vec::new()
        } else {
            let ghost s = self@;
            self.mode = TermMode { raw: true, cursor_visible: false, line_wrap: false };
            assert(self@.menus == s.menus);
            assert(self@.wf());
            error_prompt_script("Failed to load submenu")
        }
    }

    /// Reports how the program of `run` ended. After it ran, a pause waits
    /// for a key and the terminal goes back to the menu mode; a failure
    /// (a non-zero or missing exit code, or a program that could not be
    /// started) is then shown in an error prompt.
    pub fn command_finished(&mut self, run: &CommandRun, outcome: RunOutcome) -> (r: Vec<TermOp>)
        ensures
            final(self)@ == (SessionView { mode: menu_mode(), ..old(self)@ }),
            forall|m: TermMode| apply_ops(m, r@) == menu_mode(),
            match outcome {
                RunOutcome::SpawnFailed(_) => is_error_prompt(
                    r@,
                    run_failure_message(outcome, run.program@)->0,
                ),
                RunOutcome::Exited(_) => {
                    &&& is_pause(r@.subrange(0, 4), continue_text())
                    &&& r@.subrange(4, 7) == menu_mode_ops()
                    &&& match run_failure_message(outcome, run.program@) {
                        None => r@.len() == 7,
                        Some(msg) => is_error_prompt(r@.subrange(7, r@.len() as int), msg),
                    }
                },
            },
    {
        self.mode = TermMode { raw: true, cursor_visible: false, line_wrap: false };
        let ghost out = outcome;
        match outcome {
            RunOutcome::SpawnFailed(cause) => {
                let m1 = concat_str("Failed to execute '", run.program.as_str());
                let m2 = concat_str(m1.as_str(), "': ");
                let msg = concat_str(m2.as_str(), cause.as_str());
                error_prompt_script(msg.as_str())
            },
            RunOutcome::Exited(code) => {
                let mut r: Vec<TermOp> = Vec::new();
                push_pause(&mut r, String::from_str("\nPress any key to continue...\n"));
                let ghost p = r@;
                let mut back = menu_mode_script();
                r.append(&mut back);
                let ghost head = r@;
                proof {
                    assert(r@ =~= p + menu_mode_ops());
                    assert(r@.subrange(0, 4) =~= p.subrange(0, 4));
                    assert(p.subrange(0, 4) =~= p);
                    assert(r@.subrange(4, 7) =~= menu_mode_ops());
                    assert forall|m: TermMode| apply_ops(m, r@) == menu_mode() by {
                        lemma_apply_ops_concat(m, p, menu_mode_ops());
                    }
                }
                let failed: Option<i32> = match code {
                    Some(c) => if c == 0 {
                        None
                    } else {
                        Some(c)
                    },
                    None => Some(-1),
                };
                match failed {
                    None => {},
                    Some(c) => {
                        let digits = decimal_string(c);
                        let msg = concat_str("Command failed with status: ", digits.as_str());
                        let mut e = error_prompt_script(msg.as_str());
                        let ghost tail = e@;
                        r.append(&mut e);
                        proof {
                            assert(r@ =~= head + tail);
                            assert(r@.subrange(0, 4) =~= head.subrange(0, 4));
                            assert(r@.subrange(4, 7) =~= head.subrange(4, 7));
                            assert(r@.subrange(7, r@.len() as int) =~= tail);
                            assert forall|m: TermMode| apply_ops(m, r@) == menu_mode() by {
                                lemma_apply_ops_concat(m, head, tail);
                            }
                        }
                    },
                }
                r
            },
        }
    }

    /// Ends the run: the terminal is restored to the normal mode, whatever
    /// mode it was in.
    pub fn finish(&mut self) -> (r: Vec<TermOp>)
        ensures
            final(self)@ == (SessionView { mode: normal_mode(), ..old(self)@ }),
            r@ == shutdown_ops(),
            apply_ops(old(self)@.mode, r@) == normal_mode(),
    {
        self.mode = TermMode { raw: false, cursor_visible: true, line_wrap: true };
        shutdown_script()
    }
}

proof fn lemma_with_submenu_wf(s: SessionView, m: MenuView)
    requires
        s.wf(),
        m.wf(),
    ensures
        with_submenu(s, m).wf(),
{
    let t = with_submenu(s, m);
    assert forall|k: int| 0 <= k < t.menus.len() implies (#[trigger] t.menus[k]).wf() by {
        if k < s.menus.len() {
            assert(t.menus[k] == s.menus[k]);
        }
    }
}

/// Opening a submenu and closing it again with `Esc` returns to the menu that
/// opened it exactly as it was, its cursor included.
pub proof fn lemma_submenu_returns_to_parent(s: SessionView, r: Step, t: SessionView, m: MenuView)
    requires
        enter_step(s, r, t),
        r is OpenSubmenu,
    ensures
        key_transition(with_submenu(t, m), Key::Esc) == s,
{
    assert(s.menus.push(m).drop_last() =~= s.menus);
}

} // verus!
