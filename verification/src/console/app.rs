//! Console state and the one function that changes it. `App::update` does
//! nothing outside itself but hand back an `Effect`, so the whole
//! interaction model can be stated and checked without a terminal.

use vstd::prelude::*;

use crate::console::block::{Block, BlockBody};
use crate::console::engine::{help_body, help_lines, is_notice, welcome_body, welcome_lines};
use crate::console::render::{block_plain_text, plain_text_spec};
use crate::text::{chars_of, nat_text, owned, push_str, push_string, same, string_of, trim, trim_chars, usize_text, CharClass};

verus! {

/// Prompt mode types; block mode navigates, so one key can mean two things
/// without modifiers.
#[derive(Debug, Clone, Copy, PartialEq, Eq)]
pub enum Mode {
    Prompt,
    Block,
}

/// What a key asks the console to do.
#[derive(Debug, Clone, PartialEq, Eq)]
pub enum Action {
    Insert(char),
    Backspace,
    Delete,
    Left,
    Right,
    Home,
    End,
    Submit,
    EnterBlockMode,
    ExitBlockMode,
    FocusPrev,
    FocusNext,
    ToggleCollapse,
    Copy,
    Rerun,
    ScrollUp,
    ScrollDown,
    Quit,
}

/// Side effects `update` cannot perform itself; the runner does them.
#[derive(Debug, Clone, PartialEq, Eq)]
pub enum Effect {
    /// Put this text on the clipboard.
    Copy(String),
    /// A block is on screen showing "running": run this and hand the answer
    /// back through `finish_submit`.
    Run(String),
}

/// The console.
pub struct App {
    pub blocks: Vec<Block>,
    pub input: String,
    /// Caret position in characters.
    pub cursor: usize,
    pub mode: Mode,
    pub focus: Option<usize>,
    pub scroll: u16,
    /// While true the view pins to the newest block, like a terminal.
    pub follow: bool,
    pub should_quit: bool,
    pub repo_label: String,
    pub stats_label: String,
    pub status_msg: Option<String>,
    /// Index of the block showing "running", if any.
    pub pending: Option<usize>,
    /// The id the next block gets.
    pub next_id: usize,
}

/// Whether the effect asks to run exactly this line.
pub open spec fn runs(eff: Option<Effect>, line: Seq<char>) -> bool {
    eff matches Some(Effect::Run(r)) && r@ == line
}

impl App {
    /// The block showing "running", if any.
    pub open spec fn running(self) -> Option<usize> {
        self.pending
    }

    /// The id the next block gets.
    pub open spec fn next_block_id(self) -> usize {
        self.next_id
    }

    /// The console's invariant: the caret is inside the input, and focus and
    /// the running block point at blocks that exist.
    pub open spec fn wf(self) -> bool {
        &&& self.cursor <= self.input@.len()
        &&& (self.focus matches Some(i) ==> i < self.blocks@.len())
        &&& (self.running() matches Some(i) ==> i < self.blocks@.len())
        &&& self.blocks@.len() <= self.next_block_id()
    }

    /// The focused block, if any.
    pub open spec fn focused_block(self) -> Option<Block> {
        match self.focus {
            Some(i) => if i < self.blocks@.len() {
                Some(self.blocks@[i as int])
            } else {
                None
            },
            None => None,
        }
    }
}

/// One block was added after the others, with the next id, the given input,
/// no time taken and unfolded; the view follows it.
pub open spec fn appended(o: App, n: App, input: Seq<char>) -> bool {
    &&& n.blocks@.len() == o.blocks@.len() + 1
    &&& n.blocks@.take(o.blocks@.len() as int) == o.blocks@
    &&& n.blocks@.last().id == o.next_block_id()
    &&& n.blocks@.last().input@ == input
    &&& n.blocks@.last().elapsed_ms == 0
    &&& !n.blocks@.last().collapsed
    &&& n.next_block_id() == o.next_block_id() + 1
    &&& n.follow
}

/// The blocks, the focus, the running block and the ids are as they were.
pub open spec fn same_blocks(o: App, n: App) -> bool {
    &&& n.blocks == o.blocks
    &&& n.focus == o.focus
    &&& n.running() == o.running()
    &&& n.next_block_id() == o.next_block_id()
}

/// What submitting `line` does to the blocks and the flags it touches,
/// with `focus` the focus before it: blank lines do nothing; `help` and `?`
/// add the help block; `clear` drops every block and the focus; `exit` and
/// `quit` quit; anything else adds a running block and asks to run the
/// trimmed line.
pub open spec fn submit_ok(o: App, focus: Option<usize>, line: Seq<char>, n: App, eff: Option<Effect>) -> bool {
    let t = trim(line);
    if t.len() == 0 {
        &&& eff is None
        &&& n.blocks == o.blocks
        &&& n.focus == focus
        &&& n.running() == o.running()
        &&& n.next_block_id() == o.next_block_id()
        &&& n.should_quit == o.should_quit
        &&& n.follow == o.follow
    } else if t == "help"@ || t == "?"@ {
        &&& eff is None
        &&& appended(o, n, t)
        &&& is_notice(n.blocks@.last().body, "keys and verbs"@, help_lines())
        &&& n.focus == focus
        &&& n.running() == o.running()
        &&& n.should_quit == o.should_quit
    } else if t == "clear"@ {
        &&& eff is None
        &&& n.blocks@.len() == 0
        &&& n.focus is None
        &&& n.running() is None
        &&& n.next_block_id() == o.next_block_id()
        &&& n.should_quit == o.should_quit
        &&& n.follow == o.follow
    } else if t == "exit"@ || t == "quit"@ {
        &&& eff is None
        &&& n.should_quit
        &&& n.blocks == o.blocks
        &&& n.focus == focus
        &&& n.running() == o.running()
        &&& n.next_block_id() == o.next_block_id()
        &&& n.follow == o.follow
    } else {
        &&& runs(eff, t)
        &&& appended(o, n, t)
        &&& n.blocks@.last().body is Pending
        &&& n.running() == Some((n.blocks@.len() - 1) as usize)
        &&& n.focus == focus
        &&& n.should_quit == o.should_quit
    }
}

/// The prompt (input and caret) is as it was.
pub open spec fn same_prompt(o: App, n: App) -> bool {
    n.input@ == o.input@ && n.cursor == o.cursor
}

/// The mode, the scroll position, following and quitting are as they were.
pub open spec fn same_view(o: App, n: App) -> bool {
    n.mode == o.mode && n.scroll == o.scroll && n.follow == o.follow && n.should_quit == o.should_quit
}

/// Everything but the status line is as it was, and nothing is asked of
/// the runner.
pub open spec fn unchanged(o: App, n: App, eff: Option<Effect>) -> bool {
    same_blocks(o, n) && same_prompt(o, n) && same_view(o, n) && eff is None
}

/// What one action does to the console, and what it asks of the runner.
pub open spec fn update_ok(o: App, a: Action, n: App, eff: Option<Effect>) -> bool {
    &&& n.repo_label == o.repo_label
    &&& n.stats_label == o.stats_label
    &&& match a {
        Action::Copy => true,
        Action::Rerun => true,
        _ => n.status_msg is None,
    }
    &&& match a {
        Action::Quit => same_blocks(o, n) && same_prompt(o, n) && n.mode == o.mode && n.scroll
            == o.scroll && n.follow == o.follow && n.should_quit && eff is None,
        Action::Insert(c) => same_blocks(o, n) && same_view(o, n) && eff is None && n.input@
            == o.input@.insert(o.cursor as int, c) && n.cursor == o.cursor + 1,
        Action::Backspace => same_blocks(o, n) && same_view(o, n) && eff is None && if o.cursor > 0 {
            n.input@ == o.input@.remove(o.cursor - 1) && n.cursor == o.cursor - 1
        } else {
            same_prompt(o, n)
        },
        Action::Delete => same_blocks(o, n) && same_view(o, n) && eff is None && if o.cursor
            < o.input@.len() {
            n.input@ == o.input@.remove(o.cursor as int) && n.cursor == o.cursor
        } else {
            same_prompt(o, n)
        },
        Action::Left => same_blocks(o, n) && same_view(o, n) && eff is None && n.input@ == o.input@
            && n.cursor == if o.cursor > 0 {
            o.cursor - 1
        } else {
            0
        },
        Action::Right => same_blocks(o, n) && same_view(o, n) && eff is None && n.input@ == o.input@
            && n.cursor == if o.cursor + 1 <= o.input@.len() {
            o.cursor + 1
        } else {
            o.input@.len() as int
        },
        Action::Home => same_blocks(o, n) && same_view(o, n) && eff is None && n.input@ == o.input@
            && n.cursor == 0,
        Action::End => same_blocks(o, n) && same_view(o, n) && eff is None && n.input@ == o.input@
            && n.cursor == o.input@.len(),
        Action::Submit => n.input@.len() == 0 && n.cursor == 0 && n.mode == o.mode && n.scroll
            == o.scroll && submit_ok(o, o.focus, o.input@, n, eff),
        Action::EnterBlockMode => n.blocks == o.blocks && n.running() == o.running()
            && n.next_block_id() == o.next_block_id() && same_prompt(o, n) && n.scroll == o.scroll
            && n.follow == o.follow && n.should_quit == o.should_quit && eff is None && if o.blocks@.len()
            > 0 {
            n.mode == Mode::Block && n.focus == Some(
                match o.focus {
                    Some(i) => i,
                    None => (o.blocks@.len() - 1) as usize,
                },
            )
        } else {
            n.mode == o.mode && n.focus == o.focus
        },
        Action::ExitBlockMode => n.blocks == o.blocks && n.running() == o.running()
            && n.next_block_id() == o.next_block_id() && same_prompt(o, n) && n.scroll == o.scroll
            && n.follow == o.follow && n.should_quit == o.should_quit && eff is None && n.mode
            == Mode::Prompt && n.focus is None,
        Action::FocusPrev => n.blocks == o.blocks && n.running() == o.running()
            && n.next_block_id() == o.next_block_id() && same_prompt(o, n) && n.mode == o.mode
            && n.scroll == o.scroll && n.should_quit == o.should_quit && eff is None
            && match o.focus {
            Some(i) => n.focus == Some(
                if i > 0 {
                    (i - 1) as usize
                } else {
                    0usize
                },
            ) && !n.follow,
            None => n.focus is None && n.follow == o.follow,
        },
        Action::FocusNext => n.blocks == o.blocks && n.running() == o.running()
            && n.next_block_id() == o.next_block_id() && same_prompt(o, n) && same_view(o, n)
            && eff is None && match o.focus {
            Some(i) => n.focus == Some(
                if i + 1 <= o.blocks@.len() - 1 {
                    (i + 1) as usize
                } else if o.blocks@.len() > 0 {
                    (o.blocks@.len() - 1) as usize
                } else {
                    0usize
                },
            ),
            None => n.focus is None,
        },
        Action::ToggleCollapse => n.focus == o.focus && n.running() == o.running()
            && n.next_block_id() == o.next_block_id() && same_prompt(o, n) && same_view(o, n)
            && eff is None && match o.focused_block() {
            Some(b) => n.blocks@ == o.blocks@.update(
                o.focus->Some_0 as int,
                Block { collapsed: !b.collapsed, ..b },
            ),
            None => n.blocks == o.blocks,
        },
        Action::Copy => same_blocks(o, n) && same_prompt(o, n) && same_view(o, n) && match o.focused_block() {
            Some(b) => (eff matches Some(Effect::Copy(t)) && t@ == plain_text_spec(b)) && (
            n.status_msg matches Some(m) && m@ == "copied block "@ + nat_text(b.id as nat)),
            None => eff is None && n.status_msg is None,
        },
        Action::Rerun => n.scroll == o.scroll && same_prompt(o, n) && match o.focused_block() {
            Some(b) => if b.input@.len() == 0 {
                unchanged(o, n, eff) && (n.status_msg matches Some(m) && m@ == "nothing to re-run"@)
            } else {
                n.mode == Mode::Prompt && n.status_msg is None && submit_ok(o, None, b.input@, n, eff)
            },
            None => unchanged(o, n, eff) && n.status_msg is None,
        },
        Action::ScrollUp => same_blocks(o, n) && same_prompt(o, n) && n.mode == o.mode
            && n.should_quit == o.should_quit && eff is None && n.scroll == (if o.scroll >= 3 {
            o.scroll - 3
        } else {
            0
        }) && !n.follow,
        Action::ScrollDown => same_blocks(o, n) && same_prompt(o, n) && n.mode == o.mode
            && n.should_quit == o.should_quit && n.follow == o.follow && eff is None && n.scroll
            == (if o.scroll <= u16::MAX - 3 {
            o.scroll + 3
        } else {
            u16::MAX as int
        }),
    }
}

/// What handing back an answer does: the running block (if any) takes the
/// body and the time, in place; nothing else about the blocks changes; the
/// view follows.
pub open spec fn finish_ok(o: App, body: BlockBody, elapsed_ms: u128, n: App) -> bool {
    &&& match o.running() {
        Some(i) => n.blocks@ == o.blocks@.update(
            i as int,
            Block { body, elapsed_ms, ..o.blocks@[i as int] },
        ),
        None => n.blocks == o.blocks,
    }
    &&& n.running() is None
    &&& n.follow
    &&& n.focus == o.focus
    &&& n.next_block_id() == o.next_block_id()
    &&& same_prompt(o, n)
    &&& n.mode == o.mode
    &&& n.scroll == o.scroll
    &&& n.should_quit == o.should_quit
    &&& n.status_msg == o.status_msg
    &&& n.repo_label == o.repo_label
    &&& n.stats_label == o.stats_label
}

impl App {
    /// A console opened on a repository: one welcome block, prompt mode,
    /// following the newest block.
    pub fn new(repo_label: &str, stats_label: &str, has_graph: bool) -> (app: App)
        ensures
            app.wf(),
            app.blocks@.len() == 1,
            is_notice(app.blocks@[0].body, "glide console"@, welcome_lines(has_graph)),
            app.blocks@[0].input@.len() == 0,
            app.blocks@[0].id == 0,
            app.input@.len() == 0,
            app.cursor == 0,
            app.mode == Mode::Prompt,
            app.focus is None,
            app.running() is None,
            app.next_block_id() == 1,
            app.follow,
            !app.should_quit,
            app.repo_label@ == repo_label@,
            app.stats_label@ == stats_label@,
            app.status_msg is None,
            app.scroll == 0,
    {
        let mut app = App {
            blocks: Vec::new(),
            input: String::new(),
            cursor: 0,
            mode: Mode::Prompt,
            focus: None,
            scroll: 0,
            follow: true,
            should_quit: false,
            repo_label: owned(repo_label),
            stats_label: owned(stats_label),
            status_msg: None,
            pending: None,
            next_id: 0,
        };
        app.push_block(String::new(), welcome_body(has_graph), 0);
        app
    }

    fn push_block(&mut self, input: String, body: BlockBody, elapsed_ms: u128)
        requires
            old(self).next_id < usize::MAX,
            old(self).blocks@.len() <= old(self).next_id,
        ensures
            final(self).blocks@.len() == old(self).blocks@.len() + 1,
            final(self).blocks@.take(old(self).blocks@.len() as int) == old(self).blocks@,
            final(self).blocks@.last() == (Block {
                id: old(self).next_id,
                input,
                body,
                elapsed_ms,
                collapsed: false,
            }),
            final(self).next_id == old(self).next_id + 1,
            final(self).follow,
            final(self).input == old(self).input,
            final(self).cursor == old(self).cursor,
            final(self).mode == old(self).mode,
            final(self).focus == old(self).focus,
            final(self).scroll == old(self).scroll,
            final(self).should_quit == old(self).should_quit,
            final(self).repo_label == old(self).repo_label,
            final(self).stats_label == old(self).stats_label,
            final(self).status_msg == old(self).status_msg,
            final(self).pending == old(self).pending,
    {
        let id = self.next_id;
        self.next_id = self.next_id + 1;
        let ghost before = self.blocks@;
        self.blocks.push(Block::new(id, input, body, elapsed_ms));
        assert(self.blocks@.take(before.len() as int) =~= before);
        self.follow = true;
    }

    /// The focused block, if any.
    pub fn focused(&self) -> (b: Option<&Block>)
        requires
            self.wf(),
        ensures
            match b {
                Some(x) => self.focused_block() == Some(*x),
                None => self.focused_block() is None,
            },
    {
        match self.focus {
            Some(i) => Some(&self.blocks[i]),
            None => None,
        }
    }

    /// Phase one of a submit: put a running block on screen and ask the
    /// runner to run the line; built-ins are handled here.
    fn submit(&mut self, line: String) -> (eff: Option<Effect>)
        requires
            old(self).wf(),
            old(self).next_id < usize::MAX,
        ensures
            final(self).wf(),
            submit_ok(*old(self), old(self).focus, line@, *final(self), eff),
            final(self).input == old(self).input,
            final(self).cursor == old(self).cursor,
            final(self).mode == old(self).mode,
            final(self).scroll == old(self).scroll,
            final(self).repo_label == old(self).repo_label,
            final(self).stats_label == old(self).stats_label,
            final(self).status_msg == old(self).status_msg,
    {
        let t = trim_chars(&chars_of(line.as_str()), CharClass::Space);
        if t.len() == 0 {
            return None;
        }
        let ghost tv = t@;
        assert(tv == trim(line@));
        if same(&t, &chars_of("help")) || same(&t, &chars_of("?")) {
            self.push_block(string_of(&t), help_body(), 0);
            return None;
        }
        if same(&t, &chars_of("clear")) {
            self.blocks.clear();
            self.focus = None;
            self.pending = None;
            return None;
        }
        if same(&t, &chars_of("exit")) || same(&t, &chars_of("quit")) {
            self.should_quit = true;
            return None;
        }
        let s = string_of(&t);
        self.push_block(string_of(&t), BlockBody::Pending, 0);
        self.pending = Some(self.blocks.len() - 1);
        Some(Effect::Run(s))
    }

    /// Settles the scroll offset once the view knows it has `total` rows
    /// for `height` on screen: following, it shows the newest rows;
    /// otherwise it stays where it was, but never past the last screenful.
    /// (The row count is taken as a `u16`, as the view holds it.)
    pub fn settle_scroll(&mut self, total: usize, height: u16)
        ensures
            ({
                let t = total as u16;
                let max = if t >= height {
                    (t - height) as u16
                } else {
                    0u16
                };
                final(self).scroll == if old(self).follow {
                    max
                } else if old(self).scroll <= max {
                    old(self).scroll
                } else {
                    max
                }
            }),
            *final(self) == (App { scroll: final(self).scroll, ..*old(self) }),
    {
        #[verifier::truncate]
        let t: u16 = total as u16;
        let max: u16 = if t >= height {
            t - height
        } else {
            0
        };
        self.scroll = if self.follow {
            max
        } else if self.scroll <= max {
            self.scroll
        } else {
            max
        };
    }

    /// Phase two of a submit: the running block's body becomes the answer,
    /// in place, and the view follows it.
    pub fn finish_submit(&mut self, body: BlockBody, elapsed_ms: u128)
        requires
            old(self).wf(),
        ensures
            final(self).wf(),
            finish_ok(*old(self), body, elapsed_ms, *final(self)),
    {
        match self.pending {
            Some(i) => {
                let old_block = self.blocks.remove(i);
                let b = Block {
                    id: old_block.id,
                    input: old_block.input,
                    body,
                    elapsed_ms,
                    collapsed: old_block.collapsed,
                };
                self.blocks.insert(i, b);
                assert(self.blocks@ =~= old(self).blocks@.update(
                    i as int,
                    Block { body, elapsed_ms, ..old(self).blocks@[i as int] },
                ));
            },
            None => {},
        }
        self.pending = None;
        self.follow = true;
    }

    /// Applies one action. Everything it cannot do itself (copying to the
    /// clipboard, running a verb) comes back as an `Effect`.
    pub fn update(&mut self, action: Action) -> (eff: Option<Effect>)
        requires
            old(self).wf(),
            old(self).next_block_id() < usize::MAX,
        ensures
            final(self).wf(),
            update_ok(*old(self), action, *final(self), eff),
    {
        self.status_msg = None;
        match action {
            Action::Quit => {
                self.should_quit = true;
                None
            },
            Action::Insert(c) => {
                let mut v = chars_of(self.input.as_str());
                v.insert(self.cursor, c);
                let grown: usize = v.len();
                assert(self.cursor < grown);
                self.input = string_of(&v);
                self.cursor = self.cursor + 1;
                None
            },
            Action::Backspace => {
                if self.cursor > 0 {
                    let mut v = chars_of(self.input.as_str());
                    v.remove(self.cursor - 1);
                    self.input = string_of(&v);
                    self.cursor = self.cursor - 1;
                }
                None
            },
            Action::Delete => {
                let mut v = chars_of(self.input.as_str());
                if self.cursor < v.len() {
                    v.remove(self.cursor);
                    self.input = string_of(&v);
                }
                None
            },
            Action::Left => {
                self.cursor = if self.cursor > 0 {
                    self.cursor - 1
                } else {
                    0
                };
                None
            },
            Action::Right => {
                let n = chars_of(self.input.as_str()).len();
                self.cursor = if self.cursor < n {
                    self.cursor + 1
                } else {
                    n
                };
                None
            },
            Action::Home => {
                self.cursor = 0;
                None
            },
            Action::End => {
                self.cursor = chars_of(self.input.as_str()).len();
                None
            },
            Action::Submit => {
                let mut line = String::new();
                std::mem::swap(&mut line, &mut self.input);
                self.cursor = 0;
                self.submit(line)
            },
            Action::EnterBlockMode => {
                if self.blocks.len() > 0 {
                    self.mode = Mode::Block;
                    self.focus = Some(
                        match self.focus {
                            Some(i) => i,
                            None => self.blocks.len() - 1,
                        },
                    );
                }
                None
            },
            Action::ExitBlockMode => {
                self.mode = Mode::Prompt;
                self.focus = None;
                None
            },
            Action::FocusPrev => {
                match self.focus {
                    Some(i) => {
                        self.focus = Some(
                            if i > 0 {
                                i - 1
                            } else {
                                0
                            },
                        );
                        self.follow = false;
                    },
                    None => {},
                }
                None
            },
            Action::FocusNext => {
                match self.focus {
                    Some(i) => {
                        let last = if self.blocks.len() > 0 {
                            self.blocks.len() - 1
                        } else {
                            0
                        };
                        self.focus = Some(
                            if i + 1 <= last {
                                i + 1
                            } else {
                                last
                            },
                        );
                    },
                    None => {},
                }
                None
            },
            Action::ToggleCollapse => {
                match self.focus {
                    Some(i) => {
                        let ghost before = self.blocks@;
                        let b = self.blocks.remove(i);
                        let flipped = Block {
                            id: b.id,
                            input: b.input,
                            body: b.body,
                            elapsed_ms: b.elapsed_ms,
                            collapsed: !b.collapsed,
                        };
                        self.blocks.insert(i, flipped);
                        assert(self.blocks@ =~= before.update(
                            i as int,
                            Block { collapsed: !before[i as int].collapsed, ..before[i as int] },
                        ));
                    },
                    None => {},
                }
                None
            },
            Action::Copy => {
                match self.focus {
                    Some(i) => {
                        let b = &self.blocks[i];
                        let text = block_plain_text(b);
                        let mut m: Vec<char> = Vec::new();
                        push_str(&mut m, "copied block ");
                        push_string(&mut m, &usize_text(b.id));
                        self.status_msg = Some(string_of(&m));
                        Some(Effect::Copy(text))
                    },
                    None => None,
                }
            },
            Action::Rerun => {
                match self.focus {
                    Some(i) => {
                        let input = self.blocks[i].input.clone();
                        if input.as_str().is_empty() {
                            self.status_msg = Some(owned("nothing to re-run"));
                            None
                        } else {
                            self.mode = Mode::Prompt;
                            self.focus = None;
                            self.submit(input)
                        }
                    },
                    None => None,
                }
            },
            Action::ScrollUp => {
                self.scroll = if self.scroll >= 3 {
                    self.scroll - 3
                } else {
                    0
                };
                self.follow = false;
                None
            },
            Action::ScrollDown => {
                self.scroll = if self.scroll <= u16::MAX - 3 {
                    self.scroll + 3
                } else {
                    u16::MAX
                };
                None
            },
        }
    }
}

/// Built-in words (`help`, `?`, `clear`, `exit`, `quit`) and blank lines are
/// handled by the console and never reach the runner.
pub proof fn law_builtins_never_run(o: App, n: App, eff: Option<Effect>)
    requires
        update_ok(o, Action::Submit, n, eff),
        ({
            let t = trim(o.input@);
            t.len() == 0 || t == "help"@ || t == "?"@ || t == "clear"@ || t == "exit"@ || t == "quit"@
        }),
    ensures
        eff is None,
{
}

/// Submitting a line that is not a built-in puts a running block on screen
/// before the answer exists, and asks to run the trimmed line; handing the
/// answer back replaces that block in place: the same number of blocks,
/// the same id, now carrying the answer.
pub proof fn law_answer_replaces_running_block(
    o: App,
    m: App,
    n: App,
    eff: Option<Effect>,
    body: BlockBody,
    elapsed_ms: u128,
)
    requires
        o.wf(),
        update_ok(o, Action::Submit, m, eff),
        eff is Some,
        finish_ok(m, body, elapsed_ms, n),
    ensures
        m.blocks@.len() == o.blocks@.len() + 1,
        m.blocks@.last().body is Pending,
        runs(eff, trim(o.input@)),
        n.blocks@.len() == m.blocks@.len(),
        n.blocks@.last().id == m.blocks@.last().id,
        n.blocks@.last().input == m.blocks@.last().input,
        n.blocks@.last().body == body,
        n.blocks@.last().elapsed_ms == elapsed_ms,
        n.blocks@.take(o.blocks@.len() as int) == o.blocks@,
{
    let t = trim(o.input@);
    assert(!(t.len() == 0 || t == "help"@ || t == "?"@ || t == "clear"@ || t == "exit"@ || t
        == "quit"@));
    let k = m.blocks@.len() - 1;
    assert(m.running() == Some(k as usize));
    assert(n.blocks@.take(o.blocks@.len() as int) =~= m.blocks@.take(o.blocks@.len() as int));
}

/// Folding a block twice leaves every block as it was.
pub proof fn law_toggle_twice(o: App, m: App, n: App, e1: Option<Effect>, e2: Option<Effect>)
    requires
        o.wf(),
        update_ok(o, Action::ToggleCollapse, m, e1),
        update_ok(m, Action::ToggleCollapse, n, e2),
    ensures
        n.blocks@ == o.blocks@,
{
    match o.focused_block() {
        Some(b) => {
            let i = o.focus->Some_0 as int;
            assert(m.blocks@[i] == Block { collapsed: !b.collapsed, ..b });
            assert(m.focused_block() == Some(m.blocks@[i]));
            assert(n.blocks@ =~= o.blocks@);
        },
        None => {},
    }
}

/// Typing a character and then deleting it with backspace gives back the
/// input and the caret as they were.
pub proof fn law_insert_then_backspace(o: App, m: App, n: App, c: char, e1: Option<Effect>, e2: Option<Effect>)
    requires
        o.wf(),
        update_ok(o, Action::Insert(c), m, e1),
        update_ok(m, Action::Backspace, n, e2),
    ensures
        n.input@ == o.input@,
        n.cursor == o.cursor,
{
    assert(o.input@.insert(o.cursor as int, c).remove(o.cursor as int) =~= o.input@);
}

/// Moving the focus never leaves the blocks: down from the newest block and
/// up from the oldest both stay put.
pub proof fn law_focus_clamps(o: App, n: App, a: Action, eff: Option<Effect>)
    requires
        o.wf(),
        update_ok(o, a, n, eff),
        a == Action::FocusNext || a == Action::FocusPrev,
        o.focus is Some,
    ensures
        a == Action::FocusNext && o.focus == Some((o.blocks@.len() - 1) as usize) ==> n.focus == o.focus,
        a == Action::FocusPrev && o.focus == Some(0usize) ==> n.focus == o.focus,
        n.focus matches Some(i) && i < o.blocks@.len(),
{
}

/// `clear` drops every block and releases the focus.
pub proof fn law_clear_drops_everything(o: App, n: App, eff: Option<Effect>)
    requires
        update_ok(o, Action::Submit, n, eff),
        trim(o.input@) == "clear"@,
    ensures
        n.blocks@.len() == 0,
        n.focus is None,
        eff is None,
{
    reveal_strlit("clear");
    reveal_strlit("help");
    reveal_strlit("?");
}

/// Block mode needs a block to focus: with none, the mode and the focus
/// stay as they were.
pub proof fn law_block_mode_needs_a_block(o: App, n: App, eff: Option<Effect>)
    requires
        update_ok(o, Action::EnterBlockMode, n, eff),
        o.blocks@.len() == 0,
    ensures
        n.mode == o.mode,
        n.focus == o.focus,
{
}

/// Folding touches the focused block only: every other block stays as it
/// was, and the focused one changes in nothing but being folded.
pub proof fn law_toggle_touches_focused_only(o: App, n: App, eff: Option<Effect>, i: usize)
    requires
        o.wf(),
        update_ok(o, Action::ToggleCollapse, n, eff),
        o.focus == Some(i),
    ensures
        n.blocks@.len() == o.blocks@.len(),
        forall|j: int| 0 <= j < o.blocks@.len() && j != i ==> n.blocks@[j] == o.blocks@[j],
        n.blocks@[i as int] == (Block { collapsed: !o.blocks@[i as int].collapsed, ..o.blocks@[i as int] }),
{
}

/// Re-running a block that holds no typed line (the welcome block) changes
/// nothing and asks nothing of the runner; it only says there is nothing to
/// re-run.
pub proof fn law_rerun_without_input_is_a_no_op(o: App, n: App, eff: Option<Effect>, i: usize)
    requires
        o.wf(),
        update_ok(o, Action::Rerun, n, eff),
        o.focus == Some(i),
        o.blocks@[i as int].input@.len() == 0,
    ensures
        same_blocks(o, n),
        same_prompt(o, n),
        same_view(o, n),
        eff is None,
        n.status_msg matches Some(m) && m@ == "nothing to re-run"@,
{
}

/// Whatever the action, the focus stays on a block that exists (or is
/// released) and the caret stays inside the input: both hold after any
/// update that started from a console where they held.
pub proof fn law_focus_and_caret_stay_inside(o: App, n: App, a: Action, eff: Option<Effect>)
    requires
        o.focus matches Some(i) ==> i < o.blocks@.len(),
        o.cursor <= o.input@.len(),
        update_ok(o, a, n, eff),
    ensures
        n.focus matches Some(i) ==> i < n.blocks@.len(),
        n.cursor <= n.input@.len(),
{
    reveal_strlit("help");
    reveal_strlit("?");
    reveal_strlit("clear");
    reveal_strlit("exit");
    reveal_strlit("quit");
}

} // verus!
