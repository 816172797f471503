//! The command surface of the in-browser playground: which `glide focus` or
//! `glide prime` command a line of words asks for, and how the answer
//! reads. The note itself is kept by the daily-note vault; these functions
//! decide what to ask of it and shape what it reports.

use vstd::prelude::*;

use crate::text::{chars_of, join_space, join_words, push_str, same, string_of, views};

verus! {

/// What the `glide focus --help` text shows, cut down to the verbs the
/// playground knows.
pub open spec fn help_spec() -> Seq<char> {
    "Usage: glide focus [COMMAND]\n\nCommands:\n  show     Print the one-line focus strip (default)\n  set      Make this the current focus; adds it to today's Focus if new\n  done     Check off the first Focus or Tasks bullet matching the text\n  capture  Drop a quick note into today's Notes\n  log      Append a timestamped line to today's Record\n  today    Print today's note as Markdown\n\nAlso: glide prime   Print what an agent sees at the start of a session\n"@
}

/// The help text.
pub fn help_text() -> (s: &'static str)
    ensures
        s@ == help_spec(),
{
    "Usage: glide focus [COMMAND]\n\nCommands:\n  show     Print the one-line focus strip (default)\n  set      Make this the current focus; adds it to today's Focus if new\n  done     Check off the first Focus or Tasks bullet matching the text\n  capture  Drop a quick note into today's Notes\n  log      Append a timestamped line to today's Record\n  today    Print today's note as Markdown\n\nAlso: glide prime   Print what an agent sees at the start of a session\n"
}

/// The date the seed note is for, the same for every visitor.
pub fn seed_date() -> (s: &'static str)
    ensures
        s@ == "2026-09-07"@,
{
    "2026-09-07"
}

/// The clock reading every `log` line gets, so the demo does not change
/// with the time of day.
pub fn log_stamp() -> (s: &'static str)
    ensures
        s@ == "10:42"@,
{
    "10:42"
}

/// What a line asks of the note.
#[derive(Debug, Clone, Copy, PartialEq, Eq)]
pub enum PlayVerb {
    /// Print the one-line focus strip.
    Strip,
    /// Print today's note.
    Today,
    /// Print what an agent sees at the start of a session.
    Prime,
    /// Make the text the current focus.
    SetNow,
    /// Check off the first bullet matching the text.
    Done,
    /// Drop the text into the notes.
    Capture,
    /// Append the text to the record, stamped.
    Log,
    /// Anything else: print the help, with a usage exit.
    Help,
}

/// A line's request: the verb, and the text the writing verbs act on
/// (empty for the others).
#[derive(Debug, Clone)]
pub struct PlayRequest {
    pub verb: PlayVerb,
    pub text: String,
}

/// The words of a line that are not empty, in order.
pub open spec fn nonempty(ws: Seq<Seq<char>>) -> Seq<Seq<char>>
    decreases ws.len(),
{
    if ws.len() == 0 {
        ws
    } else if ws.last().len() == 0 {
        nonempty(ws.drop_last())
    } else {
        nonempty(ws.drop_last()).push(ws.last())
    }
}

/// The words that count: the non-empty ones, without one leading `glide`.
pub open spec fn play_words(argv: Seq<Seq<char>>) -> Seq<Seq<char>> {
    let ws = nonempty(argv);
    if ws.len() > 0 && ws[0] == "glide"@ {
        ws.drop_first()
    } else {
        ws
    }
}

/// Some word is a flag (starts with `-`).
pub open spec fn has_flag(ws: Seq<Seq<char>>) -> bool {
    exists|i: int| 0 <= i < ws.len() && (#[trigger] ws[i]).len() > 0 && ws[i][0] == '-'
}

/// The writing verb a word names under `focus`, if any.
pub open spec fn write_verb(w: Seq<char>) -> Option<PlayVerb> {
    if w == "set"@ {
        Some(PlayVerb::SetNow)
    } else if w == "done"@ {
        Some(PlayVerb::Done)
    } else if w == "capture"@ {
        Some(PlayVerb::Capture)
    } else if w == "log"@ {
        Some(PlayVerb::Log)
    } else {
        None
    }
}

/// The verb a line asks for: a flag anywhere asks for help; `focus` or
/// `focus show` the strip; `focus today` or `today` the note; `prime` the
/// agent's view; `focus set|done|capture|log` with some text a write;
/// anything else help.
pub open spec fn verb_of(ws: Seq<Seq<char>>) -> PlayVerb {
    if has_flag(ws) {
        PlayVerb::Help
    } else if ws == seq!["focus"@] || ws == seq!["focus"@, "show"@] {
        PlayVerb::Strip
    } else if ws == seq!["focus"@, "today"@] || ws == seq!["today"@] {
        PlayVerb::Today
    } else if ws == seq!["prime"@] {
        PlayVerb::Prime
    } else if ws.len() >= 3 && ws[0] == "focus"@ && write_verb(ws[1]) is Some {
        write_verb(ws[1])->0
    } else {
        PlayVerb::Help
    }
}

/// The text a line's write acts on: its words after the verb, joined by
/// single spaces.
pub open spec fn text_of(ws: Seq<Seq<char>>) -> Seq<char> {
    match verb_of(ws) {
        PlayVerb::SetNow | PlayVerb::Done | PlayVerb::Capture | PlayVerb::Log => join_space(ws.skip(2)),
        _ => Seq::empty(),
    }
}

fn keep_words(argv: &Vec<String>) -> (ws: Vec<Vec<char>>)
    ensures
        views(ws@) == nonempty(argv@.map_values(|s: String| s@)),
{
    let ghost all = argv@.map_values(|s: String| s@);
    let mut ws: Vec<Vec<char>> = Vec::new();
    let mut i: usize = 0;
    while i < argv.len()
        invariant
            i <= argv@.len(),
            all == argv@.map_values(|s: String| s@),
            views(ws@) == nonempty(all.take(i as int)),
        decreases argv.len() - i,
    {
        let w = chars_of(argv[i].as_str());
        assert(all.take(i + 1).drop_last() =~= all.take(i as int));
        assert(all.take(i + 1).last() == w@);
        let ghost before = views(ws@);
        if w.len() > 0 {
            ws.push(w);
            assert(views(ws@) =~= before.push(all[i as int]));
        }
        i = i + 1;
    }
    assert(all.take(argv.len() as int) =~= all);
    ws
}

fn any_flag(ws: &Vec<Vec<char>>, from: usize) -> (b: bool)
    requires
        from <= ws.len(),
    ensures
        b == has_flag(views(ws@).skip(from as int)),
{
    let ghost vs = views(ws@).skip(from as int);
    let mut i: usize = from;
    while i < ws.len()
        invariant
            from <= i <= ws@.len(),
            vs == views(ws@).skip(from as int),
            forall|k: int| 0 <= k < i - from ==> !((#[trigger] vs[k]).len() > 0 && vs[k][0] == '-'),
        decreases ws.len() - i,
    {
        assert(vs[i - from] == ws@[i as int]@);
        if ws[i].len() > 0 && ws[i][0] == '-' {
            assert(vs[i - from].len() > 0 && vs[i - from][0] == '-');
            return true;
        }
        i = i + 1;
    }
    false
}

fn word_is(ws: &Vec<Vec<char>>, i: usize, lit: &str) -> (r: bool)
    requires
        i < ws.len(),
    ensures
        r == (ws@[i as int]@ == lit@),
{
    same(&ws[i], &chars_of(lit))
}

/// What a line of words asks for, with the text a write acts on.
pub fn play_request(argv: &Vec<String>) -> (r: PlayRequest)
    ensures
        r.verb == verb_of(play_words(argv@.map_values(|s: String| s@))),
        r.text@ == text_of(play_words(argv@.map_values(|s: String| s@))),
{
    proof {
        reveal_strlit("focus");
        reveal_strlit("show");
        reveal_strlit("today");
        reveal_strlit("prime");
        reveal_strlit("glide");
        reveal_strlit("set");
        reveal_strlit("done");
        reveal_strlit("capture");
        reveal_strlit("log");
    }
    let ws = keep_words(argv);
    let ghost all = views(ws@);
    let from: usize = if ws.len() > 0 && word_is(&ws, 0, "glide") {
        1
    } else {
        0
    };
    let ghost w = all.skip(from as int);
    assert(w == play_words(argv@.map_values(|s: String| s@)));
    let n = ws.len() - from;
    assert(w.len() == n);
    assert forall|k: int| 0 <= k < n implies #[trigger] w[k] == ws@[from + k]@ by {}
    let help = PlayRequest { verb: PlayVerb::Help, text: String::new() };
    if any_flag(&ws, from) {
        return help;
    }
    let focus = n >= 1 && word_is(&ws, from, "focus");
    if (focus && n == 1) || (focus && n == 2 && word_is(&ws, from + 1, "show")) {
        assert(w =~= seq!["focus"@] || w =~= seq!["focus"@, "show"@]);
        return PlayRequest { verb: PlayVerb::Strip, text: String::new() };
    }
    if (focus && n == 2 && word_is(&ws, from + 1, "today")) || (n == 1 && word_is(&ws, from, "today")) {
        assert(w =~= seq!["focus"@, "today"@] || w =~= seq!["today"@]);
        return PlayRequest { verb: PlayVerb::Today, text: String::new() };
    }
    if n == 1 && word_is(&ws, from, "prime") {
        assert(w =~= seq!["prime"@]);
        return PlayRequest { verb: PlayVerb::Prime, text: String::new() };
    }
    proof {
        if w == seq!["focus"@] || w == seq!["focus"@, "show"@] {
            assert(w[0] == "focus"@);
            if w.len() == 2 {
                assert(w[1] == "show"@);
            }
        }
        if w == seq!["focus"@, "today"@] || w == seq!["today"@] {
            assert(w[0] == "focus"@ || w[0] == "today"@);
            if w.len() == 2 {
                assert(w[1] == "today"@);
            }
        }
        if w == seq!["prime"@] {
            assert(w[0] == "prime"@);
        }
        assert("focus"@[0] != "today"@[0]);
        assert("focus"@[0] != "prime"@[0]);
        assert("today"@[0] != "prime"@[0]);
        assert("show"@.len() != "today"@.len());
    }
    if n >= 3 && focus {
        let verb = if word_is(&ws, from + 1, "set") {
            PlayVerb::SetNow
        } else if word_is(&ws, from + 1, "done") {
            PlayVerb::Done
        } else if word_is(&ws, from + 1, "capture") {
            PlayVerb::Capture
        } else if word_is(&ws, from + 1, "log") {
            PlayVerb::Log
        } else {
            return help;
        };
        let text = join_words(&ws, from + 2);
        assert(all.skip(from + 2) =~= w.skip(2));
        return PlayRequest { verb, text: string_of(&text) };
    }
    help
}

/// `✓ verb what`, then the note's strip: how a write is reported.
pub fn report(verb: &str, what: &str, strip: &str) -> (s: String)
    ensures
        s@ == "✓ "@ + verb@ + " "@ + what@ + "\n"@ + strip@ + "\n"@,
{
    let mut v: Vec<char> = Vec::new();
    push_str(&mut v, "✓ ");
    push_str(&mut v, verb);
    push_str(&mut v, " ");
    push_str(&mut v, what);
    push_str(&mut v, "\n");
    push_str(&mut v, strip);
    push_str(&mut v, "\n");
    string_of(&v)
}

/// One command's result: what the terminal shows, the whole note after
/// the command, and the exit code.
#[derive(Debug, Clone, PartialEq, Eq)]
pub struct Outcome {
    pub stdout: String,
    pub note: String,
    pub exit: i32,
}

/// A command that worked: exit 0.
pub fn succeeded(stdout: String, note: String) -> (o: Outcome)
    ensures
        o.stdout == stdout,
        o.note == note,
        o.exit == 0,
{
    Outcome { stdout, note, exit: 0 }
}

/// A command the note refused: its error line, exit 1.
pub fn failed(error: &str, note: String) -> (o: Outcome)
    ensures
        o.stdout@ == "error: "@ + error@ + "\n"@,
        o.note == note,
        o.exit == 1,
{
    let mut v: Vec<char> = Vec::new();
    push_str(&mut v, "error: ");
    push_str(&mut v, error);
    push_str(&mut v, "\n");
    Outcome { stdout: string_of(&v), note, exit: 1 }
}

/// The help text with a usage exit, the note untouched.
pub fn help(note: String) -> (o: Outcome)
    ensures
        o.stdout@ == help_spec(),
        o.note == note,
        o.exit == 2,
{
    Outcome { stdout: help_text().to_string(), note, exit: 2 }
}

proof fn lemma_nonempty_prepend(w: Seq<char>, ws: Seq<Seq<char>>)
    requires
        w.len() > 0,
    ensures
        nonempty(seq![w] + ws) == seq![w] + nonempty(ws),
    decreases ws.len(),
{
    let a = seq![w] + ws;
    if ws.len() == 0 {
        assert(a.drop_last() =~= Seq::<Seq<char>>::empty());
        assert(nonempty(a.drop_last()) =~= Seq::<Seq<char>>::empty());
        assert(a.last() == w);
        assert(nonempty(ws) =~= Seq::<Seq<char>>::empty());
        assert(nonempty(a) =~= seq![w]);
        assert(seq![w] + nonempty(ws) =~= seq![w]);
    } else {
        lemma_nonempty_prepend(w, ws.drop_last());
        assert(a.drop_last() =~= seq![w] + ws.drop_last());
        assert(a.last() == ws.last());
        if ws.last().len() != 0 {
            assert(seq![w] + nonempty(ws.drop_last()).push(ws.last()) =~= (seq![w] + nonempty(
                ws.drop_last(),
            )).push(ws.last()));
        }
    }
}

/// The leading `glide` is optional: in front of words that do not
/// themselves begin with `glide`, it changes nothing the line asks.
pub proof fn law_play_glide_prefix_is_optional(ws: Seq<Seq<char>>)
    requires
        !(nonempty(ws).len() > 0 && nonempty(ws)[0] == "glide"@),
    ensures
        play_words(seq!["glide"@] + ws) == play_words(ws),
        verb_of(play_words(seq!["glide"@] + ws)) == verb_of(play_words(ws)),
{
    reveal_strlit("glide");
    lemma_nonempty_prepend("glide"@, ws);
    assert((seq!["glide"@] + nonempty(ws)).drop_first() =~= nonempty(ws));
}

} // verus!
