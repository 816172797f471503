//! `focus` in the console: what a line asks of today's note, and how the
//! answer reads. The note itself is kept by the daily-note vault; these
//! functions decide what to ask of it and turn what it reports into a block.

use vstd::prelude::*;

use crate::config::{push_owned, strs};
use crate::console::block::BlockBody;
use crate::console::engine::{is_error, is_notice};
use crate::text::{
    chars_of, extend_chars, push_str, push_string, same, split_lines, string_of, text_lines, trim,
    trim_chars, CharClass,
};

verus! {

/// A change to today's note.
#[derive(Debug, Clone, Copy, PartialEq, Eq)]
pub enum FocusWrite {
    /// Make the text the current focus.
    SetNow,
    /// Tick off the item that matches the text.
    Done,
    /// Put the text in the note's captures.
    Capture,
    /// Append the text to the note's log.
    Log,
}

/// What a `focus` line asks, once the note is open.
#[derive(Debug, Clone)]
pub enum FocusStep {
    /// Show the focus list as it stands.
    Show,
    /// Show today's note as written.
    Today,
    /// Change the note, save it, then show the list.
    Write(FocusWrite),
    /// Answer with this block and touch nothing.
    Answer(BlockBody),
}

/// The change an action names, if it names one.
pub open spec fn write_named(a: Seq<char>) -> Option<FocusWrite> {
    if a == "set"@ {
        Some(FocusWrite::SetNow)
    } else if a == "done"@ {
        Some(FocusWrite::Done)
    } else if a == "capture"@ {
        Some(FocusWrite::Capture)
    } else if a == "log"@ {
        Some(FocusWrite::Log)
    } else {
        None
    }
}

/// The step answers at once with an error carrying `message`.
pub open spec fn answers_error(s: FocusStep, message: Seq<char>) -> bool {
    s matches FocusStep::Answer(b) && is_error(b, message)
}

fn is_action(a: &Vec<char>, lit: &str) -> (r: bool)
    ensures
        r == (a@ == lit@),
{
    same(a, &chars_of(lit))
}

/// What a `focus` action asks: `show` and `today` only read; in a `--safe`
/// session anything else is refused before it is even looked at; otherwise
/// `set`, `done`, `capture` and `log` change the note, and any other action
/// is an error.
pub fn focus_step(action: &str, safe: bool) -> (s: FocusStep)
    ensures
        action@ == "show"@ ==> s is Show,
        action@ == "today"@ ==> s is Today,
        action@ != "show"@ && action@ != "today"@ && safe ==> answers_error(
            s,
            "--safe: refusing to write to the vault"@,
        ),
        action@ != "show"@ && action@ != "today"@ && !safe ==> match write_named(action@) {
            Some(w) => s matches FocusStep::Write(x) && x == w,
            None => answers_error(s, "unknown focus action "@ + action@),
        },
{
    proof {
        reveal_strlit("show");
        reveal_strlit("today");
        assert("show"@.len() != "today"@.len());
    }
    let a = chars_of(action);
    if is_action(&a, "show") {
        return FocusStep::Show;
    }
    if is_action(&a, "today") {
        return FocusStep::Today;
    }
    if safe {
        return FocusStep::Answer(
            BlockBody::Error { message: "--safe: refusing to write to the vault".to_string() },
        );
    }
    if is_action(&a, "set") {
        FocusStep::Write(FocusWrite::SetNow)
    } else if is_action(&a, "done") {
        FocusStep::Write(FocusWrite::Done)
    } else if is_action(&a, "capture") {
        FocusStep::Write(FocusWrite::Capture)
    } else if is_action(&a, "log") {
        FocusStep::Write(FocusWrite::Log)
    } else {
        let mut m: Vec<char> = Vec::new();
        push_str(&mut m, "unknown focus action ");
        extend_chars(&mut m, &a);
        FocusStep::Answer(BlockBody::Error { message: string_of(&m) })
    }
}

/// The line that reports a change: what the note says was set or ticked
/// off, or the trimmed text that was captured or logged.
pub open spec fn headline_spec(w: FocusWrite, reported: Seq<char>, text: Seq<char>) -> Seq<char> {
    match w {
        FocusWrite::SetNow => "now: "@ + reported,
        FocusWrite::Done => "done: "@ + reported,
        FocusWrite::Capture => "captured: "@ + trim(text),
        FocusWrite::Log => "logged: "@ + trim(text),
    }
}

/// The line that reports a change. `reported` is what the note answered
/// (the focus it set, the item it ticked off); `text` is what was typed.
pub fn focus_headline(w: FocusWrite, reported: &str, text: &str) -> (r: String)
    ensures
        r@ == headline_spec(w, reported@, text@),
{
    let mut v: Vec<char> = Vec::new();
    match w {
        FocusWrite::SetNow => {
            push_str(&mut v, "now: ");
            push_str(&mut v, reported);
        },
        FocusWrite::Done => {
            push_str(&mut v, "done: ");
            push_str(&mut v, reported);
        },
        FocusWrite::Capture => {
            push_str(&mut v, "captured: ");
            extend_chars(&mut v, &trim_chars(&chars_of(text), CharClass::Space));
        },
        FocusWrite::Log => {
            push_str(&mut v, "logged: ");
            extend_chars(&mut v, &trim_chars(&chars_of(text), CharClass::Space));
        },
    }
    string_of(&v)
}

/// The answer when there is no vault to open.
pub fn no_vault(reason: &str) -> (b: BlockBody)
    ensures
        is_notice(
            b,
            "no vault yet"@,
            seq![reason@, "Set [vault] path in ~/.glide/config.toml, then try again."@],
        ),
{
    let mut v: Vec<String> = Vec::new();
    push_owned(&mut v, reason);
    push_owned(&mut v, "Set [vault] path in ~/.glide/config.toml, then try again.");
    assert(strs(Seq::<String>::empty()) =~= Seq::<Seq<char>>::empty());
    assert(strs(v@) =~= seq![reason@, "Set [vault] path in ~/.glide/config.toml, then try again."@]);
    BlockBody::Notice { title: "no vault yet".to_string(), lines: v }
}

/// Today's note as written: one line of the block per line of the note.
pub fn focus_today(date: &str, raw: &str) -> (b: BlockBody)
    ensures
        is_notice(b, "today · "@ + date@, text_lines(raw@)),
{
    let mut t: Vec<char> = Vec::new();
    push_str(&mut t, "today · ");
    push_str(&mut t, date);
    let ls = split_lines(&chars_of(raw));
    let ghost want = text_lines(raw@);
    let mut v: Vec<String> = Vec::new();
    let mut i: usize = 0;
    while i < ls.len()
        invariant
            i <= ls@.len(),
            ls@.map_values(|l: Vec<char>| l@) == want,
            strs(v@) == want.take(i as int),
        decreases ls.len() - i,
    {
        let ghost before = strs(v@);
        assert(ls@.map_values(|l: Vec<char>| l@)[i as int] == ls@[i as int]@);
        v.push(string_of(&ls[i]));
        assert(strs(v@) =~= before.push(want[i as int]));
        assert(want.take(i + 1) =~= want.take(i as int).push(want[i as int]));
        i = i + 1;
    }
    assert(want.take(ls.len() as int) =~= want);
    BlockBody::Notice { title: string_of(&t), lines: v }
}

/// One item of the focus list, as the note reports it.
#[derive(Debug, Clone)]
pub struct FocusItem {
    pub text: String,
    pub done: bool,
    pub now: bool,
}

/// How an item reads: ticked or not, and marked when it is the current
/// focus.
pub open spec fn item_line(i: FocusItem) -> Seq<char> {
    "  "@ + (if i.done {
        "[x]"@
    } else {
        "[ ]"@
    }) + " "@ + i.text@ + (if i.now {
        "  ← now"@
    } else {
        Seq::empty()
    })
}

/// The lines of the focus block: the headline of a change (if there was
/// one), the note's summary line, then every item.
pub open spec fn focus_lines(headline: Option<Seq<char>>, summary: Seq<char>, items: Seq<FocusItem>) -> Seq<
    Seq<char>,
> {
    (match headline {
        Some(h) => seq![h],
        None => Seq::empty(),
    }) + seq![summary] + items.map_values(|i: FocusItem| item_line(i))
}

/// An optional string as optional characters.
pub open spec fn text_option(o: Option<String>) -> Option<Seq<char>> {
    match o {
        Some(h) => Some(h@),
        None => None,
    }
}

fn item_text(i: &FocusItem) -> (r: String)
    ensures
        r@ == item_line(*i),
{
    let mut v: Vec<char> = Vec::new();
    push_str(&mut v, "  ");
    push_str(&mut v, if i.done {
        "[x]"
    } else {
        "[ ]"
    });
    push_str(&mut v, " ");
    push_string(&mut v, &i.text);
    if i.now {
        push_str(&mut v, "  ← now");
    }
    assert(v@ =~= item_line(*i));
    string_of(&v)
}

/// The focus block: titled with the note's date, then the lines above.
pub fn focus_list(date: &str, summary: &str, items: &Vec<FocusItem>, headline: Option<String>) -> (b:
    BlockBody)
    ensures
        is_notice(
            b,
            "focus · "@ + date@,
            focus_lines(text_option(headline), summary@, items@),
        ),
{
    let ghost hv = text_option(headline);
    let mut t: Vec<char> = Vec::new();
    push_str(&mut t, "focus · ");
    push_str(&mut t, date);
    let mut v: Vec<String> = Vec::new();
    assert(strs(Seq::<String>::empty()) =~= Seq::<Seq<char>>::empty());
    match headline {
        Some(h) => {
            v.push(h);
        },
        None => {},
    }
    push_owned(&mut v, summary);
    let ghost head = strs(v@);
    assert(head =~= (match hv {
        Some(h) => seq![h],
        None => Seq::<Seq<char>>::empty(),
    }) + seq![summary@]);
    let mut i: usize = 0;
    while i < items.len()
        invariant
            i <= items@.len(),
            strs(v@) == head + items@.take(i as int).map_values(|x: FocusItem| item_line(x)),
        decreases items.len() - i,
    {
        let ghost before = strs(v@);
        let line = item_text(&items[i]);
        v.push(line);
        assert(strs(v@) =~= before.push(item_line(items@[i as int])));
        assert(items@.take(i + 1).map_values(|x: FocusItem| item_line(x)) =~= items@.take(
            i as int,
        ).map_values(|x: FocusItem| item_line(x)).push(item_line(items@[i as int])));
        i = i + 1;
    }
    assert(items@.take(items.len() as int) =~= items@);
    BlockBody::Notice { title: string_of(&t), lines: v }
}

} // verus!
