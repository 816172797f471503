//! What to tell someone who typed a verb that lives under another command.

use vstd::prelude::*;

use crate::text::{chars_of, push_str, same, string_of};

verus! {

/// Verbs that live under a parent command, and the parent each belongs to.
pub open spec fn verb_table() -> Seq<(Seq<char>, Seq<char>)> {
    seq![
        ("log"@, "focus"@),
        ("set"@, "focus"@),
        ("done"@, "focus"@),
        ("capture"@, "focus"@),
        ("list"@, "focus"@),
        ("clear"@, "focus"@),
        ("add"@, "focus"@),
        ("start"@, "sprint"@),
        ("pull"@, "sprint"@),
        ("end"@, "sprint"@),
    ]
}

/// The table of nested verbs, `(verb, parent)`.
pub fn nested_verbs() -> (r: Vec<(&'static str, &'static str)>)
    ensures
        r@.len() == verb_table().len(),
        forall|i: int| 0 <= i < r@.len() ==> (#[trigger] r@[i]).0@ == verb_table()[i].0
            && r@[i].1@ == verb_table()[i].1,
{
    let mut r: Vec<(&'static str, &'static str)> = Vec::new();
    r.push(("log", "focus"));
    r.push(("set", "focus"));
    r.push(("done", "focus"));
    r.push(("capture", "focus"));
    r.push(("list", "focus"));
    r.push(("clear", "focus"));
    r.push(("add", "focus"));
    r.push(("start", "sprint"));
    r.push(("pull", "sprint"));
    r.push(("end", "sprint"));
    r
}

/// Every nested verb names a parent that is a real command.
pub proof fn law_every_parent_is_a_command()
    ensures
        forall|i: int|
            0 <= i < verb_table().len() ==> (#[trigger] verb_table()[i]).1 == "focus"@
                || verb_table()[i].1 == "sprint"@,
{
}

/// What to say about `add`, which has no nested form: the verb is `capture`.
pub open spec fn add_hint() -> Seq<char> {
    "`add` is not a verb here. To put something in today's list, use `glide focus capture <text>`."@
}

/// The suggestion for a verb that lives under `parent`.
pub open spec fn parent_hint(parent: Seq<char>, verb: Seq<char>) -> Seq<char> {
    "did you mean `glide "@ + parent + " "@ + verb + "`?"@
}

/// The first row of the table for `word`, if any.
pub open spec fn verb_row(word: Seq<char>) -> Option<int> {
    if exists|i: int| 0 <= i < verb_table().len() && (#[trigger] verb_table()[i]).0 == word {
        Some(
            choose|i: int|
                0 <= i < verb_table().len() && (#[trigger] verb_table()[i]).0 == word
                    && forall|j: int| 0 <= j < i ==> (#[trigger] verb_table()[j]).0 != word,
        )
    } else {
        None
    }
}

/// What someone meant by a word that is not a top-level command: `add` gets
/// the real verb; a nested verb gets its full path; anything else nothing.
pub open spec fn hint_for(word: Seq<char>) -> Option<Seq<char>> {
    if word == "add"@ {
        Some(add_hint())
    } else {
        match verb_row(word) {
            Some(i) => Some(parent_hint(verb_table()[i].1, verb_table()[i].0)),
            None => None,
        }
    }
}

/// The hint for a word that is not a top-level command.
pub fn nested_hint(word: &str) -> (r: Option<String>)
    ensures
        r matches Some(h) ==> hint_for(word@) == Some(h@),
        r is None ==> hint_for(word@) is None,
{
    let w = chars_of(word);
    if same(&w, &chars_of("add")) {
        return Some(string_of(&chars_of(
            "`add` is not a verb here. To put something in today's list, use `glide focus capture <text>`.",
        )));
    }
    let table = nested_verbs();
    let mut i: usize = 0;
    while i < table.len()
        invariant
            i <= table@.len(),
            table@.len() == verb_table().len(),
            forall|k: int| 0 <= k < table@.len() ==> (#[trigger] table@[k]).0@ == verb_table()[k].0
                && table@[k].1@ == verb_table()[k].1,
            forall|j: int| 0 <= j < i ==> (#[trigger] verb_table()[j]).0 != word@,
            w@ == word@,
            word@ != "add"@,
        decreases table.len() - i,
    {
        let (v, parent) = table[i];
        if same(&chars_of(v), &w) {
            assert(verb_table()[i as int].0 == word@);
            assert(verb_row(word@) == Some(i as int));
            let mut out: Vec<char> = Vec::new();
            push_str(&mut out, "did you mean `glide ");
            push_str(&mut out, parent);
            push_str(&mut out, " ");
            push_str(&mut out, v);
            push_str(&mut out, "`?");
            return Some(string_of(&out));
        }
        i = i + 1;
    }
    None
}

/// The word to explain when a command line names no command: `glide add`
/// and `glide focus add` are the same mistake in two positions, so a verb
/// after a parent is the word; otherwise the first word (or none).
pub open spec fn misplaced_word(args: Seq<Seq<char>>) -> Seq<char> {
    if args.len() == 2 && (exists|i: int|
        0 <= i < verb_table().len() && (#[trigger] verb_table()[i]).1 == args[0]) {
        args[1]
    } else if args.len() >= 1 {
        args[0]
    } else {
        Seq::empty()
    }
}

/// Whether `word` is the parent of some nested verb.
fn is_parent(word: &Vec<char>) -> (b: bool)
    ensures
        b == exists|i: int| 0 <= i < verb_table().len() && (#[trigger] verb_table()[i]).1 == word@,
{
    let table = nested_verbs();
    let mut i: usize = 0;
    while i < table.len()
        invariant
            i <= table@.len(),
            table@.len() == verb_table().len(),
            forall|k: int| 0 <= k < table@.len() ==> (#[trigger] table@[k]).0@ == verb_table()[k].0
                && table@[k].1@ == verb_table()[k].1,
            forall|j: int| 0 <= j < i ==> (#[trigger] verb_table()[j]).1 != word@,
        decreases table.len() - i,
    {
        let (_, parent) = table[i];
        if same(&chars_of(parent), word) {
            assert(verb_table()[i as int].1 == word@);
            return true;
        }
        i = i + 1;
    }
    false
}

/// Picks the word to explain from the first two command-line arguments.
pub fn bad_word(args: &Vec<String>) -> (r: String)
    requires
        args.len() <= 2,
    ensures
        r@ == misplaced_word(args@.map_values(|a: String| a@)),
{
    let ghost views = args@.map_values(|a: String| a@);
    if args.len() == 2 && is_parent(&chars_of(args[0].as_str())) {
        assert(views[0] == args@[0]@);
        return args[1].clone();
    }
    if args.len() >= 1 {
        assert(views[0] == args@[0]@);
        return args[0].clone();
    }
    String::new()
}

/// What to say when a repository command is run outside a repository:
/// what it needs, where the person is standing, and the commands that work
/// anywhere.
pub open spec fn not_in_repo_text(verb: Option<String>, cwd: Seq<char>) -> Seq<char> {
    "`"@ + match verb {
        Some(v) => v@,
        None => "this command"@,
    } + "` reads a repository, and "@ + cwd
        + " is not inside one.\nhelp: cd into a repo first. The daily-note commands (glide, focus, sprint, prime, show) work anywhere."@
}

/// The refusal for a repository command run outside one; `verb` is the
/// command as typed, when there is one.
pub fn not_in_repo(cwd: &str, verb: Option<String>) -> (r: String)
    ensures
        r@ == not_in_repo_text(verb, cwd@),
{
    let mut v: Vec<char> = Vec::new();
    push_str(&mut v, "`");
    match &verb {
        Some(w) => crate::text::push_string(&mut v, w),
        None => push_str(&mut v, "this command"),
    }
    push_str(&mut v, "` reads a repository, and ");
    push_str(&mut v, cwd);
    push_str(
        &mut v,
        " is not inside one.\nhelp: cd into a repo first. The daily-note commands (glide, focus, sprint, prime, show) work anywhere.",
    );
    string_of(&v)
}

/// The paragraph any agent can carry in its instructions file: start a
/// session from today's focus, and keep the daily note through glide.
pub open spec fn onboard_paragraph() -> Seq<char> {
    "You also keep my daily priorities with glide. At the start of a session run `glide prime` and mention my current focus in one line. When I say what I am working on, run `glide focus set <text>`; when it is done, `glide focus done <text>`. After every task you complete, run `glide focus log <one or two sentences>` without asking. Anything I ask you to remember goes in `glide focus capture <text>`. Never edit my daily note directly."@
}

/// The onboarding paragraph.
pub fn onboard_text() -> (r: String)
    ensures
        r@ == onboard_paragraph(),
{
    crate::text::owned(
        "You also keep my daily priorities with glide. At the start of a session run `glide prime` and mention my current focus in one line. When I say what I am working on, run `glide focus set <text>`; when it is done, `glide focus done <text>`. After every task you complete, run `glide focus log <one or two sentences>` without asking. Anything I ask you to remember goes in `glide focus capture <text>`. Never edit my daily note directly.",
    )
}

} // verus!
