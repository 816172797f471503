//! `glide focus` and `glide show` on the command line: what they print once
//! the daily-note vault has answered, and when `focus clear` may remove
//! anything. The note is read and written by the vault.

use vstd::prelude::*;

use crate::config::strs;
use crate::console::focus::FocusItem;
use crate::output::{dim, dim_text, green_text, ok};
use crate::text::{nat_text, push_str, push_string, string_of, usize_text};

verus! {

/// How a write is reported: `✓ verb` (in green) and what it acted on, then
/// the note's strip (dimmed) unless the output is quiet.
pub open spec fn report_spec(verb: Seq<char>, what: Seq<char>, strip: Seq<char>, quiet: bool, color: bool) -> Seq<
    Seq<char>,
> {
    let first = green_text("✓ "@ + verb, color) + " "@ + what;
    if quiet {
        seq![first]
    } else {
        seq![first, dim_text(strip, color)]
    }
}

/// The lines that report a write to today's note.
pub fn report_lines(verb: &str, what: &str, strip: &str, quiet: bool, color: bool) -> (r: Vec<String>)
    ensures
        strs(r@) == report_spec(verb@, what@, strip@, quiet, color),
{
    let mut head: Vec<char> = Vec::new();
    push_str(&mut head, "✓ ");
    push_str(&mut head, verb);
    let mut first: Vec<char> = Vec::new();
    let g = ok(string_of(&head).as_str(), color);
    push_string(&mut first, &g);
    push_str(&mut first, " ");
    push_str(&mut first, what);
    let mut r: Vec<String> = Vec::new();
    r.push(string_of(&first));
    if !quiet {
        r.push(dim(strip, color));
    }
    assert(strs(r@) =~= report_spec(verb@, what@, strip@, quiet, color));
    r
}

/// One item of `glide show`: ticked or not, with the current focus marked
/// (the mark dimmed).
pub open spec fn show_item(i: FocusItem, color: bool) -> Seq<char> {
    "  "@ + (if i.done {
        "[x]"@
    } else {
        "[ ]"@
    }) + " "@ + i.text@ + dim_text(
        if i.now {
            "  ← now"@
        } else {
            Seq::empty()
        },
        color,
    )
}

/// What `glide show` prints: the strip, then every focus item, or a hint
/// when the list is empty.
pub open spec fn show_spec(strip: Seq<char>, items: Seq<FocusItem>, color: bool) -> Seq<Seq<char>> {
    seq![strip] + items.map_values(|i: FocusItem| show_item(i, color)) + (if items.len() == 0 {
        seq![dim_text("  (nothing in the focus list yet; `glide focus set <text>` adds one)"@, color)]
    } else {
        Seq::empty()
    })
}

/// The lines `glide show` prints.
pub fn show_lines(strip: &str, items: &Vec<FocusItem>, color: bool) -> (r: Vec<String>)
    ensures
        strs(r@) == show_spec(strip@, items@, color),
{
    let mut r: Vec<String> = Vec::new();
    r.push(crate::text::owned(strip));
    let mut i: usize = 0;
    while i < items.len()
        invariant
            i <= items@.len(),
            strs(r@) == seq![strip@] + items@.take(i as int).map_values(|x: FocusItem| show_item(x, color)),
        decreases items.len() - i,
    {
        let ghost before = strs(r@);
        let it = &items[i];
        let mut v: Vec<char> = Vec::new();
        push_str(&mut v, "  ");
        push_str(&mut v, if it.done {
            "[x]"
        } else {
            "[ ]"
        });
        push_str(&mut v, " ");
        push_string(&mut v, &it.text);
        let mark = dim(if it.now {
            "  ← now"
        } else {
            ""
        }, color);
        push_string(&mut v, &mark);
        proof {
            reveal_strlit("");
            assert(""@ =~= Seq::<char>::empty());
        }
        assert(v@ =~= show_item(items@[i as int], color));
        r.push(string_of(&v));
        assert(strs(r@) =~= before.push(show_item(items@[i as int], color)));
        assert(items@.take(i + 1).map_values(|x: FocusItem| show_item(x, color)) =~= items@.take(
            i as int,
        ).map_values(|x: FocusItem| show_item(x, color)).push(show_item(items@[i as int], color)));
        i = i + 1;
    }
    assert(items@.take(items.len() as int) =~= items@);
    let ghost listed = strs(r@);
    if items.len() == 0 {
        r.push(dim("  (nothing in the focus list yet; `glide focus set <text>` adds one)", color));
    }
    assert(strs(r@) =~= show_spec(strip@, items@, color));
    r
}

/// What `focus clear` does: with nothing open it says so; without
/// `--confirm` it lists what it would remove and removes nothing; with it,
/// it removes them.
#[derive(Debug, Clone, Copy, PartialEq, Eq)]
pub enum ClearPlan {
    NothingOpen,
    Preview,
    Remove,
}

/// The plan for `focus clear` with `open` items open.
pub fn clear_plan(open: usize, confirm: bool) -> (p: ClearPlan)
    ensures
        p == (if open == 0 {
            ClearPlan::NothingOpen
        } else if !confirm {
            ClearPlan::Preview
        } else {
            ClearPlan::Remove
        }),
{
    if open == 0 {
        ClearPlan::NothingOpen
    } else if !confirm {
        ClearPlan::Preview
    } else {
        ClearPlan::Remove
    }
}

/// `items`, each on its own line behind two spaces.
pub open spec fn indented(items: Seq<String>) -> Seq<Seq<char>> {
    items.map_values(|s: String| "  "@ + s@)
}

fn push_indented(r: &mut Vec<String>, items: &Vec<String>)
    ensures
        strs(final(r)@) == strs(old(r)@) + indented(items@),
{
    let ghost start = strs(r@);
    let mut i: usize = 0;
    while i < items.len()
        invariant
            i <= items@.len(),
            strs(r@) == start + indented(items@.take(i as int)),
        decreases items.len() - i,
    {
        let ghost before = strs(r@);
        let mut v: Vec<char> = Vec::new();
        push_str(&mut v, "  ");
        push_string(&mut v, &items[i]);
        r.push(string_of(&v));
        assert(strs(r@) =~= before.push("  "@ + items@[i as int]@));
        assert(indented(items@.take(i + 1)) =~= indented(items@.take(i as int)).push(
            "  "@ + items@[i as int]@,
        ));
        i = i + 1;
    }
    assert(items@.take(items.len() as int) =~= items@);
}

/// What `focus clear` prints without `--confirm`: how many are open, each
/// of them, and how to remove them.
pub fn preview_lines(open: &Vec<String>, color: bool) -> (r: Vec<String>)
    ensures
        strs(r@) == seq![nat_text(open@.len()) + " open, nothing removed:"@] + indented(open@)
            + seq![dim_text("pass --confirm to remove them"@, color)],
{
    let mut head: Vec<char> = Vec::new();
    let n = usize_text(open.len());
    push_string(&mut head, &n);
    push_str(&mut head, " open, nothing removed:");
    let mut r: Vec<String> = Vec::new();
    r.push(string_of(&head));
    assert(strs(r@) =~= seq![nat_text(open@.len()) + " open, nothing removed:"@]);
    push_indented(&mut r, open);
    let ghost mid = strs(r@);
    r.push(dim("pass --confirm to remove them", color));
    assert(strs(r@) =~= mid.push(dim_text("pass --confirm to remove them"@, color)));
    r
}

/// What `focus clear --confirm` prints: how many were cleared (in green),
/// then each of them.
pub fn cleared_lines(removed: &Vec<String>, color: bool) -> (r: Vec<String>)
    ensures
        strs(r@) == seq![green_text("cleared "@ + nat_text(removed@.len()), color)] + indented(removed@),
{
    let mut head: Vec<char> = Vec::new();
    push_str(&mut head, "cleared ");
    let n = usize_text(removed.len());
    push_string(&mut head, &n);
    let mut r: Vec<String> = Vec::new();
    r.push(ok(string_of(&head).as_str(), color));
    assert(strs(r@) =~= seq![green_text("cleared "@ + nat_text(removed@.len()), color)]);
    push_indented(&mut r, removed);
    r
}

} // verus!
