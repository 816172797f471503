//! The session-start hook that runs `glide prime --hook-json` from an agent's
//! settings file: whether the file has it, adding it, and taking it out
//! again without disturbing any other hook.
//!
//! The file itself is JSON and stays with the caller; what the logic reads
//! of it is modelled here. Every group and hook that came from the file
//! carries its position there (`origin`), so the caller can write back what
//! was kept, untouched; the group glide adds has no origin.

use vstd::prelude::*;

use crate::text::{chars_of, same};

verus! {

/// The command the hook runs.
pub open spec fn hook_command() -> Seq<char> {
    "glide prime --hook-json"@
}

/// The command the hook runs.
pub fn hook_command_text() -> (s: &'static str)
    ensures
        s@ == hook_command(),
{
    "glide prime --hook-json"
}

/// One hook of a group: the command it runs (when the file gives it as a
/// string), and where it came from.
#[derive(Debug, Clone)]
pub struct HookEntry {
    pub command: Option<String>,
    pub origin: Option<usize>,
}

/// A group of hooks: its `hooks` list (when the file gives a list), and
/// where it came from.
#[derive(Debug, Clone)]
pub struct HookGroup {
    pub hooks: Option<Vec<HookEntry>>,
    pub origin: Option<usize>,
}

/// What a settings file holds where the session-start hooks go.
#[derive(Debug, Clone)]
pub enum SessionHooks {
    /// The top level of the file, or its `hooks`, is not an object: there
    /// is nowhere to write a hook.
    Unwritable,
    /// There is no list of session-start groups (none, or not a list).
    NoList,
    /// The list of session-start groups.
    Groups(Vec<HookGroup>),
}

/// A hook as plain values: its command and its origin.
pub type EntryView = (Option<Seq<char>>, Option<usize>);

/// A group as plain values: its hooks and its origin.
pub type GroupView = (Option<Seq<EntryView>>, Option<usize>);

pub open spec fn entry_view(e: HookEntry) -> EntryView {
    (
        match e.command {
            Some(c) => Some(c@),
            None => None,
        },
        e.origin,
    )
}

pub open spec fn entries_view(hs: Seq<HookEntry>) -> Seq<EntryView> {
    hs.map_values(|e: HookEntry| entry_view(e))
}

pub open spec fn group_view(g: HookGroup) -> GroupView {
    (
        match g.hooks {
            Some(hs) => Some(entries_view(hs@)),
            None => None,
        },
        g.origin,
    )
}

pub open spec fn groups_view(gs: Seq<HookGroup>) -> Seq<GroupView> {
    gs.map_values(|g: HookGroup| group_view(g))
}

/// The groups the file lists (none unless it has a list).
pub open spec fn listed(s: SessionHooks) -> Seq<GroupView> {
    match s {
        SessionHooks::Groups(gs) => groups_view(gs@),
        _ => Seq::empty(),
    }
}

/// The hook runs glide's command.
pub open spec fn runs_glide(e: EntryView) -> bool {
    e.0 == Some(hook_command())
}

/// Some hook of `hs` runs glide's command.
pub open spec fn has_glide(hs: Seq<EntryView>) -> bool {
    exists|j: int| 0 <= j < hs.len() && runs_glide(#[trigger] hs[j])
}

/// The group has a hook that runs glide's command.
pub open spec fn group_has_glide(g: GroupView) -> bool {
    match g.0 {
        Some(hs) => has_glide(hs),
        None => false,
    }
}

/// Some group of `gs` has a hook that runs glide's command.
pub open spec fn present_in(gs: Seq<GroupView>) -> bool {
    exists|i: int| 0 <= i < gs.len() && group_has_glide(#[trigger] gs[i])
}

/// The group glide adds: no matcher, one hook running its command.
pub open spec fn glide_group() -> GroupView {
    (Some(seq![(Some(hook_command()), None)]), None)
}

/// The hooks of a list that do not run glide's command, in order.
pub open spec fn without_glide(hs: Seq<EntryView>) -> Seq<EntryView>
    decreases hs.len(),
{
    if hs.len() == 0 {
        hs
    } else if runs_glide(hs.last()) {
        without_glide(hs.drop_last())
    } else {
        without_glide(hs.drop_last()).push(hs.last())
    }
}

/// The groups after glide's hooks are taken out: each group loses the hooks
/// that run glide's command, and a group left with no hooks (or whose hooks
/// were never a list) goes.
pub open spec fn stripped(gs: Seq<GroupView>) -> Seq<GroupView>
    decreases gs.len(),
{
    if gs.len() == 0 {
        gs
    } else {
        let rest = stripped(gs.drop_last());
        let g = gs.last();
        match g.0 {
            Some(hs) => if without_glide(hs).len() > 0 {
                rest.push((Some(without_glide(hs)), g.1))
            } else {
                rest
            },
            None => rest,
        }
    }
}

fn runs_glide_exec(e: &HookEntry) -> (b: bool)
    ensures
        b == runs_glide(entry_view(*e)),
{
    match &e.command {
        Some(c) => same(&chars_of(c.as_str()), &chars_of(hook_command_text())),
        None => false,
    }
}

/// Whether the file already has glide's hook in one of its session-start
/// groups.
pub fn hook_present(root: &SessionHooks) -> (b: bool)
    ensures
        b == present_in(listed(*root)),
{
    match root {
        SessionHooks::Groups(gs) => {
            let ghost v = groups_view(gs@);
            assert(listed(*root) == v);
            let mut i: usize = 0;
            while i < gs.len()
                invariant
                    listed(*root) == v,
                    i <= gs@.len(),
                    v == groups_view(gs@),
                    forall|k: int| 0 <= k < i ==> !group_has_glide(#[trigger] v[k]),
                decreases gs.len() - i,
            {
                if let Some(hs) = &gs[i].hooks {
                    let ghost hv = entries_view(hs@);
                    assert(v[i as int].0 == Some(hv));
                    let mut j: usize = 0;
                    while j < hs.len()
                        invariant
                            listed(*root) == v,
                            i < gs@.len(),
                            v == groups_view(gs@),
                            v[i as int].0 == Some(hv),
                            j <= hs@.len(),
                            hv == entries_view(hs@),
                            forall|m: int| 0 <= m < j ==> !runs_glide(#[trigger] hv[m]),
                        decreases hs.len() - j,
                    {
                        if runs_glide_exec(&hs[j]) {
                            assert(runs_glide(hv[j as int]));
                            assert(has_glide(hv));
                            assert(group_has_glide(v[i as int]));
                            return true;
                        }
                        j = j + 1;
                    }
                }
                i = i + 1;
            }
            false
        },
        _ => false,
    }
}

/// The groups the file lists, taken out of it (none unless it has a list).
fn take_groups(root: &mut SessionHooks) -> (gs: Vec<HookGroup>)
    ensures
        groups_view(gs@) == listed(*old(root)),
        (*final(root)) is NoList,
{
    let mut taken = SessionHooks::NoList;
    core::mem::swap(root, &mut taken);
    match taken {
        SessionHooks::Groups(gs) => gs,
        _ => Vec::new(),
    }
}

/// Adds glide's group at the end of the session-start list, starting a list
/// when there is none.
pub fn add_hook(root: &mut SessionHooks)
    requires
        !(*old(root) is Unwritable),
    ensures
        (*final(root)) is Groups,
        listed(*final(root)) == listed(*old(root)).push(glide_group()),
{
    let mut gs = take_groups(root);
    let ghost before = groups_view(gs@);
    let mut hs: Vec<HookEntry> = Vec::new();
    hs.push(HookEntry { command: Some(hook_command_text().to_string()), origin: None });
    let g = HookGroup { hooks: Some(hs), origin: None };
    assert(group_view(g) == glide_group()) by {
        assert(entries_view(hs@) =~= seq![(Some(hook_command()), None::<usize>)]);
    }
    gs.push(g);
    assert(groups_view(gs@) =~= before.push(glide_group()));
    *root = SessionHooks::Groups(gs);
}

/// The hooks of one group that do not run glide's command.
fn keep_others(hs: Vec<HookEntry>) -> (r: Vec<HookEntry>)
    ensures
        entries_view(r@) == without_glide(entries_view(hs@)),
{
    let ghost all = entries_view(hs@);
    let mut pending = hs;
    let mut r: Vec<HookEntry> = Vec::new();
    let n = pending.len();
    let mut i: usize = 0;
    while i < n
        invariant
            n == all.len(),
            i <= n,
            entries_view(pending@) == all.skip(i as int),
            entries_view(r@) == without_glide(all.take(i as int)),
        decreases n - i,
    {
        assert(entries_view(pending@).len() == pending@.len());
        assert(entries_view(pending@)[0] == entry_view(pending@[0]));
        let ghost pv = pending@;
        let e = pending.remove(0);
        assert(entry_view(e) == all[i as int]);
        assert(pending@ =~= pv.skip(1));
        assert(entries_view(pv.skip(1)) =~= entries_view(pv).skip(1));
        assert(entries_view(pending@) =~= all.skip(i + 1));
        assert(all.take(i + 1).drop_last() =~= all.take(i as int));
        let ghost before = entries_view(r@);
        if !runs_glide_exec(&e) {
            r.push(e);
            assert(entries_view(r@) =~= before.push(all[i as int]));
        }
        i = i + 1;
    }
    assert(all.take(n as int) =~= all);
    r
}

/// Takes glide's hooks out of every session-start group, dropping groups
/// left with none; every other hook stays, in order, in its group.
pub fn remove_hook(root: &mut SessionHooks)
    requires
        !(*old(root) is Unwritable),
    ensures
        (*final(root)) is Groups,
        listed(*final(root)) == stripped(listed(*old(root))),
{
    let mut pending = take_groups(root);
    let ghost all = groups_view(pending@);
    let mut r: Vec<HookGroup> = Vec::new();
    let n = pending.len();
    let mut i: usize = 0;
    while i < n
        invariant
            n == all.len(),
            i <= n,
            groups_view(pending@) == all.skip(i as int),
            groups_view(r@) == stripped(all.take(i as int)),
        decreases n - i,
    {
        assert(groups_view(pending@).len() == pending@.len());
        assert(groups_view(pending@)[0] == group_view(pending@[0]));
        let ghost pv = pending@;
        let g = pending.remove(0);
        assert(group_view(g) == all[i as int]);
        assert(pending@ =~= pv.skip(1));
        assert(groups_view(pv.skip(1)) =~= groups_view(pv).skip(1));
        assert(groups_view(pending@) =~= all.skip(i + 1));
        assert(all.take(i + 1).drop_last() =~= all.take(i as int));
        let ghost before = groups_view(r@);
        let origin = g.origin;
        match g.hooks {
            Some(hs) => {
                let kept = keep_others(hs);
                if kept.len() > 0 {
                    let ng = HookGroup { hooks: Some(kept), origin };
                    r.push(ng);
                    assert(groups_view(r@) =~= before.push(group_view(ng)));
                }
            },
            None => {},
        }
        i = i + 1;
    }
    assert(all.take(n as int) =~= all);
    *root = SessionHooks::Groups(r);
}

/// Once added, the hook is there.
pub proof fn law_added_hook_is_present(gs: Seq<GroupView>)
    ensures
        present_in(gs.push(glide_group())),
{
    let r = gs.push(glide_group());
    let hs = seq![(Some(hook_command()), None::<usize>)];
    assert(runs_glide(hs[0]));
    assert(group_has_glide(r[gs.len() as int]));
}

proof fn lemma_without_glide(hs: Seq<EntryView>)
    ensures
        !has_glide(without_glide(hs)),
        !has_glide(hs) ==> without_glide(hs) == hs,
    decreases hs.len(),
{
    if hs.len() > 0 {
        let p = hs.drop_last();
        lemma_without_glide(p);
        if !has_glide(hs) {
            assert(!has_glide(p)) by {
                if has_glide(p) {
                    let j = choose|j: int| 0 <= j < p.len() && runs_glide(#[trigger] p[j]);
                    assert(hs[j] == p[j]);
                }
            }
            assert(!runs_glide(hs[hs.len() - 1]));
            assert(p.push(hs.last()) =~= hs);
        }
        let w = without_glide(hs);
        if has_glide(w) {
            let j = choose|j: int| 0 <= j < w.len() && runs_glide(#[trigger] w[j]);
            if !runs_glide(hs.last()) && j == w.len() - 1 {
                assert(w[j] == hs.last());
            } else {
                assert(w[j] == without_glide(p)[j]);
            }
        }
    }
}

/// Once taken out, the hook is gone from every group.
pub proof fn law_removed_hook_is_gone(gs: Seq<GroupView>)
    ensures
        !present_in(stripped(gs)),
    decreases gs.len(),
{
    if gs.len() > 0 {
        let p = gs.drop_last();
        law_removed_hook_is_gone(p);
        let rest = stripped(p);
        let r = stripped(gs);
        if present_in(r) {
            let i = choose|i: int| 0 <= i < r.len() && group_has_glide(#[trigger] r[i]);
            if i < rest.len() {
                assert(r[i] == rest[i]);
            } else {
                let hs = gs.last().0->Some_0;
                lemma_without_glide(hs);
                assert(r[i].0 == Some(without_glide(hs)));
            }
        }
    }
}

/// Adding the hook and then taking it out leaves the same groups as taking
/// it out straight away: the group glide adds leaves no trace.
pub proof fn law_remove_after_add(gs: Seq<GroupView>)
    ensures
        stripped(gs.push(glide_group())) == stripped(gs),
{
    let r = gs.push(glide_group());
    assert(r.drop_last() =~= gs);
    let hs = seq![(Some(hook_command()), None::<usize>)];
    assert(hs.drop_last() =~= Seq::<EntryView>::empty());
    assert(without_glide(hs.drop_last()).len() == 0);
    assert(runs_glide(hs.last()));
    assert(without_glide(hs).len() == 0);
}

/// Taking the hook out of a file that does not have it leaves every group
/// that holds a list of hooks exactly as it was: the other hooks are left
/// alone.
pub proof fn law_remove_leaves_other_hooks_alone(gs: Seq<GroupView>)
    requires
        forall|i: int| 0 <= i < gs.len() ==> (#[trigger] gs[i]).0 is Some && gs[i].0->Some_0.len()
            > 0,
        !present_in(gs),
    ensures
        stripped(gs) == gs,
    decreases gs.len(),
{
    if gs.len() > 0 {
        let p = gs.drop_last();
        assert forall|i: int| 0 <= i < p.len() implies (#[trigger] p[i]).0 is Some && p[i].0->Some_0.len()
            > 0 by {
            assert(p[i] == gs[i]);
        }
        assert(!present_in(p)) by {
            if present_in(p) {
                let i = choose|i: int| 0 <= i < p.len() && group_has_glide(#[trigger] p[i]);
                assert(gs[i] == p[i]);
            }
        }
        law_remove_leaves_other_hooks_alone(p);
        let g = gs.last();
        assert(g == gs[gs.len() - 1]);
        assert(!group_has_glide(g));
        lemma_without_glide(g.0->Some_0);
        assert(p.push(g) =~= gs);
    }
}

} // verus!
