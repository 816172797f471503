//! `glide setup` for an agent with a session-start hook: read its settings
//! file, find the session-start groups in it, and decide what the command
//! does. The file is read and written by the caller.

use vstd::prelude::*;

use crate::hooks::{
    hook_command, hook_command_text, entries_view, groups_view, listed, present_in, EntryView, GroupView, HookEntry, HookGroup,
    SessionHooks, entry_view, group_view,
};
use crate::settings_edit::{entry_index, lemma_entry_index, find_entry, json_view, lemma_object_view, object_view, JsonNode, JsonView};
use crate::text::{chars_of, owned};

verus! {

/// Declares `serde_json::Value` so the parse below can convert it.
#[verifier::external_type_specification]
#[verifier::external_body]
pub struct ExJsonValue(serde_json::Value);

/// A JSON value, if any, as plain values.
pub open spec fn opt_json_view(o: Option<JsonNode>) -> Option<JsonView> {
    match o {
        Some(n) => Some(json_view(n)),
        None => None,
    }
}

/// What `serde_json::from_str` makes of a settings file's text, as plain
/// values; `None` when the text is not JSON.
pub uninterp spec fn parsed_settings(text: Seq<char>) -> Option<JsonView>;

/// A `serde_json::Value` as the library's tree, each object and array with
/// the compact JSON text `serde_json` writes for it.
#[verifier::external_body]
fn json_node_of(v: serde_json::Value) -> JsonNode {
    match v {
        serde_json::Value::Object(m) => {
            let text = serde_json::Value::Object(m.clone()).to_string();
            JsonNode::Object(m.into_iter().map(|(k, v)| (k, json_node_of(v))).collect(), text)
        },
        serde_json::Value::Array(a) => {
            let text = serde_json::Value::Array(a.clone()).to_string();
            JsonNode::Array(a.into_iter().map(json_node_of).collect(), text)
        },
        serde_json::Value::String(s) => JsonNode::Text(s),
        other => JsonNode::Rendered(other.to_string()),
    }
}

/// Calls `serde_json::from_str::<serde_json::Value>` on a settings file's
/// text and converts the value (`json_node_of`).
///
/// Trusted: the result is `parsed_settings` of the text, `None` when
/// serde_json reports an error. It claims nothing of what a given text
/// parses to.
#[verifier::external_body]
pub fn parse_settings_json(text: &str) -> (r: Option<JsonNode>)
    ensures
        opt_json_view(r) == parsed_settings(text@),
{
    serde_json::from_str::<serde_json::Value>(text).ok().map(json_node_of)
}

/// The settings a missing file stands for: an empty object.
pub fn empty_settings() -> (r: JsonNode)
    ensures
        json_view(r) == JsonView::Object(Seq::empty(), "{}"@),
{
    let v: Vec<(String, JsonNode)> = Vec::new();
    let t = owned("{}");
    proof {
        lemma_object_view(v, t);
        assert(object_view(v@) =~= Seq::empty());
    }
    JsonNode::Object(v, t)
}

/// The value at key `k` of an object's entries, if the key is there.
pub open spec fn member(es: Seq<(Seq<char>, JsonView)>, k: Seq<char>) -> Option<JsonView> {
    let i = entry_index(es, k);
    if 0 <= i < es.len() {
        Some(es[i].1)
    } else {
        None
    }
}

/// The hook at place `m` of a group: its `command`, when that is a string.
pub open spec fn hook_of(h: JsonView, m: int) -> EntryView {
    (
        match h {
            JsonView::Object(fs, _) => match member(fs, "command"@) {
                Some(JsonView::Text(c)) => Some(c),
                _ => None,
            },
            _ => None,
        },
        Some(m as usize),
    )
}

/// The group at place `k` of the session-start list: its `hooks`, when
/// that is a list.
pub open spec fn group_of(g: JsonView, k: int) -> GroupView {
    (
        match g {
            JsonView::Object(fs, _) => match member(fs, "hooks"@) {
                Some(JsonView::Array(hs, _)) => Some(Seq::new(hs.len(), |m: int| hook_of(hs[m], m))),
                _ => None,
            },
            _ => None,
        },
        Some(k as usize),
    )
}

/// The session-start hooks of a settings file as plain values.
pub enum HooksView {
    Unwritable,
    NoList,
    Groups(Seq<GroupView>),
}

pub open spec fn hooks_view(s: SessionHooks) -> HooksView {
    match s {
        SessionHooks::Unwritable => HooksView::Unwritable,
        SessionHooks::NoList => HooksView::NoList,
        SessionHooks::Groups(gs) => HooksView::Groups(groups_view(gs@)),
    }
}

/// Where a settings file keeps its session-start groups: under `hooks`,
/// in `SessionStart`. A file whose top level is not an object, or whose
/// `hooks` is there but not an object, has nowhere to put them; a missing
/// `hooks` or `SessionStart`, or a `SessionStart` that is not a list, has
/// none yet.
pub open spec fn hooks_spec(root: JsonView) -> HooksView {
    match root {
        JsonView::Object(es, _) => match member(es, "hooks"@) {
            None => HooksView::NoList,
            Some(JsonView::Object(hs, _)) => match member(hs, "SessionStart"@) {
                Some(JsonView::Array(gs, _)) => HooksView::Groups(
                    Seq::new(gs.len(), |k: int| group_of(gs[k], k)),
                ),
                _ => HooksView::NoList,
            },
            Some(_) => HooksView::Unwritable,
        },
        _ => HooksView::Unwritable,
    }
}

fn member_exec<'a>(es: &'a Vec<(String, JsonNode)>, k: &str) -> (r: Option<&'a JsonNode>)
    ensures
        match r {
            Some(n) => member(object_view(es@), k@) == Some(json_view(*n)),
            None => member(object_view(es@), k@) is None,
        },
{
    match find_entry(es, &chars_of(k)) {
        Some(i) => Some(&es[i].1),
        None => None,
    }
}

proof fn lemma_array_view(a: Vec<JsonNode>, r: String)
    ensures
        json_view(JsonNode::Array(a, r)) == JsonView::Array(
            Seq::new(a@.len(), |i: int| json_view(a@[i])),
            r@,
        ),
{
    if let JsonView::Array(s, _) = json_view(JsonNode::Array(a, r)) {
        assert(s =~= Seq::new(a@.len(), |i: int| json_view(a@[i])));
    }
}

fn hook_exec(h: &JsonNode, m: usize) -> (e: HookEntry)
    ensures
        entry_view(e) == hook_of(json_view(*h), m as int),
{
    proof {
        reveal_strlit("command");
    }
    let command = match h {
        JsonNode::Object(fs, r) => {
            proof {
                lemma_object_view(*fs, *r);
            }
            match member_exec(fs, "command") {
                Some(JsonNode::Text(c)) => Some(owned(c.as_str())),
                _ => None,
            }
        },
        _ => None,
    };
    HookEntry { command, origin: Some(m) }
}

fn group_exec(g: &JsonNode, k: usize) -> (r: HookGroup)
    ensures
        group_view(r) == group_of(json_view(*g), k as int),
{
    proof {
        reveal_strlit("hooks");
    }
    let hooks = match g {
        JsonNode::Object(fs, r) => {
            proof {
                lemma_object_view(*fs, *r);
            }
            match member_exec(fs, "hooks") {
                Some(JsonNode::Array(hs, hr)) => {
                    proof {
                        lemma_array_view(*hs, *hr);
                    }
                    let ghost want = Seq::new(hs@.len(), |m: int| hook_of(json_view(hs@[m]), m));
                    let mut out: Vec<HookEntry> = Vec::new();
                    let mut m: usize = 0;
                    while m < hs.len()
                        invariant
                            m <= hs@.len(),
                            entries_view(out@) == want.take(m as int),
                            want == Seq::new(hs@.len(), |m: int| hook_of(json_view(hs@[m]), m)),
                        decreases hs.len() - m,
                    {
                        let e = hook_exec(&hs[m], m);
                        let ghost before = entries_view(out@);
                        out.push(e);
                        assert(entries_view(out@) =~= before.push(want[m as int]));
                        assert(want.take(m + 1) =~= want.take(m as int).push(want[m as int]));
                        m = m + 1;
                    }
                    assert(want.take(hs.len() as int) =~= want);
                    Some(out)
                },
                _ => None,
            }
        },
        _ => None,
    };
    HookGroup { hooks, origin: Some(k) }
}

/// Finds the session-start groups of a settings file.
pub fn session_hooks_of(root: &JsonNode) -> (h: SessionHooks)
    ensures
        hooks_view(h) == hooks_spec(json_view(*root)),
{
    proof {
        reveal_strlit("hooks");
        reveal_strlit("SessionStart");
    }
    match root {
        JsonNode::Object(es, r) => {
            proof {
                lemma_object_view(*es, *r);
            }
            match member_exec(es, "hooks") {
                None => SessionHooks::NoList,
                Some(JsonNode::Object(hs, hr)) => {
                    proof {
                        lemma_object_view(*hs, *hr);
                    }
                    match member_exec(hs, "SessionStart") {
                        Some(JsonNode::Array(gs, gr)) => {
                            proof {
                                lemma_array_view(*gs, *gr);
                            }
                            let ghost want = Seq::new(gs@.len(), |k: int| group_of(json_view(gs@[k]), k));
                            let mut out: Vec<HookGroup> = Vec::new();
                            let mut k: usize = 0;
                            while k < gs.len()
                                invariant
                                    k <= gs@.len(),
                                    groups_view(out@) == want.take(k as int),
                                    want == Seq::new(gs@.len(), |k: int| group_of(json_view(gs@[k]), k)),
                                decreases gs.len() - k,
                            {
                                let g = group_exec(&gs[k], k);
                                let ghost before = groups_view(out@);
                                out.push(g);
                                assert(groups_view(out@) =~= before.push(want[k as int]));
                                assert(want.take(k + 1) =~= want.take(k as int).push(want[k as int]));
                                k = k + 1;
                            }
                            assert(want.take(gs.len() as int) =~= want);
                            let ghost gv = Seq::new(gs@.len(), |i: int| json_view(gs@[i]));
                            assert(Seq::new(gv.len(), |k: int| group_of(gv[k], k)) =~= want);
                            SessionHooks::Groups(out)
                        },
                        _ => SessionHooks::NoList,
                    }
                },
                Some(_) => SessionHooks::Unwritable,
            }
        },
        _ => SessionHooks::Unwritable,
    }
}

/// What `glide setup` does for the hook: with `--check` it only reports;
/// in a `--safe` session it refuses; with `--remove` it removes the hook,
/// or says there is nothing to remove; otherwise it says the hook is
/// already there, or adds it.
#[derive(Debug, Clone, Copy, PartialEq, Eq)]
pub enum SetupStep {
    ReportInstalled,
    ReportMissing,
    RefuseSafe,
    NothingToRemove,
    Remove,
    AlreadyInstalled,
    Add,
}

/// The step, in the order the command weighs its flags: check, then
/// safe, then remove, then whether the hook is there.
pub open spec fn setup_step_spec(check: bool, safe: bool, remove: bool, present: bool) -> SetupStep {
    if check {
        if present {
            SetupStep::ReportInstalled
        } else {
            SetupStep::ReportMissing
        }
    } else if safe {
        SetupStep::RefuseSafe
    } else if remove {
        if present {
            SetupStep::Remove
        } else {
            SetupStep::NothingToRemove
        }
    } else if present {
        SetupStep::AlreadyInstalled
    } else {
        SetupStep::Add
    }
}

/// Decides what `glide setup` does with the hook, given its flags and the
/// settings file's session-start groups.
pub fn setup_step(check: bool, safe: bool, remove: bool, root: &SessionHooks) -> (s: SetupStep)
    ensures
        s == setup_step_spec(check, safe, remove, present_in(listed(*root))),
{
    let present = crate::hooks::hook_present(root);
    if check {
        if present {
            SetupStep::ReportInstalled
        } else {
            SetupStep::ReportMissing
        }
    } else if safe {
        SetupStep::RefuseSafe
    } else if remove {
        if present {
            SetupStep::Remove
        } else {
            SetupStep::NothingToRemove
        }
    } else if present {
        SetupStep::AlreadyInstalled
    } else {
        SetupStep::Add
    }
}

/// The items of an array as plain values.
pub open spec fn items_view(a: Seq<JsonNode>) -> Seq<JsonView> {
    Seq::new(a.len(), |i: int| json_view(a[i]))
}

/// A copy of a JSON node.
pub fn json_clone(n: &JsonNode) -> (r: JsonNode)
    ensures
        json_view(r) == json_view(*n),
    decreases n,
{
    match n {
        JsonNode::Object(t, s) => {
            let mut out: Vec<(String, JsonNode)> = Vec::new();
            let mut i: usize = 0;
            while i < t.len()
                invariant
                    i <= t@.len(),
                    *n == JsonNode::Object(*t, *s),
                    object_view(out@) == object_view(t@).take(i as int),
                decreases t.len() - i,
            {
                proof {
                    assert(*n == JsonNode::Object(*t, *s));
                    assert(decreases_to!(*n => (*n)->Object_0));
                    assert(decreases_to!(*t => t[i as int]));
                    assert(decreases_to!(t[i as int] => t[i as int].1));
                    assert(decreases_to!(*n => t[i as int].1));
                }
                let c = json_clone(&t[i].1);
                let ghost before = object_view(out@);
                out.push((owned(t[i].0.as_str()), c));
                assert(object_view(out@) =~= before.push(object_view(t@)[i as int]));
                assert(object_view(t@).take(i + 1) =~= object_view(t@).take(i as int).push(
                    object_view(t@)[i as int],
                ));
                i = i + 1;
            }
            assert(object_view(t@).take(t.len() as int) =~= object_view(t@));
            let r = owned(s.as_str());
            proof {
                lemma_object_view(out, r);
                lemma_object_view(*t, *s);
            }
            JsonNode::Object(out, r)
        },
        JsonNode::Array(a, s) => {
            let mut out: Vec<JsonNode> = Vec::new();
            let mut i: usize = 0;
            while i < a.len()
                invariant
                    i <= a@.len(),
                    *n == JsonNode::Array(*a, *s),
                    items_view(out@) == items_view(a@).take(i as int),
                decreases a.len() - i,
            {
                proof {
                    assert(*n == JsonNode::Array(*a, *s));
                    assert(decreases_to!(*n => (*n)->Array_0));
                    assert(decreases_to!(*a => a[i as int]));
                    assert(decreases_to!(*n => a[i as int]));
                }
                let c = json_clone(&a[i]);
                let ghost before = items_view(out@);
                out.push(c);
                assert(items_view(out@) =~= before.push(items_view(a@)[i as int]));
                assert(items_view(a@).take(i + 1) =~= items_view(a@).take(i as int).push(
                    items_view(a@)[i as int],
                ));
                i = i + 1;
            }
            assert(items_view(a@).take(a.len() as int) =~= items_view(a@));
            let r = owned(s.as_str());
            proof {
                lemma_array_view(out, r);
                lemma_array_view(*a, *s);
                assert(items_view(out@) =~= Seq::new(out@.len(), |i: int| json_view(out@[i])));
                assert(items_view(a@) =~= Seq::new(a@.len(), |i: int| json_view(a@[i])));
            }
            JsonNode::Array(out, r)
        },
        JsonNode::Text(s) => JsonNode::Text(owned(s.as_str())),
        JsonNode::Rendered(s) => JsonNode::Rendered(owned(s.as_str())),
    }
}

proof fn lemma_array_items(a: Vec<JsonNode>, r: String)
    ensures
        json_view(JsonNode::Array(a, r)) == JsonView::Array(items_view(a@), r@),
{
    lemma_array_view(a, r);
    assert(items_view(a@) =~= Seq::new(a@.len(), |i: int| json_view(a@[i])));
}

/// The entries `es` with key `k` set to `v`: in place where `k` first
/// sits, else added at the end.
pub open spec fn with_member(es: Seq<(Seq<char>, JsonView)>, k: Seq<char>, v: JsonView) -> Seq<
    (Seq<char>, JsonView),
> {
    let i = entry_index(es, k);
    if 0 <= i < es.len() {
        es.update(i, (k, v))
    } else {
        es.push((k, v))
    }
}

fn set_member(t: &mut Vec<(String, JsonNode)>, k: &str, v: JsonNode)
    ensures
        object_view(final(t)@) == with_member(object_view(old(t)@), k@, json_view(v)),
{
    let ghost tv = object_view(t@);
    let ghost vv = json_view(v);
    match find_entry(t, &chars_of(k)) {
        Some(i) => {
            let _ = t.remove(i);
            t.insert(i, (owned(k), v));
            assert(object_view(t@) =~= tv.update(i as int, (k@, vv)));
        },
        None => {
            t.push((owned(k), v));
            assert(object_view(t@) =~= tv.push((k@, vv)));
        },
    }
}

fn clone_entries(t: &Vec<(String, JsonNode)>) -> (r: Vec<(String, JsonNode)>)
    ensures
        object_view(r@) == object_view(t@),
{
    let mut out: Vec<(String, JsonNode)> = Vec::new();
    let mut i: usize = 0;
    while i < t.len()
        invariant
            i <= t@.len(),
            object_view(out@) == object_view(t@).take(i as int),
        decreases t.len() - i,
    {
        let c = json_clone(&t[i].1);
        let ghost before = object_view(out@);
        out.push((owned(t[i].0.as_str()), c));
        assert(object_view(out@) =~= before.push(object_view(t@)[i as int]));
        assert(object_view(t@).take(i + 1) =~= object_view(t@).take(i as int).push(
            object_view(t@)[i as int],
        ));
        i = i + 1;
    }
    assert(object_view(t@).take(t.len() as int) =~= object_view(t@));
    out
}

/// The hook glide adds, as the settings file holds it.
pub open spec fn glide_hook_json() -> JsonView {
    JsonView::Object(
        seq![
            ("type"@, JsonView::Text("command"@)),
            ("command"@, JsonView::Text(hook_command())),
            ("timeout"@, JsonView::Rendered("5"@)),
        ],
        Seq::empty(),
    )
}

/// The group glide adds, as the settings file holds it: an empty matcher
/// and its one hook.
pub open spec fn glide_group_json() -> JsonView {
    JsonView::Object(
        seq![
            ("matcher"@, JsonView::Text(Seq::empty())),
            ("hooks"@, JsonView::Array(seq![glide_hook_json()], Seq::empty())),
        ],
        Seq::empty(),
    )
}

fn glide_group_node() -> (r: JsonNode)
    ensures
        json_view(r) == glide_group_json(),
{
    proof {
        reveal_strlit("type");
        reveal_strlit("command");
        reveal_strlit("timeout");
        reveal_strlit("5");
        reveal_strlit("matcher");
        reveal_strlit("hooks");
    }
    let mut hook: Vec<(String, JsonNode)> = Vec::new();
    hook.push((owned("type"), JsonNode::Text(owned("command"))));
    hook.push((owned("command"), JsonNode::Text(owned(hook_command_text()))));
    hook.push((owned("timeout"), JsonNode::Rendered(owned("5"))));
    let hr = String::new();
    proof {
        lemma_object_view(hook, hr);
        assert(object_view(hook@) =~= seq![
            ("type"@, JsonView::Text("command"@)),
            ("command"@, JsonView::Text(hook_command())),
            ("timeout"@, JsonView::Rendered("5"@)),
        ]);
    }
    let hn = JsonNode::Object(hook, hr);
    let mut items: Vec<JsonNode> = Vec::new();
    items.push(hn);
    let ar = String::new();
    proof {
        lemma_array_items(items, ar);
        assert(items_view(items@) =~= seq![glide_hook_json()]);
    }
    let arr = JsonNode::Array(items, ar);
    let mut g: Vec<(String, JsonNode)> = Vec::new();
    g.push((owned("matcher"), JsonNode::Text(String::new())));
    g.push((owned("hooks"), arr));
    let gr = String::new();
    proof {
        lemma_object_view(g, gr);
        assert(object_view(g@) =~= seq![
            ("matcher"@, JsonView::Text(Seq::empty())),
            ("hooks"@, JsonView::Array(seq![glide_hook_json()], Seq::empty())),
        ]);
    }
    JsonNode::Object(g, gr)
}

/// The hooks a group from the file keeps: those the model points back to
/// (by place in `before`), in the model's order.
pub open spec fn kept_hooks(hs: Seq<EntryView>, before: Seq<JsonView>) -> Seq<JsonView>
    decreases hs.len(),
{
    if hs.len() == 0 {
        Seq::empty()
    } else {
        let r = kept_hooks(hs.drop_last(), before);
        match hs.last().1 {
            Some(i) => if i < before.len() {
                r.push(before[i as int])
            } else {
                r
            },
            None => r,
        }
    }
}

fn kept_hooks_exec(hs: &Vec<HookEntry>, before: &Vec<JsonNode>) -> (r: Vec<JsonNode>)
    ensures
        items_view(r@) == kept_hooks(entries_view(hs@), items_view(before@)),
{
    let ghost ev = entries_view(hs@);
    let ghost bv = items_view(before@);
    let mut out: Vec<JsonNode> = Vec::new();
    let mut m: usize = 0;
    assert(ev.take(0) =~= Seq::<EntryView>::empty());
    assert(items_view(out@) =~= Seq::<JsonView>::empty());
    while m < hs.len()
        invariant
            m <= hs@.len(),
            ev == entries_view(hs@),
            bv == items_view(before@),
            items_view(out@) == kept_hooks(ev.take(m as int), bv),
        decreases hs.len() - m,
    {
        assert(ev.take(m + 1).drop_last() =~= ev.take(m as int));
        assert(ev.take(m + 1).last() == ev[m as int]);
        let ghost prev = items_view(out@);
        match hs[m].origin {
            Some(i) => {
                if i < before.len() {
                    let c = json_clone(&before[i]);
                    out.push(c);
                    assert(items_view(out@) =~= prev.push(bv[i as int]));
                }
            },
            None => {},
        }
        m = m + 1;
    }
    assert(ev.take(hs.len() as int) =~= ev);
    out
}

/// The hooks a group of the file lists, none when it lists none.
pub open spec fn hooks_list(g: JsonView) -> Seq<JsonView> {
    match g {
        JsonView::Object(fs, _) => match member(fs, "hooks"@) {
            Some(JsonView::Array(a, _)) => a,
            _ => Seq::empty(),
        },
        _ => Seq::empty(),
    }
}

/// A group as the file will hold it: the one glide adds in full; one from
/// the file (at its place in `old`) as it was, but that a list of hooks
/// keeps only those the model kept; nothing where the place is not in
/// `old`.
pub open spec fn group_back(g: GroupView, old: Seq<JsonView>) -> Option<JsonView> {
    match g.1 {
        None => Some(glide_group_json()),
        Some(k) => if k < old.len() {
            let v = old[k as int];
            match g.0 {
                Some(hs) => match v {
                    JsonView::Object(fs, _) => Some(
                        JsonView::Object(
                            with_member(
                                fs,
                                "hooks"@,
                                JsonView::Array(kept_hooks(hs, hooks_list(v)), Seq::empty()),
                            ),
                            Seq::empty(),
                        ),
                    ),
                    _ => Some(v),
                },
                None => Some(v),
            }
        } else {
            None
        },
    }
}

fn group_back_exec(g: &HookGroup, old: &Vec<JsonNode>) -> (r: Option<JsonNode>)
    ensures
        opt_json_view(r) == group_back(group_view(*g), items_view(old@)),
{
    proof {
        reveal_strlit("hooks");
    }
    match g.origin {
        None => Some(glide_group_node()),
        Some(k) => {
            if k >= old.len() {
                return None;
            }
            let v = &old[k];
            match &g.hooks {
                Some(hs) => match v {
                    JsonNode::Object(fs, fr) => {
                        proof {
                            lemma_object_view(*fs, *fr);
                        }
                        let empty: Vec<JsonNode> = Vec::new();
                        let before: &Vec<JsonNode> = match member_exec(fs, "hooks") {
                            Some(JsonNode::Array(a, ar)) => {
                                proof {
                                    lemma_array_items(*a, *ar);
                                }
                                a
                            },
                            _ => &empty,
                        };
                        assert(items_view(before@) == hooks_list(json_view(*v)));
                        let kept = kept_hooks_exec(hs, before);
                        let mut entries = clone_entries(fs);
                        let kr = String::new();
                        proof {
                            lemma_array_items(kept, kr);
                        }
                        set_member(&mut entries, "hooks", JsonNode::Array(kept, kr));
                        let er = String::new();
                        proof {
                            lemma_object_view(entries, er);
                        }
                        Some(JsonNode::Object(entries, er))
                    },
                    _ => Some(json_clone(v)),
                },
                None => Some(json_clone(v)),
            }
        },
    }
}

/// The groups as the file will hold them, in the model's order.
pub open spec fn groups_back(gs: Seq<GroupView>, old: Seq<JsonView>) -> Seq<JsonView>
    decreases gs.len(),
{
    if gs.len() == 0 {
        Seq::empty()
    } else {
        let r = groups_back(gs.drop_last(), old);
        match group_back(gs.last(), old) {
            Some(v) => r.push(v),
            None => r,
        }
    }
}

/// The session-start list a settings file has, none when it has none.
pub open spec fn session_list(root: JsonView) -> Seq<JsonView> {
    match root {
        JsonView::Object(es, _) => match member(es, "hooks"@) {
            Some(JsonView::Object(hs, _)) => match member(hs, "SessionStart"@) {
                Some(JsonView::Array(gs, _)) => gs,
                _ => Seq::empty(),
            },
            _ => Seq::empty(),
        },
        _ => Seq::empty(),
    }
}

/// The settings with the session-start list the model settled on, under
/// `hooks` (made when missing), every other entry as it was. Settings with
/// nowhere to put the list, or a model with no list, are left as they are.
/// The objects and the list this builds carry no JSON text.
pub open spec fn with_hooks_spec(root: JsonView, h: HooksView) -> JsonView {
    match root {
        JsonView::Object(es, _) => match h {
            HooksView::Groups(gs) => {
                let list = JsonView::Array(groups_back(gs, session_list(root)), Seq::empty());
                match member(es, "hooks"@) {
                    None => JsonView::Object(
                        with_member(
                            es,
                            "hooks"@,
                            JsonView::Object(with_member(Seq::empty(), "SessionStart"@, list), Seq::empty()),
                        ),
                        Seq::empty(),
                    ),
                    Some(JsonView::Object(hs, _)) => JsonView::Object(
                        with_member(
                            es,
                            "hooks"@,
                            JsonView::Object(with_member(hs, "SessionStart"@, list), Seq::empty()),
                        ),
                        Seq::empty(),
                    ),
                    Some(_) => root,
                }
            },
            _ => root,
        },
        _ => root,
    }
}

/// Puts the session-start groups the model settled on back into the
/// settings, for the caller to write to the file.
pub fn settings_with_hooks(root: &JsonNode, h: &SessionHooks) -> (r: JsonNode)
    ensures
        json_view(r) == with_hooks_spec(json_view(*root), hooks_view(*h)),
{
    proof {
        reveal_strlit("hooks");
        reveal_strlit("SessionStart");
    }
    let gs = match h {
        SessionHooks::Groups(gs) => gs,
        _ => {
            return json_clone(root);
        },
    };
    let es = match root {
        JsonNode::Object(es, r) => {
            proof {
                lemma_object_view(*es, *r);
            }
            es
        },
        _ => {
            return json_clone(root);
        },
    };
    let empty: Vec<JsonNode> = Vec::new();
    let (mut inner, old) = match member_exec(es, "hooks") {
        None => {
            let v: Vec<(String, JsonNode)> = Vec::new();
            proof {
                assert(object_view(v@) =~= Seq::<(Seq<char>, JsonView)>::empty());
            }
            (v, &empty)
        },
        Some(JsonNode::Object(hs, hr)) => {
            proof {
                lemma_object_view(*hs, *hr);
            }
            let old: &Vec<JsonNode> = match member_exec(hs, "SessionStart") {
                Some(JsonNode::Array(a, ar)) => {
                    proof {
                        lemma_array_items(*a, *ar);
                    }
                    a
                },
                _ => &empty,
            };
            (clone_entries(hs), old)
        },
        Some(_) => {
            return json_clone(root);
        },
    };
    let ghost oldv = items_view(old@);
    assert(oldv == session_list(json_view(*root)));
    let ghost gv = groups_view(gs@);
    let mut list: Vec<JsonNode> = Vec::new();
    let mut j: usize = 0;
    assert(gv.take(0) =~= Seq::<GroupView>::empty());
    assert(items_view(list@) =~= Seq::<JsonView>::empty());
    while j < gs.len()
        invariant
            j <= gs@.len(),
            gv == groups_view(gs@),
            oldv == items_view(old@),
            items_view(list@) == groups_back(gv.take(j as int), oldv),
        decreases gs.len() - j,
    {
        assert(gv.take(j + 1).drop_last() =~= gv.take(j as int));
        assert(gv.take(j + 1).last() == gv[j as int]);
        let ghost prev = items_view(list@);
        match group_back_exec(&gs[j], old) {
            Some(v) => {
                let ghost vv = json_view(v);
                list.push(v);
                assert(items_view(list@) =~= prev.push(vv));
            },
            None => {},
        }
        j = j + 1;
    }
    assert(gv.take(gs.len() as int) =~= gv);
    let lr = String::new();
    proof {
        lemma_array_items(list, lr);
    }
    set_member(&mut inner, "SessionStart", JsonNode::Array(list, lr));
    let ir = String::new();
    proof {
        lemma_object_view(inner, ir);
    }
    let mut outer = clone_entries(es);
    set_member(&mut outer, "hooks", JsonNode::Object(inner, ir));
    let or = String::new();
    proof {
        lemma_object_view(outer, or);
    }
    JsonNode::Object(outer, or)
}

/// Where a key first sits: a place holding it with none before, or -1
/// when no entry holds it.
proof fn lemma_entry_index_facts(t: Seq<(Seq<char>, JsonView)>, k: Seq<char>)
    ensures
        -1 <= entry_index(t, k) < t.len(),
        entry_index(t, k) >= 0 ==> t[entry_index(t, k)].0 == k,
        forall|j: int| 0 <= j < t.len() && (entry_index(t, k) < 0 || j < entry_index(t, k)) ==> (#[trigger] t[j]).0 != k,
    decreases t.len(),
{
    if t.len() > 0 && t[0].0 != k {
        let d = t.drop_first();
        lemma_entry_index_facts(d, k);
        assert forall|j: int| 0 <= j < t.len() && (entry_index(t, k) < 0 || j < entry_index(t, k)) implies (#[trigger] t[j]).0 != k by {
            if j > 0 {
                assert(t[j] == d[j - 1]);
            }
        }
    }
}

/// Setting one key leaves what every other key reads.
proof fn lemma_member_other(es: Seq<(Seq<char>, JsonView)>, k0: Seq<char>, v: JsonView, k: Seq<char>)
    requires
        k != k0,
    ensures
        member(with_member(es, k0, v), k) == member(es, k),
{
    let t = with_member(es, k0, v);
    lemma_entry_index_facts(es, k);
    lemma_entry_index_facts(es, k0);
    let i = entry_index(es, k);
    assert forall|j: int| 0 <= j < es.len() implies (#[trigger] t[j]).0 != k || t[j] == es[j] by {}
    if i >= 0 {
        assert forall|j: int| 0 <= j < i implies (#[trigger] t[j]).0 != k by {
            assert(es[j].0 != k);
        }
        assert(t[i] == es[i]);
        lemma_entry_index(t, k, i);
    } else {
        assert forall|j: int| 0 <= j < t.len() implies (#[trigger] t[j]).0 != k by {
            if j < es.len() {
                assert(es[j].0 != k);
            }
        }
        lemma_entry_index(t, k, t.len() as int);
    }
}

/// The top-level entries of settings, none unless they are an object.
pub open spec fn top_entries(root: JsonView) -> Seq<(Seq<char>, JsonView)> {
    match root {
        JsonView::Object(es, _) => es,
        _ => Seq::empty(),
    }
}

/// The entries under `hooks`, none unless it is an object.
pub open spec fn hook_entries(root: JsonView) -> Seq<(Seq<char>, JsonView)> {
    match member(top_entries(root), "hooks"@) {
        Some(JsonView::Object(hs, _)) => hs,
        _ => Seq::empty(),
    }
}

/// Writing the hooks back changes no other setting: every top-level key
/// but `hooks`, and every key under `hooks` but `SessionStart` (such as the
/// lists of other hook events), reads as it did.
pub proof fn law_write_back_keeps_other_settings(root: JsonView, h: HooksView, k: Seq<char>)
    ensures
        k != "hooks"@ ==> member(top_entries(with_hooks_spec(root, h)), k) == member(top_entries(root), k),
        k != "SessionStart"@ ==> member(hook_entries(with_hooks_spec(root, h)), k) == member(
            hook_entries(root),
            k,
        ),
{
    if let JsonView::Object(es, _) = root {
        if let HooksView::Groups(gs) = h {
            let list = JsonView::Array(groups_back(gs, session_list(root)), Seq::empty());
            match member(es, "hooks"@) {
                None => {
                    let inner = with_member(Seq::empty(), "SessionStart"@, list);
                    let hv = JsonView::Object(inner, Seq::empty());
                    if k != "hooks"@ {
                        lemma_member_other(es, "hooks"@, hv, k);
                    }
                    lemma_member_found(es, "hooks"@, hv);
                    if k != "SessionStart"@ {
                        lemma_member_other(Seq::empty(), "SessionStart"@, list, k);
                    }
                },
                Some(JsonView::Object(hs, _)) => {
                    let inner = with_member(hs, "SessionStart"@, list);
                    let hv = JsonView::Object(inner, Seq::empty());
                    if k != "hooks"@ {
                        lemma_member_other(es, "hooks"@, hv, k);
                    }
                    lemma_member_found(es, "hooks"@, hv);
                    if k != "SessionStart"@ {
                        lemma_member_other(hs, "SessionStart"@, list, k);
                    }
                },
                Some(_) => {},
            }
        }
    }
}

/// Setting a key makes it read as the value set.
proof fn lemma_member_found(es: Seq<(Seq<char>, JsonView)>, k: Seq<char>, v: JsonView)
    ensures
        member(with_member(es, k, v), k) == Some(v),
{
    let t = with_member(es, k, v);
    lemma_entry_index_facts(es, k);
    let i = entry_index(es, k);
    if i >= 0 {
        assert forall|j: int| 0 <= j < i implies (#[trigger] t[j]).0 != k by {
            assert(es[j].0 != k);
        }
        lemma_entry_index(t, k, i);
    } else {
        assert forall|j: int| 0 <= j < es.len() implies (#[trigger] t[j]).0 != k by {
            assert(es[j].0 != k);
        }
        lemma_entry_index(t, k, es.len() as int);
    }
}

} // verus!
