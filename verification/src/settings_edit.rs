//! `config set` on a configuration file: a dotted key (`llm.anthropic.model`)
//! names a path of tables and a leaf; the tables on the way are made when
//! missing, and the leaf takes the value. The file is read, parsed and
//! written back by the caller; this is the write itself, on the document as
//! a tree.

use vstd::prelude::*;

use crate::config::{coerce, scalar_is, Scalar};
use crate::errors::GlideError;
use crate::text::{chars_of, parse_i64_spec, push_str, same, string_of, views};

verus! {

/// A node of a TOML document, as a dotted-key write sees it.
#[derive(Debug)]
pub enum TomlNode {
    /// A table: its keys and their values.
    Table(Vec<(String, TomlNode)>),
    /// Any other value the document held, as its TOML text.
    Other(String),
    /// A value written by a dotted key.
    Written(Scalar),
}

/// A written value as plain values.
pub enum ScalarView {
    Boolean(bool),
    Integer(i64),
    Text(Seq<char>),
}

/// A node as plain values.
pub enum NodeView {
    Table(Seq<(Seq<char>, NodeView)>),
    Other(Seq<char>),
    Written(ScalarView),
}

pub open spec fn scalar_view(s: Scalar) -> ScalarView {
    match s {
        Scalar::Boolean(b) => ScalarView::Boolean(b),
        Scalar::Integer(n) => ScalarView::Integer(n),
        Scalar::Text(t) => ScalarView::Text(t@),
    }
}

/// The value `config set` writes for the text `v`: `true` and `false` are
/// booleans, a decimal that fits in an `i64` an integer, anything else text.
pub open spec fn coerced(v: Seq<char>) -> ScalarView {
    if v == "true"@ {
        ScalarView::Boolean(true)
    } else if v == "false"@ {
        ScalarView::Boolean(false)
    } else {
        match parse_i64_spec(v) {
            Some(n) => ScalarView::Integer(n),
            None => ScalarView::Text(v),
        }
    }
}

pub open spec fn node_view(n: TomlNode) -> NodeView
    decreases n,
{
    match n {
        TomlNode::Table(t) => NodeView::Table(
            Seq::new(
                t@.len(),
                |i: int|
                    (
                        t@[i].0@,
                        if 0 <= i < t@.len() {
                            node_view(t@[i].1)
                        } else {
                            NodeView::Other(Seq::empty())
                        },
                    ),
            ),
        ),
        TomlNode::Other(k) => NodeView::Other(k@),
        TomlNode::Written(s) => NodeView::Written(scalar_view(s)),
    }
}

/// The entries of a table as plain values.
pub open spec fn table_view(t: Seq<(String, TomlNode)>) -> Seq<(Seq<char>, NodeView)> {
    Seq::new(t.len(), |i: int| (t[i].0@, node_view(t[i].1)))
}

proof fn lemma_table_view(t: Vec<(String, TomlNode)>)
    ensures
        node_view(TomlNode::Table(t)) == NodeView::Table(table_view(t@)),
{
    if let NodeView::Table(s) = node_view(TomlNode::Table(t)) {
        assert(s =~= table_view(t@));
    }
}

/// Where the key `k` sits among the entries, or -1.
pub open spec fn key_index(t: Seq<(Seq<char>, NodeView)>, k: Seq<char>) -> int
    decreases t.len(),
{
    if t.len() == 0 {
        -1
    } else if t[0].0 == k {
        0
    } else {
        let r = key_index(t.drop_first(), k);
        if r >= 0 {
            r + 1
        } else {
            -1
        }
    }
}

proof fn lemma_key_index(t: Seq<(Seq<char>, NodeView)>, k: Seq<char>, i: int)
    requires
        0 <= i <= t.len(),
        forall|j: int| 0 <= j < i ==> (#[trigger] t[j]).0 != k,
        i == t.len() || t[i].0 == k,
    ensures
        key_index(t, k) == (if i == t.len() {
            -1
        } else {
            i
        }),
    decreases i,
{
    if i > 0 {
        let d = t.drop_first();
        assert(t[0].0 != k);
        assert forall|j: int| 0 <= j < i - 1 implies (#[trigger] d[j]).0 != k by {
            assert(d[j] == t[j + 1]);
        }
        if i < t.len() {
            assert(d[i - 1] == t[i]);
        }
        lemma_key_index(d, k, i - 1);
    }
}

proof fn lemma_key_index_found(t: Seq<(Seq<char>, NodeView)>, k: Seq<char>)
    ensures
        -1 <= key_index(t, k) < t.len(),
        key_index(t, k) >= 0 ==> t[key_index(t, k)].0 == k,
    decreases t.len(),
{
    if t.len() > 0 && t[0].0 != k {
        lemma_key_index_found(t.drop_first(), k);
    }
}

/// The entries with `k` set to `v`: in place when the key is there,
/// otherwise added at the end.
pub open spec fn put(t: Seq<(Seq<char>, NodeView)>, k: Seq<char>, v: NodeView) -> Seq<(Seq<char>, NodeView)> {
    let i = key_index(t, k);
    if i >= 0 {
        t.update(i, (k, v))
    } else {
        t.push((k, v))
    }
}

/// Writing `v` at `parts` then `leaf` under the node `n`: every part names
/// a table to walk into (made empty when missing), and the leaf is set in
/// the last one. Walking into something that is not a table is an error
/// naming the part (or the leaf).
pub open spec fn written_at(n: NodeView, parts: Seq<Seq<char>>, leaf: Seq<char>, v: ScalarView) -> Result<
    NodeView,
    Seq<char>,
>
    decreases parts.len(),
{
    match n {
        NodeView::Table(t) => if parts.len() == 0 {
            Ok(NodeView::Table(put(t, leaf, NodeView::Written(v))))
        } else {
            let i = key_index(t, parts[0]);
            let child = if i >= 0 {
                t[i].1
            } else {
                NodeView::Table(Seq::empty())
            };
            match written_at(child, parts.drop_first(), leaf, v) {
                Ok(c) => Ok(NodeView::Table(put(t, parts[0], c))),
                Err(e) => Err(e),
            }
        },
        _ => Err(
            if parts.len() == 0 {
                "not a table at leaf"@
            } else {
                "not a table at "@ + parts[0]
            },
        ),
    }
}

/// `str::split('.')`: the pieces between dots, empty ones included.
pub open spec fn dotted(s: Seq<char>) -> Seq<Seq<char>>
    decreases s.len(),
{
    if s.len() == 0 {
        seq![Seq::empty()]
    } else {
        let r = dotted(s.drop_last());
        if s.last() == '.' {
            r.push(Seq::empty())
        } else {
            r.update(r.len() - 1, r.last().push(s.last()))
        }
    }
}

proof fn lemma_dotted_len(s: Seq<char>)
    ensures
        dotted(s).len() >= 1,
    decreases s.len(),
{
    if s.len() > 0 {
        lemma_dotted_len(s.drop_last());
    }
}

fn split_dots(s: &str) -> (r: Vec<Vec<char>>)
    ensures
        views(r@) == dotted(s@),
        r@.len() >= 1,
{
    let c = chars_of(s);
    let mut done: Vec<Vec<char>> = Vec::new();
    let mut cur: Vec<char> = Vec::new();
    let mut i: usize = 0;
    assert(c@.take(0) =~= Seq::<char>::empty());
    assert(views(done@).push(cur@) =~= dotted(c@.take(0)));
    while i < c.len()
        invariant
            i <= c@.len(),
            c@ == s@,
            views(done@).push(cur@) == dotted(c@.take(i as int)),
        decreases c.len() - i,
    {
        let ghost before = views(done@);
        let ghost pre = c@.take(i as int);
        assert(c@.take(i + 1).drop_last() =~= pre);
        assert(c@.take(i + 1).last() == c@[i as int]);
        if c[i] == '.' {
            let piece = cur;
            done.push(piece);
            cur = Vec::new();
            assert(views(done@) =~= before.push(piece@));
            assert(views(done@).push(cur@) =~= dotted(pre).push(Seq::empty()));
        } else {
            cur.push(c[i]);
            assert(views(done@).push(cur@) =~= dotted(pre).update(
                dotted(pre).len() - 1,
                dotted(pre).last().push(c@[i as int]),
            ));
        }
        i = i + 1;
    }
    assert(c@.take(c.len() as int) =~= c@);
    let ghost before = views(done@);
    done.push(cur);
    assert(views(done@) =~= before.push(cur@));
    done
}

fn find_key(t: &Vec<(String, TomlNode)>, k: &Vec<char>) -> (r: Option<usize>)
    ensures
        match r {
            Some(i) => i < t@.len() && key_index(table_view(t@), k@) == i,
            None => key_index(table_view(t@), k@) == -1,
        },
{
    let ghost tv = table_view(t@);
    let mut j: usize = 0;
    while j < t.len()
        invariant
            j <= t@.len(),
            tv == table_view(t@),
            forall|m: int| 0 <= m < j ==> (#[trigger] tv[m]).0 != k@,
        decreases t.len() - j,
    {
        if same(&chars_of(t[j].0.as_str()), k) {
            proof {
                lemma_key_index(tv, k@, j as int);
            }
            return Some(j);
        }
        j = j + 1;
    }
    proof {
        lemma_key_index(tv, k@, tv.len() as int);
    }
    None
}

fn put_in(t: &mut Vec<(String, TomlNode)>, k: &Vec<char>, v: TomlNode)
    ensures
        table_view(final(t)@) == put(table_view(old(t)@), k@, node_view(v)),
{
    let ghost tv = table_view(t@);
    let ghost vv = node_view(v);
    match find_key(t, k) {
        Some(i) => {
            let _ = t.remove(i);
            t.insert(i, (string_of(k), v));
            assert(table_view(t@) =~= tv.update(i as int, (k@, vv)));
        },
        None => {
            t.push((string_of(k), v));
            assert(table_view(t@) =~= tv.push((k@, vv)));
        },
    }
}

/// The error text when the node at `from` is not a table.
fn not_a_table(parts: &Vec<Vec<char>>, from: usize) -> (m: String)
    requires
        from <= parts.len(),
    ensures
        m@ == (if from == parts.len() {
            "not a table at leaf"@
        } else {
            "not a table at "@ + parts@[from as int]@
        }),
{
    let mut v: Vec<char> = Vec::new();
    if from == parts.len() {
        push_str(&mut v, "not a table at leaf");
    } else {
        push_str(&mut v, "not a table at ");
        let p = &parts[from];
        let mut j: usize = 0;
        let ghost start = v@;
        while j < p.len()
            invariant
                j <= p@.len(),
                v@ == start + p@.take(j as int),
            decreases p.len() - j,
        {
            v.push(p[j]);
            assert(p@.take(j + 1) =~= p@.take(j as int).push(p@[j as int]));
            j = j + 1;
        }
        assert(p@.take(p.len() as int) =~= p@);
    }
    string_of(&v)
}

/// Writes `v` under `node` at `parts[from..]` then `leaf`, giving back the
/// node as it now is; on an error the node comes back as it was.
fn write_at(node: TomlNode, parts: &Vec<Vec<char>>, from: usize, leaf: &Vec<char>, v: Scalar) -> (r: (
    TomlNode,
    Result<(), String>,
))
    requires
        from <= parts.len(),
    ensures
        match written_at(node_view(node), views(parts@).skip(from as int), leaf@, scalar_view(v)) {
            Ok(n) => r.1 is Ok && node_view(r.0) == n,
            Err(e) => (r.1 matches Err(m) && m@ == e) && node_view(r.0) == node_view(node),
        },
    decreases parts.len() - from,
{
    let ghost nv = node_view(node);
    let ghost rest = views(parts@).skip(from as int);
    match node {
        TomlNode::Table(mut t) => {
            proof {
                lemma_table_view(t);
            }
            let ghost tv = table_view(t@);
            if from == parts.len() {
                assert(rest.len() == 0);
                put_in(&mut t, leaf, TomlNode::Written(v));
                proof {
                    lemma_table_view(t);
                }
                (TomlNode::Table(t), Ok(()))
            } else {
                let p = &parts[from];
                assert(rest[0] == p@);
                assert(rest.drop_first() =~= views(parts@).skip(from + 1));
                match find_key(&t, p) {
                    Some(i) => {
                        let (k, child) = t.remove(i);
                        assert(tv[i as int] == (k@, node_view(child)));
                        let (nc, res) = write_at(child, parts, from + 1, leaf, v);
                        let ghost ncv = node_view(nc);
                        t.insert(i, (k, nc));
                        proof {
                            lemma_table_view(t);
                            lemma_key_index_found(tv, p@);
                        }
                        match res {
                            Ok(()) => {
                                assert(table_view(t@) =~= tv.update(i as int, (p@, ncv)));
                                (TomlNode::Table(t), Ok(()))
                            },
                            Err(m) => {
                                assert(table_view(t@) =~= tv);
                                (TomlNode::Table(t), Err(m))
                            },
                        }
                    },
                    None => {
                        let fresh: Vec<(String, TomlNode)> = Vec::new();
                        proof {
                            lemma_table_view(fresh);
                            assert(table_view(fresh@) =~= Seq::<(Seq<char>, NodeView)>::empty());
                        }
                        let (nc, res) = write_at(TomlNode::Table(fresh), parts, from + 1, leaf, v);
                        match res {
                            Ok(()) => {
                                let ghost ncv = node_view(nc);
                                t.push((string_of(p), nc));
                                proof {
                                    lemma_table_view(t);
                                }
                                assert(table_view(t@) =~= tv.push((p@, ncv)));
                                (TomlNode::Table(t), Ok(()))
                            },
                            Err(m) => {
                                proof {
                                    lemma_table_view(t);
                                }
                                (TomlNode::Table(t), Err(m))
                            },
                        }
                    },
                }
            }
        },
        other => {
            let m = not_a_table(parts, from);
            proof {
                if from < parts.len() {
                    assert(rest[0] == parts@[from as int]@);
                }
            }
            (other, Err(m))
        },
    }
}

/// Sets a dotted key in a configuration document: the pieces of the key
/// before its last dot name tables (made when missing), the last piece the
/// key, and the value is read as `config set` reads it. When a piece names
/// something that is not a table, the document is left as it was and the
/// error names the piece.
pub fn apply_dotted(doc: &mut TomlNode, key: &str, value: &str) -> (r: Result<(), GlideError>)
    ensures
        match written_at(
            node_view(*old(doc)),
            dotted(key@).drop_last(),
            dotted(key@).last(),
            coerced(value@),
        ) {
            Ok(n) => r is Ok && node_view(*final(doc)) == n,
            Err(e) => (r matches Err(GlideError::Config(m)) && m@ == e) && node_view(*final(doc))
                == node_view(*old(doc)),
        },
{
    let mut parts = split_dots(key);
    let ghost all = views(parts@);
    let leaf = parts.pop().unwrap();
    assert(views(parts@) =~= all.drop_last());
    assert(leaf@ == all.last());
    assert(views(parts@).skip(0) =~= views(parts@));
    let v = coerce(value);
    proof {
        reveal_strlit("true");
        reveal_strlit("false");
        assert(scalar_view(v) == coerced(value@));
    }
    let mut taken = TomlNode::Table(Vec::new());
    core::mem::swap(doc, &mut taken);
    let (node, res) = write_at(taken, &parts, 0, &leaf, v);
    *doc = node;
    match res {
        Ok(()) => Ok(()),
        Err(m) => Err(GlideError::Config(m)),
    }
}

/// A JSON value as the library reads it: objects with their entries,
/// arrays with their items, strings, and any other value; objects, arrays
/// and other values carry the JSON text they are written as (empty for the
/// objects and lists the library builds itself).
#[derive(Debug)]
pub enum JsonNode {
    Object(Vec<(String, JsonNode)>, String),
    Array(Vec<JsonNode>, String),
    Text(String),
    Rendered(String),
}

/// A JSON node as plain values.
pub enum JsonView {
    Object(Seq<(Seq<char>, JsonView)>, Seq<char>),
    Array(Seq<JsonView>, Seq<char>),
    Text(Seq<char>),
    Rendered(Seq<char>),
}

pub open spec fn json_view(n: JsonNode) -> JsonView
    decreases n,
{
    match n {
        JsonNode::Object(t, r) => JsonView::Object(
            Seq::new(
                t@.len(),
                |i: int|
                    (
                        t@[i].0@,
                        if 0 <= i < t@.len() {
                            json_view(t@[i].1)
                        } else {
                            JsonView::Rendered(Seq::empty())
                        },
                    ),
            ),
            r@,
        ),
        JsonNode::Array(a, r) => JsonView::Array(
            Seq::new(
                a@.len(),
                |i: int|
                    if 0 <= i < a@.len() {
                        json_view(a@[i])
                    } else {
                        JsonView::Rendered(Seq::empty())
                    },
            ),
            r@,
        ),
        JsonNode::Text(s) => JsonView::Text(s@),
        JsonNode::Rendered(r) => JsonView::Rendered(r@),
    }
}

/// The entries of an object as plain values.
pub open spec fn object_view(t: Seq<(String, JsonNode)>) -> Seq<(Seq<char>, JsonView)> {
    Seq::new(t.len(), |i: int| (t[i].0@, json_view(t[i].1)))
}

pub proof fn lemma_object_view(t: Vec<(String, JsonNode)>, r: String)
    ensures
        json_view(JsonNode::Object(t, r)) == JsonView::Object(object_view(t@), r@),
{
    if let JsonView::Object(s, _) = json_view(JsonNode::Object(t, r)) {
        assert(s =~= object_view(t@));
    }
}

/// Where the key `k` first sits among the entries, or -1.
pub open spec fn entry_index(t: Seq<(Seq<char>, JsonView)>, k: Seq<char>) -> int
    decreases t.len(),
{
    if t.len() == 0 {
        -1
    } else if t[0].0 == k {
        0
    } else {
        let r = entry_index(t.drop_first(), k);
        if r >= 0 {
            r + 1
        } else {
            -1
        }
    }
}

pub proof fn lemma_entry_index(t: Seq<(Seq<char>, JsonView)>, k: Seq<char>, i: int)
    requires
        0 <= i <= t.len(),
        forall|j: int| 0 <= j < i ==> (#[trigger] t[j]).0 != k,
        i == t.len() || t[i].0 == k,
    ensures
        entry_index(t, k) == (if i == t.len() {
            -1
        } else {
            i
        }),
    decreases i,
{
    if i > 0 {
        let d = t.drop_first();
        assert(t[0].0 != k);
        assert forall|j: int| 0 <= j < i - 1 implies (#[trigger] d[j]).0 != k by {
            assert(d[j] == t[j + 1]);
        }
        if i < t.len() {
            assert(d[i - 1] == t[i]);
        }
        lemma_entry_index(d, k, i - 1);
    }
}

/// What a node reads as: a string as itself, anything else as its JSON.
pub open spec fn read_as(n: JsonView) -> Seq<char> {
    match n {
        JsonView::Object(_, r) => r,
        JsonView::Array(_, r) => r,
        JsonView::Text(s) => s,
        JsonView::Rendered(r) => r,
    }
}

/// The value at `parts` under `n`: each part an entry of an object; a part
/// that is missing, or that asks into something not an object, finds
/// nothing.
pub open spec fn found_at(n: JsonView, parts: Seq<Seq<char>>) -> Option<Seq<char>>
    decreases parts.len(),
{
    if parts.len() == 0 {
        Some(read_as(n))
    } else {
        match n {
            JsonView::Object(t, _) => {
                let i = entry_index(t, parts[0]);
                if i >= 0 && i < t.len() {
                    found_at(t[i].1, parts.drop_first())
                } else {
                    None
                }
            },
            _ => None,
        }
    }
}

pub(crate) fn find_entry(t: &Vec<(String, JsonNode)>, k: &Vec<char>) -> (r: Option<usize>)
    ensures
        match r {
            Some(i) => i < t@.len() && entry_index(object_view(t@), k@) == i,
            None => entry_index(object_view(t@), k@) == -1,
        },
{
    let ghost tv = object_view(t@);
    let mut j: usize = 0;
    while j < t.len()
        invariant
            j <= t@.len(),
            tv == object_view(t@),
            forall|m: int| 0 <= m < j ==> (#[trigger] tv[m]).0 != k@,
        decreases t.len() - j,
    {
        if same(&chars_of(t[j].0.as_str()), k) {
            proof {
                lemma_entry_index(tv, k@, j as int);
            }
            return Some(j);
        }
        j = j + 1;
    }
    proof {
        lemma_entry_index(tv, k@, tv.len() as int);
    }
    None
}

/// Reads a dotted key (`llm.anthropic.model`) off the configuration: a
/// string as itself, any other value as its JSON, nothing when a piece of
/// the key is missing.
pub fn lookup(root: &JsonNode, key: &str) -> (r: Option<String>)
    ensures
        match found_at(json_view(*root), dotted(key@)) {
            Some(s) => r matches Some(x) && x@ == s,
            None => r is None,
        },
{
    let parts = split_dots(key);
    let ghost all = views(parts@);
    let mut cur: &JsonNode = root;
    let mut j: usize = 0;
    assert(all.skip(0) =~= all);
    while j < parts.len()
        invariant
            j <= parts@.len(),
            all == views(parts@),
            all == dotted(key@),
            found_at(json_view(*root), all) == found_at(json_view(*cur), all.skip(j as int)),
        decreases parts.len() - j,
    {
        let ghost rest = all.skip(j as int);
        assert(rest[0] == parts@[j as int]@);
        assert(rest.drop_first() =~= all.skip(j + 1));
        match cur {
            JsonNode::Object(t, r) => {
                proof {
                    lemma_object_view(*t, *r);
                }
                let ghost tv = object_view(t@);
                let p = &parts[j];
                let hit = find_entry(t, p);
                match hit {
                    Some(i) => {
                        cur = &t[i].1;
                    },
                    None => {
                        return None;
                    },
                }
            },
            _ => {
                return None;
            },
        }
        j = j + 1;
    }
    assert(all.skip(parts.len() as int) =~= Seq::<Seq<char>>::empty());
    match cur {
        JsonNode::Object(_, r) => Some(crate::text::owned(r.as_str())),
        JsonNode::Array(_, r) => Some(crate::text::owned(r.as_str())),
        JsonNode::Text(s) => Some(crate::text::owned(s.as_str())),
        JsonNode::Rendered(r) => Some(crate::text::owned(r.as_str())),
    }
}

/// The node at `path` under `n`, each piece an entry of a table.
pub open spec fn node_at(n: NodeView, path: Seq<Seq<char>>) -> Option<NodeView>
    decreases path.len(),
{
    if path.len() == 0 {
        Some(n)
    } else {
        match n {
            NodeView::Table(t) => {
                let i = key_index(t, path[0]);
                if 0 <= i < t.len() {
                    node_at(t[i].1, path.drop_first())
                } else {
                    None
                }
            },
            _ => None,
        }
    }
}

proof fn lemma_key_index_first(t: Seq<(Seq<char>, NodeView)>, k: Seq<char>)
    ensures
        key_index(t, k) >= 0 ==> forall|j: int| 0 <= j < key_index(t, k) ==> (#[trigger] t[j]).0 != k,
        key_index(t, k) == -1 ==> forall|j: int| 0 <= j < t.len() ==> (#[trigger] t[j]).0 != k,
    decreases t.len(),
{
    if t.len() > 0 && t[0].0 != k {
        let d = t.drop_first();
        lemma_key_index_first(d, k);
        lemma_key_index_found(t, k);
        if key_index(t, k) >= 0 {
            assert forall|j: int| 0 <= j < key_index(t, k) implies (#[trigger] t[j]).0 != k by {
                if j > 0 {
                    assert(t[j] == d[j - 1]);
                }
            }
        } else {
            assert forall|j: int| 0 <= j < t.len() implies (#[trigger] t[j]).0 != k by {
                if j > 0 {
                    assert(t[j] == d[j - 1]);
                }
            }
        }
    }
}

proof fn lemma_put_found(t: Seq<(Seq<char>, NodeView)>, k: Seq<char>, v: NodeView)
    ensures
        0 <= key_index(put(t, k, v), k) < put(t, k, v).len(),
        put(t, k, v)[key_index(put(t, k, v), k)] == (k, v),
{
    lemma_key_index_found(t, k);
    lemma_key_index_first(t, k);
    let i = key_index(t, k);
    let r = put(t, k, v);
    if i >= 0 {
        assert forall|j: int| 0 <= j < i implies (#[trigger] r[j]).0 != k by {
            assert(r[j] == t[j]);
        }
        lemma_key_index(r, k, i);
    } else {
        assert forall|j: int| 0 <= j < t.len() implies (#[trigger] r[j]).0 != k by {
            assert(r[j] == t[j]);
        }
        lemma_key_index(r, k, t.len() as int);
    }
}

/// Reading back a write: after a dotted key is set, the node at that key
/// is the value written.
pub proof fn law_written_value_reads_back(n: NodeView, parts: Seq<Seq<char>>, leaf: Seq<char>, v: ScalarView)
    requires
        written_at(n, parts, leaf, v) is Ok,
    ensures
        node_at(written_at(n, parts, leaf, v)->Ok_0, parts.push(leaf)) == Some(NodeView::Written(v)),
    decreases parts.len(),
{
    if let NodeView::Table(t) = n {
        let path = parts.push(leaf);
        if parts.len() == 0 {
            let w = NodeView::Written(v);
            lemma_put_found(t, leaf, w);
            let r = put(t, leaf, w);
            assert(written_at(n, parts, leaf, v) == Ok::<NodeView, Seq<char>>(NodeView::Table(r)));
            assert(path.drop_first() =~= Seq::<Seq<char>>::empty());
            assert(path[0] == leaf);
            let i = key_index(r, leaf);
            assert(r[i].1 == w);
            assert(node_at(w, path.drop_first()) == Some(w));
        } else {
            lemma_key_index_found(t, parts[0]);
            let i = key_index(t, parts[0]);
            let child = if i >= 0 {
                t[i].1
            } else {
                NodeView::Table(Seq::empty())
            };
            law_written_value_reads_back(child, parts.drop_first(), leaf, v);
            let c = written_at(child, parts.drop_first(), leaf, v)->Ok_0;
            lemma_put_found(t, parts[0], c);
            let r = put(t, parts[0], c);
            assert(written_at(n, parts, leaf, v) == Ok::<NodeView, Seq<char>>(NodeView::Table(r)));
            assert(path[0] == parts[0]);
            assert(path.drop_first() =~= parts.drop_first().push(leaf));
            let j = key_index(r, parts[0]);
            assert(r[j].1 == c);
        }
    }
}

/// Declares `toml::Value` so the parse and the render below can convert it.
#[verifier::external_type_specification]
#[verifier::external_body]
pub struct ExTomlValue(toml::Value);

/// A TOML value as the library's tree: tables as tables, any other value
/// as its TOML text (`Display`).
#[verifier::external_body]
fn node_of_toml(v: toml::Value) -> TomlNode {
    match v {
        toml::Value::Table(m) => TomlNode::Table(m.into_iter().map(|(k, v)| (k, node_of_toml(v))).collect()),
        other => TomlNode::Other(other.to_string()),
    }
}

/// The library's tree as a TOML value: another value's text is read back
/// as the value it was written from.
#[verifier::external_body]
fn toml_of_node(n: &TomlNode) -> toml::Value {
    match n {
        TomlNode::Table(t) => toml::Value::Table(t.iter().map(|(k, v)| (k.clone(), toml_of_node(v))).collect()),
        TomlNode::Other(text) => format!("v = {text}").parse::<toml::Table>().ok().and_then(|mut t| t.remove("v"))
            .unwrap_or_else(|| toml::Value::String(text.clone())),
        TomlNode::Written(Scalar::Boolean(b)) => toml::Value::Boolean(*b),
        TomlNode::Written(Scalar::Integer(i)) => toml::Value::Integer(*i),
        TomlNode::Written(Scalar::Text(t)) => toml::Value::String(t.clone()),
    }
}

/// What `str::parse::<toml::Value>` makes of a file's text, as plain
/// values, or the text of its error.
pub uninterp spec fn toml_parsed(text: Seq<char>) -> Result<NodeView, Seq<char>>;

/// What `toml::to_string_pretty` writes for a document, or the text of its
/// error.
pub uninterp spec fn toml_rendered(doc: NodeView) -> Result<Seq<char>, Seq<char>>;

/// Calls `str::parse::<toml::Value>` on a configuration file's text and
/// converts the value (`node_of_toml`).
///
/// Trusted: the result is `toml_parsed` of the text; an error is the
/// parser's message. It claims nothing of what a given text parses to.
#[verifier::external_body]
fn parse_toml(text: &str) -> (r: Result<TomlNode, String>)
    ensures
        match r {
            Ok(n) => toml_parsed(text@) == Ok::<NodeView, Seq<char>>(node_view(n)),
            Err(e) => toml_parsed(text@) == Err::<NodeView, Seq<char>>(e@),
        },
{
    text.parse::<toml::Value>().map(node_of_toml).map_err(|e| e.to_string())
}

/// Converts the document (`toml_of_node`) and calls `toml::to_string_pretty`.
///
/// Trusted: the result is `toml_rendered` of the document; an error is the
/// serializer's message. It claims nothing of the text for a given document.
#[verifier::external_body]
fn render_toml(doc: &TomlNode) -> (r: Result<String, String>)
    ensures
        match r {
            Ok(t) => toml_rendered(node_view(*doc)) == Ok::<Seq<char>, Seq<char>>(t@),
            Err(e) => toml_rendered(node_view(*doc)) == Err::<Seq<char>, Seq<char>>(e@),
        },
{
    toml::to_string_pretty(&toml_of_node(doc)).map_err(|e| e.to_string())
}

/// `config set` on a configuration file's text: the text parsed, the
/// dotted key written, the document rendered again. Each failure is a
/// configuration error: the parse's naming the file (`shown`), the write's
/// naming the piece that is not a table, the render's.
pub open spec fn set_text_spec(shown: Seq<char>, text: Seq<char>, key: Seq<char>, value: Seq<char>) -> Result<
    Seq<char>,
    Seq<char>,
> {
    match toml_parsed(text) {
        Err(e) => Err("parsing "@ + shown + ": "@ + e),
        Ok(doc) => match written_at(doc, dotted(key).drop_last(), dotted(key).last(), coerced(value)) {
            Err(e) => Err(e),
            Ok(d) => match toml_rendered(d) {
                Err(e) => Err("rendering toml: "@ + e),
                Ok(t) => Ok(t),
            },
        },
    }
}

/// Sets a dotted key in a configuration file's text, keeping everything
/// else, and gives the new text.
pub fn set_in_text(shown: &str, text: &str, key: &str, value: &str) -> (r: Result<String, GlideError>)
    ensures
        match set_text_spec(shown@, text@, key@, value@) {
            Ok(t) => r matches Ok(x) && x@ == t,
            Err(m) => r matches Err(GlideError::Config(x)) && x@ == m,
        },
{
    let mut doc = match parse_toml(text) {
        Ok(d) => d,
        Err(e) => {
            let mut v: Vec<char> = Vec::new();
            push_str(&mut v, "parsing ");
            push_str(&mut v, shown);
            push_str(&mut v, ": ");
            push_str(&mut v, e.as_str());
            return Err(GlideError::Config(string_of(&v)));
        },
    };
    match apply_dotted(&mut doc, key, value) {
        Ok(()) => {},
        Err(e) => {
            return Err(e);
        },
    }
    match render_toml(&doc) {
        Ok(t) => Ok(t),
        Err(e) => {
            let mut v: Vec<char> = Vec::new();
            push_str(&mut v, "rendering toml: ");
            push_str(&mut v, e.as_str());
            Err(GlideError::Config(string_of(&v)))
        },
    }
}

} // verus!
