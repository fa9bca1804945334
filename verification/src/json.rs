//! JSON as the library reads it: a plain tree of owned values, as `serde_json`
//! parses it, and JSON string literals, as its serializer writes them.

use vstd::prelude::*;
use serde_json::Value;

verus! {

#[verifier::external_type_specification]
#[verifier::external_body]
pub struct ExJsonValue(serde_json::Value);

/// One JSON value.
#[derive(Debug, PartialEq)]
pub enum JsonNode {
    Null,
    Bool(bool),
    /// A number, as `serde_json` prints it.
    Number(String),
    Str(String),
    Array(Vec<JsonNode>),
    /// Members in the order `serde_json`'s map yields them; keys are unique.
    Object(Vec<(String, JsonNode)>),
}

/// A JSON value as mathematics: what a [`JsonNode`] holds, strings as
/// character sequences.
pub enum JsonView {
    Null,
    Bool(bool),
    Number(Seq<char>),
    Str(Seq<char>),
    Array(Seq<JsonView>),
    Object(Seq<(Seq<char>, JsonView)>),
}

/// The view of a node.
pub open spec fn node_view(n: JsonNode) -> JsonView
    decreases n,
{
    match n {
        JsonNode::Null => JsonView::Null,
        JsonNode::Bool(b) => JsonView::Bool(b),
        JsonNode::Number(t) => JsonView::Number(t@),
        JsonNode::Str(s) => JsonView::Str(s@),
        JsonNode::Array(items) => JsonView::Array(nodes_view(items@)),
        JsonNode::Object(members) => JsonView::Object(members_view(members@)),
    }
}

/// The views of a sequence of nodes.
pub open spec fn nodes_view(items: Seq<JsonNode>) -> Seq<JsonView>
    decreases items,
{
    if items.len() == 0 {
        Seq::empty()
    } else {
        nodes_view(items.drop_last()).push(node_view(items.last()))
    }
}

/// The views of an object's members.
pub open spec fn members_view(members: Seq<(String, JsonNode)>) -> Seq<(Seq<char>, JsonView)>
    decreases members,
{
    if members.len() == 0 {
        Seq::empty()
    } else {
        members_view(members.drop_last()).push((members.last().0@, node_view(members.last().1)))
    }
}

impl View for JsonNode {
    type V = JsonView;

    open spec fn view(&self) -> JsonView {
        node_view(*self)
    }
}

/// What `serde_json` parses `text` into, when it parses at all.
pub uninterp spec fn json_document(text: Seq<char>) -> Option<JsonNode>;

/// A lowercase hexadecimal digit.
pub open spec fn hex_digit(d: nat) -> char {
    if d < 10 {
        ((d + 48) as u32) as char
    } else {
        ((d + 87) as u32) as char
    }
}

/// How `serde_json` writes one character inside a string literal: a quote
/// and a backslash behind a backslash, the five control characters that
/// have one by their short escape, any other control character below
/// U+0020 as `\u00` and two hex digits, and everything else as itself.
pub open spec fn escaped_char(c: char) -> Seq<char> {
    if c == '"' {
        seq!['\\', '"']
    } else if c == '\\' {
        seq!['\\', '\\']
    } else if c == '\u{08}' {
        seq!['\\', 'b']
    } else if c == '\t' {
        seq!['\\', 't']
    } else if c == '\n' {
        seq!['\\', 'n']
    } else if c == '\u{0c}' {
        seq!['\\', 'f']
    } else if c == '\r' {
        seq!['\\', 'r']
    } else if (c as u32) < 0x20 {
        seq!['\\', 'u', '0', '0', hex_digit((c as u32 / 16) as nat), hex_digit((c as u32 % 16) as nat)]
    } else {
        seq![c]
    }
}

/// Every character of `s`, escaped.
pub open spec fn escaped(s: Seq<char>) -> Seq<char>
    decreases s.len(),
{
    if s.len() == 0 {
        Seq::empty()
    } else {
        escaped(s.drop_last()) + escaped_char(s.last())
    }
}

/// What `serde_json` serializes the string `s` as: the escaped characters
/// between double quotes.
pub open spec fn json_string_literal(s: Seq<char>) -> Seq<char> {
    seq!['"'] + escaped(s) + seq!['"']
}

/// `serde_json::from_str::<serde_json::Value>`, its result converted into a
/// [`JsonNode`]. Claims only that the result is a function of the text.
#[verifier::external_body]
pub fn parse_json(text: &str) -> (r: Option<JsonNode>)
    ensures
        r == json_document(text@),
{
    serde_json::from_str::<serde_json::Value>(text).ok().map(node_of)
}

/// Converts `serde_json`'s value into a [`JsonNode`], one variant for one.
#[verifier::external_body]
fn node_of(value: serde_json::Value) -> JsonNode {
    match value {
        Value::Null => JsonNode::Null,
        Value::Bool(b) => JsonNode::Bool(b),
        Value::Number(n) => JsonNode::Number(n.to_string()),
        Value::String(s) => JsonNode::Str(s),
        Value::Array(items) => JsonNode::Array(items.into_iter().map(node_of).collect()),
        Value::Object(map) => JsonNode::Object(
            map.into_iter().map(|(k, v)| (k, node_of(v))).collect(),
        ),
    }
}

/// `serde_json::to_string` of a string: the quoted literal, each character
/// escaped as [`escaped_char`] says, which is what its serializer's escape
/// table does. Serializing a `&str` cannot fail.
#[verifier::external_body]
pub fn string_literal(s: &str) -> (r: String)
    ensures
        r@ == json_string_literal(s@),
{
    serde_json::to_string(s).unwrap_or_default()
}

/// The member `key` of an object, when `node` is an object holding one.
pub open spec fn member(node: JsonNode, key: Seq<char>) -> Option<JsonNode> {
    match node {
        JsonNode::Object(members) => member_in(members@, key),
        _ => None,
    }
}

/// The first member named `key`.
pub open spec fn member_in(members: Seq<(String, JsonNode)>, key: Seq<char>) -> Option<JsonNode>
    decreases members.len(),
{
    if members.len() == 0 {
        None
    } else if members[0].0@ == key {
        Some(members[0].1)
    } else {
        member_in(members.drop_first(), key)
    }
}

/// The string a node holds, when it is a string.
pub open spec fn as_text(node: Option<JsonNode>) -> Option<Seq<char>> {
    match node {
        Some(JsonNode::Str(s)) => Some(s@),
        _ => None,
    }
}

/// Looks `key` up in an object node.
pub fn get_member<'a>(node: &'a JsonNode, key: &str) -> (r: Option<&'a JsonNode>)
    ensures
        r is Some == member(*node, key@) is Some,
        r matches Some(v) ==> member(*node, key@) == Some(*v),
{
    match node {
        JsonNode::Object(members) => {
            let mut i: usize = 0;
            assert(members@.skip(0) =~= members@);
            while i < members.len()
                invariant
                    i <= members.len(),
                    member_in(members@, key@) == member_in(members@.skip(i as int), key@),
                    member(*node, key@) == member_in(members@, key@),
                decreases members.len() - i,
            {
                assert(members@.skip(i as int).drop_first() =~= members@.skip(i as int + 1));
                assert(members@.skip(i as int)[0] == members@[i as int]);
                if crate::text::text_eq(members[i].0.as_str(), key) {
                    return Some(&members[i].1);
                }
                i = i + 1;
            }
            None
        },
        _ => None,
    }
}

/// A copy of a node, value for value.
pub fn copy_node(n: &JsonNode) -> (r: JsonNode)
    ensures
        r@ == n@,
    decreases n,
{
    match n {
        JsonNode::Null => JsonNode::Null,
        JsonNode::Bool(b) => JsonNode::Bool(*b),
        JsonNode::Number(t) => JsonNode::Number(t.clone()),
        JsonNode::Str(t) => JsonNode::Str(t.clone()),
        JsonNode::Array(items) => {
            let mut out: Vec<JsonNode> = Vec::new();
            let mut i: usize = 0;
            while i < items.len()
                invariant
                    i <= items.len(),
                    nodes_view(out@) == nodes_view(items@.take(i as int)),
                    *n == JsonNode::Array(*items),
                decreases items.len() - i,
            {
                assert(decreases_to!(*n => n->Array_0));
                assert(decreases_to!(*items => items@));
                assert(decreases_to!(items@ => items@[i as int]));
                let c = copy_node(&items[i]);
                let ghost prev = out@;
                out.push(c);
                assert(out@.drop_last() =~= prev);
                assert(items@.take(i as int + 1).drop_last() =~= items@.take(i as int));
                i = i + 1;
            }
            assert(items@.take(i as int) =~= items@);
            JsonNode::Array(out)
        },
        JsonNode::Object(members) => {
            let mut out: Vec<(String, JsonNode)> = Vec::new();
            let mut i: usize = 0;
            while i < members.len()
                invariant
                    i <= members.len(),
                    members_view(out@) == members_view(members@.take(i as int)),
                    *n == JsonNode::Object(*members),
                decreases members.len() - i,
            {
                assert(decreases_to!(*n => n->Object_0));
                assert(decreases_to!(*members => members@));
                assert(decreases_to!(members@ => members@[i as int]));
                assert(decreases_to!(members@[i as int] => members@[i as int].1));
                let c = copy_node(&members[i].1);
                let ghost prev = out@;
                out.push((members[i].0.clone(), c));
                assert(out@.drop_last() =~= prev);
                assert(members@.take(i as int + 1).drop_last() =~= members@.take(i as int));
                i = i + 1;
            }
            assert(members@.take(i as int) =~= members@);
            JsonNode::Object(out)
        },
    }
}

// ------------------------------------------------------------------ fields

/// An object's members by name, in the order they were added; what
/// passthrough bags and unmodeled wire fields are kept as.
pub type Fields = Vec<(String, JsonNode)>;

/// What fields hold, as mathematics.
pub type FieldsView = Seq<(Seq<char>, JsonView)>;

/// The view of an optional node.
pub open spec fn opt_json(o: Option<JsonNode>) -> Option<JsonView> {
    match o {
        Some(n) => Some(n@),
        None => None,
    }
}

/// Adding a member adds its view.
pub proof fn lemma_members_push(s: Seq<(String, JsonNode)>, k: String, v: JsonNode)
    ensures
        members_view(s.push((k, v))) == members_view(s).push((k@, v@)),
{
    assert(s.push((k, v)).drop_last() =~= s);
}

/// The value of the first member named `k`.
pub open spec fn fget(fs: Seq<(Seq<char>, JsonView)>, k: Seq<char>) -> Option<JsonView>
    decreases fs.len(),
{
    if fs.len() == 0 {
        None
    } else {
        match fget(fs.drop_last(), k) {
            Some(v) => Some(v),
            None => if fs.last().0 == k {
                Some(fs.last().1)
            } else {
                None
            },
        }
    }
}

/// The index of the first member named `k`.
pub open spec fn findex(fs: Seq<(Seq<char>, JsonView)>, k: Seq<char>) -> Option<int>
    decreases fs.len(),
{
    if fs.len() == 0 {
        None
    } else {
        match findex(fs.drop_last(), k) {
            Some(i) => Some(i),
            None => if fs.last().0 == k {
                Some(fs.len() - 1)
            } else {
                None
            },
        }
    }
}

/// The members not named `k`, in order.
pub open spec fn fremove(fs: Seq<(Seq<char>, JsonView)>, k: Seq<char>) -> Seq<(Seq<char>, JsonView)>
    decreases fs.len(),
{
    if fs.len() == 0 {
        Seq::empty()
    } else if fs.last().0 == k {
        fremove(fs.drop_last(), k)
    } else {
        fremove(fs.drop_last(), k).push(fs.last())
    }
}

/// `fs` with `k` set to `v`: in place where `k` is already a member, else
/// added at the end.
pub open spec fn finsert(fs: Seq<(Seq<char>, JsonView)>, k: Seq<char>, v: JsonView) -> Seq<(Seq<char>, JsonView)> {
    match findex(fs, k) {
        Some(i) => fs.update(i, (k, v)),
        None => fs.push((k, v)),
    }
}

/// `fs` with every member of `more` set, in order.
pub open spec fn fextend(fs: Seq<(Seq<char>, JsonView)>, more: Seq<(Seq<char>, JsonView)>) -> Seq<(Seq<char>, JsonView)>
    decreases more.len(),
{
    if more.len() == 0 {
        fs
    } else {
        let r = fextend(fs, more.drop_last());
        finsert(r, more.last().0, more.last().1)
    }
}

/// The view of fields.
pub open spec fn fields_view(fs: Seq<(String, JsonNode)>) -> Seq<(Seq<char>, JsonView)> {
    members_view(fs)
}

pub proof fn lemma_members_view(s: Seq<(String, JsonNode)>)
    ensures
        members_view(s).len() == s.len(),
        forall|i: int| 0 <= i < s.len() ==> #[trigger] members_view(s)[i] == (s[i].0@, node_view(s[i].1)),
    decreases s.len(),
{
    if s.len() > 0 {
        lemma_members_view(s.drop_last());
    }
}

proof fn lemma_members_view_ext(a: Seq<(String, JsonNode)>, b: Seq<(Seq<char>, JsonView)>)
    requires
        a.len() == b.len(),
        forall|i: int| 0 <= i < a.len() ==> b[i] == (a[i].0@, node_view(a[i].1)),
    ensures
        members_view(a) == b,
{
    lemma_members_view(a);
    assert(members_view(a) =~= b);
}

/// Removes every member named `k`, answering the first one's value.
pub fn take_field(fs: &mut Fields, k: &str) -> (r: Option<JsonNode>)
    ensures
        fields_view(final(fs)@) == fremove(fields_view(old(fs)@), k@),
        match fget(fields_view(old(fs)@), k@) {
            Some(v) => r matches Some(n) && n@ == v,
            None => r is None,
        },
{
    let ghost orig = old(fs)@;
    let mut out: Fields = Vec::new();
    let mut found: Option<JsonNode> = None;
    let mut j: usize = 0;
    let n = fs.len();
    assert(orig.skip(0) =~= orig);
    assert(orig.take(0) =~= Seq::<(String, JsonNode)>::empty());
    while fs.len() > 0
        invariant
            j + fs@.len() == orig.len(),
            orig.len() == n,
            fs@ == orig.skip(j as int),
            members_view(out@) == fremove(members_view(orig.take(j as int)), k@),
            match fget(members_view(orig.take(j as int)), k@) {
                Some(v) => found matches Some(n) && n@ == v,
                None => found is None,
            },
        decreases fs.len(),
    {
        let e = fs.remove(0);
        proof {
            assert(e == orig[j as int]);
            assert(fs@ =~= orig.skip(j as int + 1));
            assert(orig.take(j as int + 1).drop_last() =~= orig.take(j as int));
            assert(members_view(orig.take(j as int + 1)).drop_last() == members_view(orig.take(j as int)));
        }
        let ghost prev = out@;
        if crate::text::text_eq(e.0.as_str(), k) {
            if found.is_none() {
                found = Some(e.1);
            }
        } else {
            out.push(e);
            assert(out@.drop_last() =~= prev);
        }
        j = j + 1;
    }
    assert(orig.take(j as int) =~= orig);
    *fs = out;
    found
}

/// Sets member `k` to `v`: in place where `k` is already a member, else at
/// the end.
pub fn insert_field(fs: &mut Fields, k: String, v: JsonNode)
    ensures
        fields_view(final(fs)@) == finsert(fields_view(old(fs)@), k@, v@),
{
    let ghost orig = fields_view(old(fs)@);
    proof {
        lemma_members_view(old(fs)@);
        lemma_findex_prefix(orig, k@);
    }
    let mut i: usize = 0;
    while i < fs.len()
        invariant
            i <= fs.len(),
            fs@ == old(fs)@,
            orig == fields_view(fs@),
            orig.len() == fs@.len(),
            forall|m: int| 0 <= m < fs@.len() ==> #[trigger] orig[m] == (fs@[m].0@, node_view(fs@[m].1)),
            findex(orig, k@) == findex_from(orig, k@, i as int),
        decreases fs.len() - i,
    {
        if crate::text::text_eq(fs[i].0.as_str(), k.as_str()) {
            let ghost before = fs@;
            fs.set(i, (k, v));
            proof {
                lemma_findex_from(orig, k@, i as int);
                lemma_members_view_ext(fs@, orig.update(i as int, (k@, v@)));
            }
            return;
        }
        i = i + 1;
    }
    proof {
        lemma_findex_from(orig, k@, i as int);
    }
    let ghost before = fs@;
    fs.push((k, v));
    proof {
        lemma_members_view_ext(fs@, orig.push((k@, v@)));
    }
}

/// The index of the first member named `k` at or after `i`.
pub open spec fn findex_from(fs: Seq<(Seq<char>, JsonView)>, k: Seq<char>, i: int) -> Option<int>
    decreases fs.len() - i,
{
    if i < 0 || i >= fs.len() {
        None
    } else if fs[i].0 == k {
        Some(i)
    } else {
        findex_from(fs, k, i + 1)
    }
}

proof fn lemma_findex_prefix(fs: Seq<(Seq<char>, JsonView)>, k: Seq<char>)
    ensures
        findex(fs, k) == findex_from(fs, k, 0),
        findex(fs, k) matches Some(i) ==> 0 <= i < fs.len() && fs[i].0 == k,
    decreases fs.len(),
{
    if fs.len() > 0 {
        lemma_findex_prefix(fs.drop_last(), k);
        lemma_findex_from_last(fs, k, 0);
    }
}

proof fn lemma_findex_from_last(fs: Seq<(Seq<char>, JsonView)>, k: Seq<char>, i: int)
    requires
        fs.len() > 0,
        0 <= i <= fs.len() - 1,
    ensures
        findex_from(fs, k, i) == match findex_from(fs.drop_last(), k, i) {
            Some(j) => Some(j),
            None => if fs.last().0 == k {
                Some(fs.len() - 1)
            } else {
                None
            },
        },
    decreases fs.len() - i,
{
    let d = fs.drop_last();
    if i < fs.len() - 1 {
        assert(d[i] == fs[i]);
        if fs[i].0 != k {
            lemma_findex_from_last(fs, k, i + 1);
            assert(findex_from(d, k, i) == findex_from(d, k, i + 1));
            assert(findex_from(fs, k, i) == findex_from(fs, k, i + 1));
        }
    } else {
        assert(fs.last() == fs[i]);
        assert(findex_from(d, k, i) is None);
        assert(findex_from(fs, k, i + 1) is None);
    }
}

proof fn lemma_findex_from(fs: Seq<(Seq<char>, JsonView)>, k: Seq<char>, i: int)
    requires
        0 <= i <= fs.len(),
        findex(fs, k) == findex_from(fs, k, i) || i == 0,
    ensures
        i < fs.len() && fs[i].0 == k && findex(fs, k) == findex_from(fs, k, i) ==> findex(fs, k) == Some(i),
        i == fs.len() && findex(fs, k) == findex_from(fs, k, i) ==> findex(fs, k) is None,
{
    lemma_findex_prefix(fs, k);
}

/// Sets every member of `more`, in order.
pub fn extend_fields(fs: &mut Fields, more: Fields)
    ensures
        fields_view(final(fs)@) == fextend(fields_view(old(fs)@), fields_view(more@)),
{
    let ghost start = fields_view(old(fs)@);
    let ghost mv = fields_view(more@);
    let ghost all = more@;
    let mut more = more;
    let mut j: usize = 0;
    let n = more.len();
    assert(all.skip(0) =~= all);
    assert(mv.take(0) =~= Seq::<(Seq<char>, JsonView)>::empty());
    proof {
        lemma_members_view(all);
    }
    while more.len() > 0
        invariant
            j + more@.len() == all.len(),
            all.len() == n,
            more@ == all.skip(j as int),
            mv == fields_view(all),
            mv.len() == all.len(),
            forall|m: int| 0 <= m < all.len() ==> #[trigger] mv[m] == (all[m].0@, node_view(all[m].1)),
            fields_view(fs@) == fextend(start, mv.take(j as int)),
        decreases more.len(),
    {
        let (k, v) = more.remove(0);
        proof {
            assert(more@ =~= all.skip(j as int + 1));
            assert(mv.take(j as int + 1).drop_last() =~= mv.take(j as int));
            assert(mv.take(j as int + 1).last() == mv[j as int]);
        }
        insert_field(fs, k, v);
        j = j + 1;
    }
    assert(mv.take(j as int) =~= mv);
}

/// A member found by the first `j` members is the one found by all of them.
pub proof fn lemma_fget_prefix(s: Seq<(Seq<char>, JsonView)>, k: Seq<char>, j: int)
    requires
        0 <= j <= s.len(),
        fget(s.take(j), k) is Some,
    ensures
        fget(s, k) == fget(s.take(j), k),
    decreases s.len(),
{
    if j == s.len() {
        assert(s.take(j) =~= s);
    } else {
        assert(s.drop_last().take(j) =~= s.take(j));
        lemma_fget_prefix(s.drop_last(), k, j);
    }
}

/// The first member named `k`, by reference.
pub fn get_field<'a>(fs: &'a Fields, k: &str) -> (r: Option<&'a JsonNode>)
    ensures
        match fget(fields_view(fs@), k@) {
            Some(v) => r matches Some(n) && n@ == v,
            None => r is None,
        },
{
    let ghost mv = fields_view(fs@);
    proof {
        lemma_members_view(fs@);
        assert(mv.take(0) =~= Seq::<(Seq<char>, JsonView)>::empty());
    }
    let mut i: usize = 0;
    while i < fs.len()
        invariant
            i <= fs.len(),
            mv == fields_view(fs@),
            mv.len() == fs@.len(),
            forall|m: int| 0 <= m < fs@.len() ==> #[trigger] mv[m] == (fs@[m].0@, node_view(fs@[m].1)),
            fget(mv.take(i as int), k@) is None,
        decreases fs.len() - i,
    {
        assert(mv.take(i + 1).drop_last() =~= mv.take(i as int));
        assert(mv.take(i + 1).last() == mv[i as int]);
        if crate::text::text_eq(fs[i].0.as_str(), k) {
            proof {
                lemma_fget_prefix(mv, k@, i + 1);
            }
            return Some(&fs[i].1);
        }
        i = i + 1;
    }
    assert(mv.take(i as int) =~= mv);
    None
}

/// A copy of fields, member for member.
pub fn copy_fields(fs: &Fields) -> (r: Fields)
    ensures
        fields_view(r@) == fields_view(fs@),
{
    let mut r: Fields = Vec::new();
    let mut i: usize = 0;
    proof {
        lemma_members_view(fs@);
    }
    while i < fs.len()
        invariant
            i <= fs.len(),
            r@.len() == i,
            forall|m: int| 0 <= m < i ==> (#[trigger] r@[m]).0@ == fs@[m].0@ && node_view(r@[m].1) == node_view(fs@[m].1),
        decreases fs.len() - i,
    {
        let k = fs[i].0.clone();
        let v = copy_node(&fs[i].1);
        r.push((k, v));
        i = i + 1;
    }
    proof {
        lemma_members_view_ext(r@, fields_view(fs@));
    }
    r
}

/// Removing one name leaves every other name's member as it was.
pub proof fn lemma_fget_fremove(fs: FieldsView, k1: Seq<char>, k2: Seq<char>)
    requires
        k1 != k2,
    ensures
        fget(fremove(fs, k1), k2) == fget(fs, k2),
    decreases fs.len(),
{
    if fs.len() > 0 {
        lemma_fget_fremove(fs.drop_last(), k1, k2);
        let r = fremove(fs.drop_last(), k1);
        if fs.last().0 != k1 {
            assert(r.push(fs.last()).drop_last() =~= r);
        }
    }
}

/// Removes every member named `k`, answering the first one's text when it
/// is a string.
pub fn take_string(fs: &mut Fields, k: &str) -> (r: Option<String>)
    ensures
        fields_view(final(fs)@) == fremove(fields_view(old(fs)@), k@),
        r matches Some(t) ==> fget(fields_view(old(fs)@), k@) == Some(JsonView::Str(t@)),
        r is None ==> !(fget(fields_view(old(fs)@), k@) matches Some(JsonView::Str(_))),
{
    match take_field(fs, k) {
        Some(JsonNode::Str(s)) => Some(s),
        _ => None,
    }
}

/// A copy of an optional node.
pub fn copy_opt_node(o: &Option<JsonNode>) -> (r: Option<JsonNode>)
    ensures
        opt_json(r) == opt_json(*o),
{
    match o {
        Some(n) => Some(copy_node(n)),
        None => None,
    }
}

// ------------------------------------------------------- field algebra

/// No two members share a name.
pub open spec fn unique_keys(fs: FieldsView) -> bool
    decreases fs.len(),
{
    fs.len() == 0 || (unique_keys(fs.drop_last()) && fget(fs.drop_last(), fs.last().0) is None)
}

pub broadcast proof fn lemma_fget_push(s: FieldsView, p: (Seq<char>, JsonView), k: Seq<char>)
    ensures
        #[trigger] fget(s.push(p), k) == match fget(s, k) {
            Some(v) => Some(v),
            None => if p.0 == k {
                Some(p.1)
            } else {
                None
            },
        },
{
    assert(s.push(p).drop_last() =~= s);
}

pub broadcast proof fn lemma_fremove_push(s: FieldsView, p: (Seq<char>, JsonView), k: Seq<char>)
    ensures
        #[trigger] fremove(s.push(p), k) == if p.0 == k {
            fremove(s, k)
        } else {
            fremove(s, k).push(p)
        },
{
    assert(s.push(p).drop_last() =~= s);
}

pub broadcast proof fn lemma_unique_push(s: FieldsView, p: (Seq<char>, JsonView))
    ensures
        #[trigger] unique_keys(s.push(p)) == (unique_keys(s) && fget(s, p.0) is None),
{
    assert(s.push(p).drop_last() =~= s);
}

pub broadcast group group_fields {
    lemma_fget_push,
    lemma_fremove_push,
    lemma_unique_push,
}

/// Removing a name no member has changes nothing.
pub proof fn lemma_absent(fs: FieldsView, k: Seq<char>)
    requires
        fget(fs, k) is None,
    ensures
        fremove(fs, k) == fs,
        findex(fs, k) is None,
    decreases fs.len(),
{
    if fs.len() > 0 {
        lemma_absent(fs.drop_last(), k);
        assert(fremove(fs.drop_last(), k).push(fs.last()) =~= fs);
    }
}

/// Lookup in a concatenation looks in the first part, then the second.
pub proof fn lemma_fget_append(a: FieldsView, b: FieldsView, k: Seq<char>)
    ensures
        fget(a + b, k) == match fget(a, k) {
            Some(v) => Some(v),
            None => fget(b, k),
        },
    decreases b.len(),
{
    if b.len() == 0 {
        assert(a + b =~= a);
    } else {
        lemma_fget_append(a, b.drop_last(), k);
        assert((a + b).drop_last() =~= a + b.drop_last());
        assert((a + b).last() == b.last());
    }
}

/// Removal from a concatenation removes from both parts.
pub proof fn lemma_fremove_append(a: FieldsView, b: FieldsView, k: Seq<char>)
    ensures
        fremove(a + b, k) == fremove(a, k) + fremove(b, k),
    decreases b.len(),
{
    if b.len() == 0 {
        assert(a + b =~= a);
        assert(fremove(a, k) + fremove(b, k) =~= fremove(a, k));
    } else {
        lemma_fremove_append(a, b.drop_last(), k);
        assert((a + b).drop_last() =~= a + b.drop_last());
        assert((a + b).last() == b.last());
        if b.last().0 != k {
            assert(fremove(a, k) + fremove(b.drop_last(), k).push(b.last()) =~= (fremove(a, k)
                + fremove(b.drop_last(), k)).push(b.last()));
        }
    }
}

/// Setting members whose names `s` lacks appends them.
pub proof fn lemma_fextend_disjoint(s: FieldsView, u: FieldsView)
    requires
        unique_keys(u),
        forall|k: Seq<char>| #[trigger] fget(s, k) is Some ==> fget(u, k) is None,
    ensures
        fextend(s, u) == s + u,
    decreases u.len(),
{
    broadcast use group_fields;
    if u.len() == 0 {
        assert(s + u =~= s);
    } else {
        let d = u.drop_last();
        let (k, v) = u.last();
        assert(u =~= d.push((k, v)));
        assert forall|k2: Seq<char>| #[trigger] fget(s, k2) is Some implies fget(d, k2) is None by {
            assert(fget(u, k2) is None);
        }
        lemma_fextend_disjoint(s, d);
        lemma_fget_append(s, d, k);
        if fget(s, k) is Some {
            assert(fget(u, k) is None);
            assert(fget(u, k) == Some(v));
        }
        lemma_absent(s + d, k);
        assert((s + d).push((k, v)) =~= s + u);
    }
}

/// Setting a member to the value it already has changes nothing.
proof fn lemma_finsert_same(fs: FieldsView, j: int)
    requires
        unique_keys(fs),
        0 <= j < fs.len(),
    ensures
        finsert(fs, fs[j].0, fs[j].1) == fs,
{
    lemma_findex_unique(fs, j);
    assert(fs.update(j, (fs[j].0, fs[j].1)) =~= fs);
}

proof fn lemma_findex_unique(fs: FieldsView, j: int)
    requires
        unique_keys(fs),
        0 <= j < fs.len(),
    ensures
        findex(fs, fs[j].0) == Some(j),
    decreases fs.len(),
{
    let d = fs.drop_last();
    if j < fs.len() - 1 {
        assert(d[j] == fs[j]);
        lemma_findex_unique(d, j);
    } else {
        lemma_absent(d, fs.last().0);
    }
}

/// Setting every member of unique fields onto themselves changes nothing.
pub proof fn lemma_fextend_self(fs: FieldsView)
    requires
        unique_keys(fs),
    ensures
        fextend(fs, fs) == fs,
{
    lemma_fextend_prefix(fs, fs.len() as int);
    assert(fs.take(fs.len() as int) =~= fs);
}

proof fn lemma_fextend_prefix(fs: FieldsView, j: int)
    requires
        unique_keys(fs),
        0 <= j <= fs.len(),
    ensures
        fextend(fs, fs.take(j)) == fs,
    decreases j,
{
    if j > 0 {
        lemma_fextend_prefix(fs, j - 1);
        assert(fs.take(j).drop_last() =~= fs.take(j - 1));
        assert(fs.take(j).last() == fs[j - 1]);
        lemma_finsert_same(fs, j - 1);
    }
}

} // verus!
