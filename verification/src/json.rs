//! JSON documents.
//!
//! [`Json`] is a document as plain values and [`Tree`] is what it means: an object is a map, so
//! the order of its members does not count, and of two members with one name the later counts.
//! Reading a text and writing one is `serde_json`'s work.

use vstd::prelude::*;

use crate::text;

verus! {

/// `serde_json::Value`, which this module takes apart and puts together and never looks into
/// otherwise.
#[verifier::external_type_specification]
#[verifier::external_body]
pub struct ExValue(serde_json::Value);

/// `serde_json::Number`, a number of whatever kind.
#[verifier::external_type_specification]
#[verifier::external_body]
pub struct ExNumber(serde_json::Number);

/// `serde_json::Error`, the reason why bytes are no JSON document or a document is not written.
#[verifier::external_type_specification]
#[verifier::external_body]
pub struct ExError(serde_json::Error);

/// A JSON document.
#[derive(Debug, PartialEq)]
pub enum Json {
    Null,
    Bool(bool),
    Unsigned(u64),
    Signed(i64),
    /// A number as `serde_json` has it, which need not be whole.
    Number(serde_json::Number),
    Text(String),
    List(Vec<Json>),
    Object(Vec<(String, Json)>),
}

/// What a JSON document means.
pub enum Tree {
    Null,
    Bool(bool),
    Int(int),
    Fraction(serde_json::Number),
    Text(Seq<char>),
    List(Seq<Tree>),
    Object(Map<Seq<char>, Tree>),
}

impl Json {
    pub open spec fn tree(self) -> Tree
        decreases self,
    {
        match self {
            Json::Null => Tree::Null,
            Json::Bool(b) => Tree::Bool(b),
            Json::Unsigned(n) => Tree::Int(n as int),
            Json::Signed(n) => Tree::Int(n as int),
            Json::Number(n) => number_tree(n),
            Json::Text(s) => Tree::Text(s@),
            Json::List(v) => Tree::List(trees(v@)),
            Json::Object(v) => Tree::Object(members(v@)),
        }
    }
}

pub open spec fn trees(s: Seq<Json>) -> Seq<Tree>
    decreases s,
{
    if s.len() == 0 {
        Seq::empty()
    } else {
        trees(s.drop_last()).push(s.last().tree())
    }
}

pub open spec fn members(s: Seq<(String, Json)>) -> Map<Seq<char>, Tree>
    decreases s,
{
    if s.len() == 0 {
        Map::empty()
    } else {
        members(s.drop_last()).insert(s.last().0@, s.last().1.tree())
    }
}

/// The member of that name, where the document is an object that has one.
pub open spec fn member(t: Tree, key: Seq<char>) -> Option<Tree> {
    match t {
        Tree::Object(m) => if m.dom().contains(key) {
            Some(m[key])
        } else {
            None
        },
        _ => None,
    }
}

/// The item at that place, where the document is a list that is long enough.
pub open spec fn item(t: Tree, i: int) -> Option<Tree> {
    match t {
        Tree::List(s) => if 0 <= i < s.len() {
            Some(s[i])
        } else {
            None
        },
        _ => None,
    }
}

/// The text, where there is a document and it is one.
pub open spec fn text_in(t: Option<Tree>) -> Option<Seq<char>> {
    match t {
        Some(Tree::Text(s)) => Some(s),
        _ => None,
    }
}

/// The integer, where there is a document, it is one and it lies between the two bounds.
pub open spec fn int_in(t: Option<Tree>, least: int, most: int) -> Option<int> {
    match t {
        Some(Tree::Int(n)) => if least <= n <= most {
            Some(n)
        } else {
            None
        },
        _ => None,
    }
}

/// The member of that name, where it is a text.
pub open spec fn text_member(t: Tree, key: Seq<char>) -> Option<Seq<char>> {
    text_in(member(t, key))
}

/// A member of a member.
pub open spec fn member_of(t: Tree, outer: Seq<char>, inner: Seq<char>) -> Option<Tree> {
    match member(t, outer) {
        Some(u) => member(u, inner),
        None => None,
    }
}

/// The first item of a list, or the member `0` of an object: what a pointer's step `0` leads to.
pub open spec fn zeroth(t: Option<Tree>) -> Option<Tree> {
    match t {
        Some(Tree::List(_)) => item(t->Some_0, 0),
        Some(Tree::Object(_)) => member(t->Some_0, "0"@),
        _ => None,
    }
}

/// The member of that name, where there is a document and it is an object that has one.
pub open spec fn member_in(t: Option<Tree>, key: Seq<char>) -> Option<Tree> {
    match t {
        Some(u) => member(u, key),
        None => None,
    }
}

impl Tree {
    /// The object with a member put in.
    pub open spec fn plus(self, key: Seq<char>, value: Tree) -> Tree {
        match self {
            Tree::Object(m) => Tree::Object(m.insert(key, value)),
            t => t,
        }
    }
}

/// The object without members.
pub open spec fn bare() -> Tree {
    Tree::Object(Map::empty())
}

/// One layer of a `serde_json::Value`.
pub(crate) enum Node {
    Null,
    Bool(bool),
    Unsigned(u64),
    Signed(i64),
    Number(serde_json::Number),
    Text(String),
    List(Vec<serde_json::Value>),
    Object(Vec<(String, serde_json::Value)>),
}

/// What a `serde_json::Value` holds.
pub uninterp spec fn value_tree(value: serde_json::Value) -> Tree;

/// The integer that a `serde_json::Number` holds, where it holds one of 64 bits.
pub uninterp spec fn whole_number(number: serde_json::Number) -> Option<int>;

/// What a number means.
pub open spec fn number_tree(number: serde_json::Number) -> Tree {
    match whole_number(number) {
        Some(n) => Tree::Int(n),
        None => Tree::Fraction(number),
    }
}

/// The document holds no number that is not whole, and is nested no deeper than that: what is
/// written of it reads back as it was.
pub open spec fn reads_back(t: Tree, depth: nat) -> bool
    decreases depth,
{
    match t {
        Tree::Fraction(_) => false,
        Tree::List(s) => depth > 0 && forall|i: int|
            0 <= i < s.len() ==> reads_back(#[trigger] s[i], (depth - 1) as nat),
        Tree::Object(m) => depth > 0 && forall|k: Seq<char>|
            m.dom().contains(k) ==> reads_back(#[trigger] m[k], (depth - 1) as nat),
        _ => true,
    }
}

/// How deep a document may be nested that reads back: as deep as `serde_json` reads.
pub const SAFE_DEPTH: u8 = 127;

/// The document that `serde_json` reads in a text, or why it reads none.
pub uninterp spec fn json_parsed(text: Seq<char>) -> Result<Tree, Seq<char>>;

/// The document in a text, if there is one.
pub open spec fn json_read(text: Seq<char>) -> Option<Tree> {
    match json_parsed(text) {
        Ok(t) => Some(t),
        Err(_) => None,
    }
}

/// The document that `serde_json` reads in bytes, if it reads one.
pub uninterp spec fn json_read_bytes(bytes: Seq<u8>) -> Option<Tree>;

/// The compact text that `serde_json` writes for a document.
pub uninterp spec fn json_written(tree: Tree) -> Seq<char>;

/// The indented text that `serde_json` writes for a document.
pub uninterp spec fn json_written_pretty(tree: Tree) -> Seq<char>;

pub(crate) open spec fn value_trees(s: Seq<serde_json::Value>) -> Seq<Tree> {
    s.map_values(|v: serde_json::Value| value_tree(v))
}

pub(crate) open spec fn value_members(s: Seq<(String, serde_json::Value)>) -> Map<Seq<char>, Tree>
    decreases s.len(),
{
    if s.len() == 0 {
        Map::empty()
    } else {
        value_members(s.drop_last()).insert(s.last().0@, value_tree(s.last().1))
    }
}

pub(crate) open spec fn node_tree(node: Node) -> Tree {
    match node {
        Node::Null => Tree::Null,
        Node::Bool(b) => Tree::Bool(b),
        Node::Unsigned(n) => Tree::Int(n as int),
        Node::Signed(n) => Tree::Int(n as int),
        Node::Number(n) => number_tree(n),
        Node::Text(s) => Tree::Text(s@),
        Node::List(v) => Tree::List(value_trees(v@)),
        Node::Object(v) => Tree::Object(value_members(v@)),
    }
}

/// No two members of one name.
pub(crate) open spec fn names_differ(s: Seq<(String, serde_json::Value)>) -> bool {
    forall|i: int, j: int| 0 <= i < j < s.len() ==> #[trigger] s[i].0@ != #[trigger] s[j].0@
}

/// `serde_json::Number::as_u64`: the number, where it is whole and fits.
#[verifier::external_body]
fn number_as_u64(number: &serde_json::Number) -> (r: Option<u64>)
    ensures
        match r {
            Some(n) => whole_number(*number) == Some(n as int),
            None => whole_number(*number) matches Some(n) ==> n < 0,
        },
{
    number.as_u64()
}

/// `serde_json::Number::as_i64`: the number, where it is whole and fits.
#[verifier::external_body]
fn number_as_i64(number: &serde_json::Number) -> (r: Option<i64>)
    ensures
        match r {
            Some(n) => whole_number(*number) == Some(n as int),
            None => whole_number(*number) matches Some(n) ==> n > i64::MAX,
        },
{
    number.as_i64()
}

/// `serde_json::from_str` into a `Value`: whether the text is a document, and which, or else what
/// its error says. Both depend on the text alone.
#[verifier::external_body]
fn value_from_str(s: &str) -> (r: Result<serde_json::Value, String>)
    ensures
        match r {
            Ok(v) => json_parsed(s@) == Ok::<Tree, Seq<char>>(value_tree(v)),
            Err(e) => json_parsed(s@) == Err::<Tree, Seq<char>>(e@),
        },
{
    match serde_json::from_str(s) {
        Ok(v) => Ok(v),
        Err(e) => Err(e.to_string()),
    }
}

/// `serde_json::from_slice` into a `Value`: whether the bytes are a document, and which.
#[verifier::external_body]
fn value_from_slice(b: &[u8]) -> (r: Result<serde_json::Value, serde_json::Error>)
    ensures
        match r {
            Ok(v) => json_read_bytes(b@) == Some(value_tree(v)),
            Err(_) => json_read_bytes(b@) is None,
        },
{
    serde_json::from_slice(b)
}

/// Tells the variants of `serde_json::Value` apart. A `serde_json::Map` holds each name once.
#[verifier::external_body]
fn open_value(value: serde_json::Value) -> (r: Node)
    ensures
        node_tree(r) == value_tree(value),
        r matches Node::Object(v) ==> names_differ(v@),
{
    match value {
        serde_json::Value::Null => Node::Null,
        serde_json::Value::Bool(b) => Node::Bool(b),
        serde_json::Value::Number(n) => Node::Number(n),
        serde_json::Value::String(s) => Node::Text(s),
        serde_json::Value::Array(items) => Node::List(items),
        serde_json::Value::Object(map) => Node::Object(map.into_iter().collect()),
    }
}

/// The variants of `serde_json::Value`. A `serde_json::Map` holds the members that it is made of,
/// where no two have one name.
#[verifier::external_body]
fn close_value(node: Node) -> (r: serde_json::Value)
    requires
        node matches Node::Object(v) ==> names_differ(v@),
    ensures
        value_tree(r) == node_tree(node),
{
    match node {
        Node::Null => serde_json::Value::Null,
        Node::Bool(b) => serde_json::Value::Bool(b),
        Node::Unsigned(n) => serde_json::Value::from(n),
        Node::Signed(n) => serde_json::Value::from(n),
        Node::Number(n) => serde_json::Value::Number(n),
        Node::Text(s) => serde_json::Value::String(s),
        Node::List(items) => serde_json::Value::Array(items),
        Node::Object(pairs) => serde_json::Value::Object(pairs.into_iter().collect()),
    }
}

/// `Value`'s `to_string`: the compact text of a document. Control characters are escaped in
/// it, so it holds no line feed. Reading it gives the document again, but for numbers that are
/// not whole, which may be read a little off, and for nesting beyond what is read.
#[verifier::external_body]
fn value_to_string(value: &serde_json::Value) -> (r: String)
    ensures
        r@ == json_written(value_tree(*value)),
        !r@.contains('\n'),
        reads_back(value_tree(*value), SAFE_DEPTH as nat) ==> json_read(r@) == Some(
            value_tree(*value),
        ),
{
    value.to_string()
}

/// `serde_json::to_string_pretty` of a `Value`. It fails only where a type's own serializing
/// fails or a map has a key that is no text, and a `Value` has neither. Reading the text gives
/// the document again, but for numbers that are not whole, which may be read a little off, and
/// for nesting beyond what is read.
#[verifier::external_body]
fn value_to_string_pretty(value: &serde_json::Value) -> (r: Result<String, serde_json::Error>)
    ensures
        r is Ok,
        r->Ok_0@ == json_written_pretty(value_tree(*value)),
        reads_back(value_tree(*value), SAFE_DEPTH as nat) ==> json_read(r->Ok_0@) == Some(
            value_tree(*value),
        ),
{
    serde_json::to_string_pretty(value)
}

/// `Number::clone` gives an equal number.
pub assume_specification[ <serde_json::Number as Clone>::clone ](n: &serde_json::Number) -> (r:
    serde_json::Number)
    ensures
        r == *n,
;

proof fn lemma_member_at(s: Seq<(String, serde_json::Value)>, i: int)
    requires
        names_differ(s),
        0 <= i < s.len(),
    ensures
        value_members(s).dom().contains(s[i].0@),
        value_members(s)[s[i].0@] == value_tree(s[i].1),
        value_members(s).dom().finite(),
    decreases s.len(),
{
    let t = s.drop_last();
    assert(value_members(s) == value_members(t).insert(s.last().0@, value_tree(s.last().1)));
    if i < s.len() - 1 {
        assert(names_differ(t)) by {
            assert forall|a: int, b: int| 0 <= a < b < t.len() implies #[trigger] t[a].0@
                != #[trigger] t[b].0@ by {
                assert(t[a] == s[a] && t[b] == s[b]);
            }
        }
        lemma_member_at(t, i);
        assert(t[i] == s[i]);
        assert(s[i].0@ != s[s.len() - 1].0@);
    } else {
        lemma_members_finite(t);
    }
}

proof fn lemma_members_finite(s: Seq<(String, serde_json::Value)>)
    ensures
        value_members(s).dom().finite(),
    decreases s.len(),
{
    if s.len() > 0 {
        lemma_members_finite(s.drop_last());
    }
}

proof fn lemma_trees(s: Seq<Json>)
    ensures
        trees(s).len() == s.len(),
        forall|i: int| 0 <= i < s.len() ==> #[trigger] trees(s)[i] == s[i].tree(),
    decreases s.len(),
{
    if s.len() > 0 {
        lemma_trees(s.drop_last());
    }
}

proof fn lemma_value_replace(
    s: Seq<(String, serde_json::Value)>,
    k: int,
    pair: (String, serde_json::Value),
)
    requires
        0 <= k < s.len(),
        s[k].0@ == pair.0@,
        names_differ(s),
    ensures
        value_members(s.update(k, pair)) == value_members(s).insert(pair.0@, value_tree(pair.1)),
        names_differ(s.update(k, pair)),
    decreases s.len(),
{
    let u = s.update(k, pair);
    let t = s.drop_last();
    assert forall|i: int, j: int| 0 <= i < j < u.len() implies #[trigger] u[i].0@
        != #[trigger] u[j].0@ by {
        assert(s[i].0@ != s[j].0@);
    }
    if k == s.len() - 1 {
        assert(u.drop_last() =~= t);
    } else {
        assert forall|i: int, j: int| 0 <= i < j < t.len() implies #[trigger] t[i].0@
            != #[trigger] t[j].0@ by {
            assert(t[i] == s[i] && t[j] == s[j]);
        }
        lemma_value_replace(t, k, pair);
        assert(u.drop_last() =~= t.update(k, pair));
        assert(s[k].0@ != s[s.len() - 1].0@);
    }
    assert(value_members(u) =~= value_members(s).insert(pair.0@, value_tree(pair.1)));
}

/// The place of the member of that name, where there is one.
fn place_of(v: &Vec<(String, serde_json::Value)>, key: &str) -> (r: Option<usize>)
    ensures
        match r {
            Some(k) => k < v@.len() && v@[k as int].0@ == key@,
            None => forall|j: int| 0 <= j < v@.len() ==> #[trigger] v@[j].0@ != key@,
        },
{
    for i in 0..v.len()
        invariant
            forall|j: int| 0 <= j < i ==> #[trigger] v@[j].0@ != key@,
    {
        if text::same(v[i].0.as_str(), key) {
            return Some(i);
        }
    }
    None
}

/// The document that a `Value` holds.
fn json_of(value: serde_json::Value) -> (r: Json)
    ensures
        r.tree() == value_tree(value),
    decreases value_tree(value),
{
    let ghost t = value_tree(value);
    match open_value(value) {
        Node::Null => Json::Null,
        Node::Bool(b) => Json::Bool(b),
        Node::Unsigned(n) => Json::Unsigned(n),
        Node::Signed(n) => Json::Signed(n),
        Node::Number(n) => Json::Number(n),
        Node::Text(s) => Json::Text(s),
        Node::List(v) => {
            let mut out: Vec<Json> = Vec::new();
            let ghost s = v@;
            for x in it: v
                invariant
                    it.seq() == s,
                    t == value_tree(value),
                    t == Tree::List(value_trees(s)),
                    trees(out@) =~= value_trees(s.take(it.index())),
            {
                proof {
                    let i = it.index();
                    assert(x == s[i]);
                    assert(decreases_to!(t => t->List_0));
                    assert(decreases_to!(t->List_0 => t->List_0[i]));
                    assert(t->List_0[i] == value_tree(x));
                }
                let ghost before = out@;
                out.push(json_of(x));
                proof {
                    assert(out@.drop_last() =~= before);
                }
            }
            assert(s.take(s.len() as int) =~= s);
            Json::List(out)
        },
        Node::Object(v) => {
            let mut out: Vec<(String, Json)> = Vec::new();
            let ghost s = v@;
            for pair in it: v
                invariant
                    it.seq() == s,
                    names_differ(s),
                    t == value_tree(value),
                    t == Tree::Object(value_members(s)),
                    members(out@) =~= value_members(s.take(it.index())),
            {
                proof {
                    let i = it.index();
                    assert(pair == s[i]);
                    lemma_member_at(s, i);
                    assert(decreases_to!(t => t->Object_0));
                    assert(decreases_to!(t->Object_0 => t->Object_0[s[i].0@]));
                    assert(t->Object_0[s[i].0@] == value_tree(pair.1));
                    assert(s.take(i + 1).drop_last() =~= s.take(i));
                }
                let ghost before = out@;
                let (name, x) = pair;
                out.push((name, json_of(x)));
                proof {
                    assert(out@.drop_last() =~= before);
                }
            }
            assert(s.take(s.len() as int) =~= s);
            Json::Object(out)
        },
    }
}

/// A `Value` that holds a document.
fn value_of(json: &Json) -> (r: serde_json::Value)
    ensures
        value_tree(r) == json.tree(),
    decreases json,
{
    match json {
        Json::Null => close_value(Node::Null),
        Json::Bool(b) => close_value(Node::Bool(*b)),
        Json::Unsigned(n) => close_value(Node::Unsigned(*n)),
        Json::Signed(n) => close_value(Node::Signed(*n)),
        Json::Number(n) => close_value(Node::Number(n.clone())),
        Json::Text(s) => close_value(Node::Text(s.clone())),
        Json::List(v) => {
            let mut out: Vec<serde_json::Value> = Vec::new();
            for i in 0..v.len()
                invariant
                    json == Json::List(*v),
                    value_trees(out@) =~= trees(v@.take(i as int)),
            {
                let ghost before = out@;
                assert(decreases_to!(*json => json->List_0));
                assert(decreases_to!(*v => v[i as int]));
                out.push(value_of(&v[i]));
                proof {
                    assert(v@.take(i + 1).drop_last() =~= v@.take(i as int));
                    assert(value_trees(out@) =~= value_trees(before).push(value_tree(out@.last())));
                }
            }
            assert(v@.take(v@.len() as int) =~= v@);
            close_value(Node::List(out))
        },
        Json::Object(v) => {
            let mut out: Vec<(String, serde_json::Value)> = Vec::new();
            for i in 0..v.len()
                invariant
                    json == Json::Object(*v),
                    names_differ(out@),
                    value_members(out@) =~= members(v@.take(i as int)),
            {
                let ghost before = out@;
                assert(decreases_to!(*json => json->Object_0));
                assert(decreases_to!(*v => v[i as int]));
                assert(decreases_to!(v[i as int] => v[i as int].1));
                assert(v@.take(i + 1).drop_last() =~= v@.take(i as int));
                let pair = (v[i].0.clone(), value_of(&v[i].1));
                match place_of(&out, v[i].0.as_str()) {
                    Some(k) => {
                        proof {
                            lemma_value_replace(before, k as int, pair);
                        }
                        out.set(k, pair);
                    },
                    None => {
                        out.push(pair);
                        assert(out@.drop_last() =~= before);
                    },
                }
            }
            assert(v@.take(v@.len() as int) =~= v@);
            close_value(Node::Object(out))
        },
    }
}

proof fn lemma_lookup_skips(s: Seq<(String, Json)>, k: int, key: Seq<char>)
    requires
        0 <= k <= s.len(),
        forall|j: int| k <= j < s.len() ==> #[trigger] s[j].0@ != key,
    ensures
        members(s).dom().contains(key) == members(s.take(k)).dom().contains(key),
        members(s).dom().contains(key) ==> members(s)[key] == members(s.take(k))[key],
    decreases s.len() - k,
{
    if k < s.len() {
        let t = s.drop_last();
        assert forall|j: int| k <= j < t.len() implies #[trigger] t[j].0@ != key by {
            assert(t[j] == s[j]);
        }
        lemma_lookup_skips(t, k, key);
        assert(t.take(k) =~= s.take(k));
        assert(s.last() == s[s.len() - 1]);
    } else {
        assert(s.take(k) =~= s);
    }
}

proof fn lemma_replace(s: Seq<(String, Json)>, k: int, pair: (String, Json))
    requires
        0 <= k < s.len(),
        s[k].0@ == pair.0@,
        forall|j: int| k < j < s.len() ==> #[trigger] s[j].0@ != pair.0@,
    ensures
        members(s.update(k, pair)) == members(s).insert(pair.0@, pair.1.tree()),
    decreases s.len(),
{
    let u = s.update(k, pair);
    let t = s.drop_last();
    if k == s.len() - 1 {
        assert(u.drop_last() =~= t);
        assert(members(u) =~= members(s).insert(pair.0@, pair.1.tree()));
    } else {
        assert forall|j: int| k < j < t.len() implies #[trigger] t[j].0@ != pair.0@ by {
            assert(t[j] == s[j]);
        }
        lemma_replace(t, k, pair);
        assert(u.drop_last() =~= t.update(k, pair));
        assert(s.last() == s[s.len() - 1]);
        assert(members(u) =~= members(s).insert(pair.0@, pair.1.tree()));
    }
}

/// How many members stand before the last one of that name, itself counted; 0 where none does.
fn last_of(v: &Vec<(String, Json)>, key: &str) -> (k: usize)
    ensures
        k <= v@.len(),
        k > 0 ==> v@[k - 1].0@ == key@,
        forall|j: int| k <= j < v@.len() ==> #[trigger] v@[j].0@ != key@,
{
    let mut k: usize = v.len();
    while k > 0 && !text::same(v[k - 1].0.as_str(), key)
        invariant
            k <= v@.len(),
            forall|j: int| k <= j < v@.len() ==> #[trigger] v@[j].0@ != key@,
        decreases k,
    {
        k = k - 1;
    }
    k
}

impl Clone for Json {
    fn clone(&self) -> (r: Self)
        ensures
            r.tree() == self.tree(),
    {
        self.copy()
    }
}

impl Json {
    /// A document that means the same.
    pub fn copy(&self) -> (r: Json)
        ensures
            r.tree() == self.tree(),
        decreases self,
    {
        match self {
            Json::Null => Json::Null,
            Json::Bool(b) => Json::Bool(*b),
            Json::Unsigned(n) => Json::Unsigned(*n),
            Json::Signed(n) => Json::Signed(*n),
            Json::Number(n) => Json::Number(n.clone()),
            Json::Text(s) => Json::Text(s.clone()),
            Json::List(v) => {
                let mut out: Vec<Json> = Vec::new();
                for i in 0..v.len()
                    invariant
                        self == Json::List(*v),
                        trees(out@) =~= trees(v@.take(i as int)),
                {
                    let ghost before = out@;
                    assert(decreases_to!(*self => self->List_0));
                    assert(decreases_to!(*v => v[i as int]));
                    out.push(v[i].copy());
                    proof {
                        assert(v@.take(i + 1).drop_last() =~= v@.take(i as int));
                        assert(out@.drop_last() =~= before);
                    }
                }
                assert(v@.take(v@.len() as int) =~= v@);
                Json::List(out)
            },
            Json::Object(v) => {
                let mut out: Vec<(String, Json)> = Vec::new();
                for i in 0..v.len()
                    invariant
                        self == Json::Object(*v),
                        members(out@) =~= members(v@.take(i as int)),
                {
                    let ghost before = out@;
                    assert(decreases_to!(*self => self->Object_0));
                    assert(decreases_to!(*v => v[i as int]));
                    assert(decreases_to!(v[i as int] => v[i as int].1));
                    out.push((v[i].0.clone(), v[i].1.copy()));
                    proof {
                        assert(v@.take(i + 1).drop_last() =~= v@.take(i as int));
                        assert(out@.drop_last() =~= before);
                    }
                }
                assert(v@.take(v@.len() as int) =~= v@);
                Json::Object(out)
            },
        }
    }

    /// Reads the document in a text. Where there is none, the reason is `serde_json`'s own.
    pub fn read(s: &str) -> (r: Result<Json, String>)
        ensures
            match r {
                Ok(j) => json_parsed(s@) == Ok::<Tree, Seq<char>>(j.tree()),
                Err(e) => json_parsed(s@) == Err::<Tree, Seq<char>>(e@),
            },
    {
        match value_from_str(s) {
            Ok(v) => Ok(json_of(v)),
            Err(e) => Err(e),
        }
    }

    /// Reads the document in bytes.
    pub fn read_bytes(b: &[u8]) -> (r: Option<Json>)
        ensures
            r is Some <==> json_read_bytes(b@) is Some,
            r matches Some(j) ==> json_read_bytes(b@) == Some(j.tree()),
    {
        match value_from_slice(b) {
            Ok(v) => Some(json_of(v)),
            Err(_) => None,
        }
    }

    /// The compact text of the document. It is one line, and reads back.
    pub fn write(&self) -> (r: String)
        ensures
            r@ == json_written(self.tree()),
            !r@.contains('\n'),
            reads_back(self.tree(), SAFE_DEPTH as nat) ==> json_read(r@) == Some(self.tree()),
    {
        value_to_string(&value_of(self))
    }

    /// The indented text of the document. It reads back.
    pub fn write_pretty(&self) -> (r: String)
        ensures
            r@ == json_written_pretty(self.tree()),
            reads_back(self.tree(), SAFE_DEPTH as nat) ==> json_read(r@) == Some(self.tree()),
    {
        match value_to_string_pretty(&value_of(self)) {
            Ok(s) => s,
            Err(_) => String::new(),
        }
    }

    /// An object without members.
    pub fn object() -> (r: Json)
        ensures
            r.tree() == bare(),
    {
        Json::Object(Vec::new())
    }

    /// A text.
    pub fn text(s: &str) -> (r: Json)
        ensures
            r.tree() == Tree::Text(s@),
    {
        Json::Text(s.to_owned())
    }

    /// The document with a member put in, which takes the place of one of that name. What is no
    /// object stays as it is.
    pub fn with(self, key: &str, value: Json) -> (r: Json)
        ensures
            r.tree() == self.tree().plus(key@, value.tree()),
    {
        match self {
            Json::Object(v) => {
                let mut v = v;
                let ghost s = v@;
                let k: usize = last_of(&v, key);
                let pair = (key.to_owned(), value);
                if k > 0 {
                    proof {
                        lemma_replace(s, k - 1, pair);
                    }
                    v.set(k - 1, pair);
                } else {
                    v.push(pair);
                    assert(v@.drop_last() =~= s);
                }
                Json::Object(v)
            },
            other => other,
        }
    }

    /// The member of that name, where this is an object that has one.
    pub fn get(&self, key: &str) -> (r: Option<&Json>)
        ensures
            r is Some <==> member(self.tree(), key@) is Some,
            r matches Some(j) ==> member(self.tree(), key@) == Some(j.tree()),
    {
        match self {
            Json::Object(v) => {
                let k: usize = last_of(v, key);
                proof {
                    lemma_lookup_skips(v@, k as int, key@);
                }
                if k > 0 {
                    assert(v@.take(k as int).last() == v@[k - 1]);
                    Some(&v[k - 1].1)
                } else {
                    assert(v@.take(0) =~= Seq::empty());
                    None
                }
            },
            _ => None,
        }
    }

    /// The item at that place, where this is a list that is long enough.
    pub fn nth(&self, i: usize) -> (r: Option<&Json>)
        ensures
            r is Some <==> item(self.tree(), i as int) is Some,
            r matches Some(j) ==> item(self.tree(), i as int) == Some(j.tree()),
    {
        match self {
            Json::List(v) => {
                proof {
                    lemma_trees(v@);
                }
                if i < v.len() {
                    Some(&v[i])
                } else {
                    None
                }
            },
            _ => None,
        }
    }

    /// What a pointer's step `0` leads to: the first item of a list, or the member `0` of an
    /// object.
    pub fn zeroth(&self) -> (r: Option<&Json>)
        ensures
            r is Some <==> zeroth(Some(self.tree())) is Some,
            r matches Some(j) ==> zeroth(Some(self.tree())) == Some(j.tree()),
    {
        match self {
            Json::List(_) => self.nth(0),
            Json::Object(_) => self.get("0"),
            _ => None,
        }
    }

    /// A list of one item.
    pub fn one(value: Json) -> (r: Json)
        ensures
            r.tree() == Tree::List(seq![value.tree()]),
    {
        let v = vec![value];
        assert(trees(v@.drop_last()) =~= Seq::empty());
        assert(trees(v@) =~= seq![value.tree()]);
        Json::List(v)
    }

    /// The text, where this is one.
    pub fn as_str(&self) -> (r: Option<&str>)
        ensures
            r is Some <==> text_in(Some(self.tree())) is Some,
            r matches Some(s) ==> text_in(Some(self.tree())) == Some(s@),
    {
        match self {
            Json::Text(s) => Some(s.as_str()),
            _ => None,
        }
    }

    /// The integer, where this is one that fits.
    pub fn as_i64(&self) -> (r: Option<i64>)
        ensures
            r is Some <==> int_in(Some(self.tree()), i64::MIN as int, i64::MAX as int) is Some,
            r matches Some(n) ==> int_in(Some(self.tree()), i64::MIN as int, i64::MAX as int)
                == Some(n as int),
    {
        match self {
            Json::Signed(n) => Some(*n),
            Json::Unsigned(n) => if *n <= i64::MAX as u64 {
                Some(*n as i64)
            } else {
                None
            },
            Json::Number(n) => number_as_i64(n),
            _ => None,
        }
    }

    /// The unsigned integer, where this is one that fits.
    pub fn as_u64(&self) -> (r: Option<u64>)
        ensures
            r is Some <==> int_in(Some(self.tree()), 0, u64::MAX as int) is Some,
            r matches Some(n) ==> int_in(Some(self.tree()), 0, u64::MAX as int) == Some(n as int),
    {
        match self {
            Json::Unsigned(n) => Some(*n),
            Json::Signed(n) => if *n >= 0 {
                Some(*n as u64)
            } else {
                None
            },
            Json::Number(n) => number_as_u64(n),
            _ => None,
        }
    }

    /// The member of that name, where it is a text.
    pub fn get_str(&self, key: &str) -> (r: Option<&str>)
        ensures
            r is Some <==> text_member(self.tree(), key@) is Some,
            r matches Some(s) ==> text_member(self.tree(), key@) == Some(s@),
    {
        match self.get(key) {
            Some(j) => j.as_str(),
            None => None,
        }
    }

    /// The text that is a member of a member.
    pub fn get_str_in(&self, outer: &str, inner: &str) -> (r: Option<&str>)
        ensures
            r is Some <==> text_in(member_of(self.tree(), outer@, inner@)) is Some,
            r matches Some(s) ==> text_in(member_of(self.tree(), outer@, inner@)) == Some(s@),
    {
        match self.get(outer) {
            Some(j) => j.get_str(inner),
            None => None,
        }
    }
}

/// What is put into an object is found in it under its name, and what was there under other names is
/// still found; what is no object stays as it is.
pub proof fn lemma_what_is_put_in_is_found(
    object: Json,
    key: &str,
    value: Json,
    after: Json,
    other: &str,
    found: Option<&Json>,
    was: Option<&Json>,
    is: Option<&Json>,
)
    requires
        call_ensures(Json::with, (object, key, value), after),
        call_ensures(Json::get, (&after, key), found),
        call_ensures(Json::get, (&object, other), was),
        call_ensures(Json::get, (&after, other), is),
        object.tree() is Object,
        other@ != key@,
    ensures
        found matches Some(j) && j.tree() == value.tree(),
        was is Some <==> is is Some,
        was matches Some(a) ==> (is matches Some(b) && a.tree() == b.tree()),
{
}

/// An empty object holds nothing, and a copy and a text are what they are made of.
pub proof fn lemma_documents_are_what_they_are_made_of(
    key: &str,
    empty: Json,
    found: Option<&Json>,
    words: &str,
    text: Json,
    said: Option<&str>,
    copied: Json,
    again: Option<&str>,
)
    requires
        call_ensures(Json::object, (), empty),
        call_ensures(Json::get, (&empty, key), found),
        call_ensures(Json::text, (words,), text),
        call_ensures(Json::as_str, (&text,), said),
        call_ensures(Json::copy, (&text,), copied),
        call_ensures(Json::as_str, (&copied,), again),
    ensures
        found is None,
        said matches Some(t) && t@ == words@,
        again matches Some(t) && t@ == words@,
{
}

/// An integer is read as it is wherever it fits, and nowhere else.
pub proof fn lemma_integers_are_read_as_they_are(
    j: Json,
    unsigned: Option<u64>,
    signed: Option<i64>,
)
    requires
        call_ensures(Json::as_u64, (&j,), unsigned),
        call_ensures(Json::as_i64, (&j,), signed),
    ensures
        j.tree() matches Tree::Int(n) ==> (unsigned is Some <==> 0 <= n <= u64::MAX) && (signed
            is Some <==> i64::MIN <= n <= i64::MAX),
        j.tree() matches Tree::Int(n) ==> (unsigned matches Some(u) ==> u == n) && (signed matches
            Some(i) ==> i == n),
        !(j.tree() is Int) ==> unsigned is None && signed is None,
{
}

} // verus!
