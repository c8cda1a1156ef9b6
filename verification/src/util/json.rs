//! JSON texts as plain values. `serde_json` reads and writes them; what the
//! other modules look up in a value is looked up here.

use crate::util::text::{decimal, same, signed_decimal};
use crate::util::time_fmt::Timestamp;
use vstd::prelude::*;

verus! {

/// A JSON value, with its compact text.
pub struct Json {
    pub text: String,
    pub kind: Kind,
}

/// What a JSON value is.
pub enum Kind {
    Null,
    Bool(bool),
    /// A number, with its value where that is an integer of 64 bits with a sign.
    Number(Option<i64>),
    Text(String),
    Array(Vec<Json>),
    Object(Vec<(String, Json)>),
}

/// The view of a `Json`.
pub struct Tree {
    pub text: Seq<char>,
    pub kind: TreeKind,
}

/// The view of a `Kind`.
pub enum TreeKind {
    Null,
    Bool(bool),
    Number(Option<i64>),
    Text(Seq<char>),
    Array(Seq<Tree>),
    Object(Seq<(Seq<char>, Tree)>),
}

/// The view of a JSON value.
pub open spec fn tree_of(j: Json) -> Tree
    decreases j,
{
    let kind = match j.kind {
        Kind::Null => TreeKind::Null,
        Kind::Bool(b) => TreeKind::Bool(b),
        Kind::Number(n) => TreeKind::Number(n),
        Kind::Text(s) => TreeKind::Text(s@),
        Kind::Array(v) => TreeKind::Array(
            Seq::new(
                v@.len(),
                |i: int|
                    if 0 <= i < v@.len() {
                        tree_of(v@[i])
                    } else {
                        arbitrary()
                    },
            ),
        ),
        Kind::Object(v) => TreeKind::Object(
            Seq::new(
                v@.len(),
                |i: int|
                    if 0 <= i < v@.len() {
                        (v@[i].0@, tree_of(v@[i].1))
                    } else {
                        arbitrary()
                    },
            ),
        ),
    };
    Tree { text: j.text@, kind }
}

impl View for Json {
    type V = Tree;

    open spec fn view(&self) -> Tree {
        tree_of(*self)
    }
}

/// The views of a sequence of JSON values.
pub open spec fn trees(v: Seq<Json>) -> Seq<Tree> {
    Seq::new(v.len(), |i: int| v[i]@)
}

impl Tree {
    /// The value of the member `key`, where the value is an object that has it.
    pub open spec fn member(self, key: Seq<char>) -> Option<Tree> {
        match self.kind {
            TreeKind::Object(fields) => member_from(fields, key, 0),
            _ => None,
        }
    }

    /// The string, where the value is one.
    pub open spec fn string(self) -> Option<Seq<char>> {
        match self.kind {
            TreeKind::Text(s) => Some(s),
            _ => None,
        }
    }

    /// The elements, where the value is an array.
    pub open spec fn elements(self) -> Option<Seq<Tree>> {
        match self.kind {
            TreeKind::Array(v) => Some(v),
            _ => None,
        }
    }
}

/// The value of the first member named `key` at or after position `i`.
pub open spec fn member_from(fields: Seq<(Seq<char>, Tree)>, key: Seq<char>, i: int) -> Option<Tree>
    decreases fields.len() - i,
{
    if i < 0 || i >= fields.len() {
        None
    } else if fields[i].0 == key {
        Some(fields[i].1)
    } else {
        member_from(fields, key, i + 1)
    }
}

/// The string member `key` of an object.
pub open spec fn string_member(t: Tree, key: Seq<char>) -> Option<Seq<char>> {
    match t.member(key) {
        Some(m) => m.string(),
        None => None,
    }
}

impl Json {
    /// The value of the member `key`, where the value is an object that has it.
    pub fn get(&self, key: &str) -> (r: Option<&Json>)
        ensures
            match r {
                Some(j) => self@.member(key@) == Some(j@),
                None => self@.member(key@) is None,
            },
    {
        match &self.kind {
            Kind::Object(v) => {
                let ghost fields = self@.kind->Object_0;
                let mut i: usize = 0;
                while i < v.len()
                    invariant
                        i <= v@.len(),
                        self@.kind == TreeKind::Object(fields),
                        fields.len() == v@.len(),
                        forall|k: int|
                            0 <= k < v@.len() ==> fields[k].0 == v@[k].0@ && fields[k].1
                                == v@[k].1@,
                        member_from(fields, key@, 0) == member_from(fields, key@, i as int),
                    decreases v@.len() - i,
                {
                    if same(v[i].0.as_str(), key) {
                        return Some(&v[i].1);
                    }
                    i += 1;
                }
                None
            },
            _ => None,
        }
    }

    /// The string, where the value is one.
    pub fn as_str(&self) -> (r: Option<&str>)
        ensures
            match r {
                Some(s) => self@.string() == Some(s@),
                None => self@.string() is None,
            },
    {
        match &self.kind {
            Kind::Text(s) => Some(s.as_str()),
            _ => None,
        }
    }

    /// The elements, where the value is an array.
    pub fn as_array(&self) -> (r: Option<&Vec<Json>>)
        ensures
            match r {
                Some(v) => self@.elements() == Some(trees(v@)),
                None => self@.elements() is None,
            },
    {
        match &self.kind {
            Kind::Array(v) => {
                assert(self@.kind->Array_0 =~= trees(v@));
                Some(v)
            },
            _ => None,
        }
    }

    /// The string member `key` of an object.
    pub fn get_str(&self, key: &str) -> (r: Option<&str>)
        ensures
            match r {
                Some(s) => string_member(self@, key@) == Some(s@),
                None => string_member(self@, key@) is None,
            },
    {
        match self.get(key) {
            Some(m) => m.as_str(),
            None => None,
        }
    }
}

/// A JSON value as `serde_json` holds it.
#[verifier::external_type_specification]
#[verifier::external_body]
pub struct ExValue(serde_json::Value);

/// What `serde_json` reads in a text, or `None` where it rejects the text.
pub uninterp spec fn json_tree(text: Seq<char>) -> Option<Tree>;

/// A value of `serde_json` as a plain value: each variant as the variant of the
/// same meaning, with `Value::to_string` beside it as the compact text. Nothing
/// is claimed of it.
#[verifier::external_body]
fn json_of(v: &serde_json::Value) -> Json {
    let kind = match v {
        serde_json::Value::Null => Kind::Null,
        serde_json::Value::Bool(b) => Kind::Bool(*b),
        serde_json::Value::Number(n) => Kind::Number(n.as_i64()),
        serde_json::Value::String(s) => Kind::Text(s.clone()),
        serde_json::Value::Array(a) => Kind::Array(a.iter().map(json_of).collect()),
        serde_json::Value::Object(m) => Kind::Object(
            m.iter().map(|(k, x)| (k.clone(), json_of(x))).collect(),
        ),
    };
    Json { text: v.to_string(), kind }
}

/// `serde_json::from_str` into a `serde_json::Value`: the value is a function
/// of the text, named `json_tree`.
#[verifier::external_body]
pub(crate) fn read_json(text: &str) -> (r: Option<Json>)
    ensures
        match r {
            Some(j) => json_tree(text@) == Some(j@),
            None => json_tree(text@) is None,
        },
{
    serde_json::from_str::<serde_json::Value>(text).ok().map(|v| json_of(&v))
}

/// A value to be written as JSON.
pub enum Field {
    Text(String),
    Int(i64),
    Uint(u64),
    /// Seconds with a fraction.
    Time(Timestamp),
    List(Vec<String>),
}

/// The view of a `Field`.
pub enum FieldView {
    Text(Seq<char>),
    Int(i64),
    Uint(u64),
    Time(Timestamp),
    List(Seq<Seq<char>>),
}

impl View for Field {
    type V = FieldView;

    open spec fn view(&self) -> FieldView {
        match self {
            Field::Text(s) => FieldView::Text(s@),
            Field::Int(n) => FieldView::Int(*n),
            Field::Uint(n) => FieldView::Uint(*n),
            Field::Time(t) => FieldView::Time(*t),
            Field::List(v) => FieldView::List(crate::util::text::views(v@)),
        }
    }
}

/// The views of named fields.
pub open spec fn fields_view(v: Seq<(String, Field)>) -> Seq<(Seq<char>, FieldView)> {
    Seq::new(v.len(), |i: int| (v[i].0@, v[i].1@))
}

/// The compact JSON text of an object with these members.
pub uninterp spec fn object_text(fields: Seq<(Seq<char>, FieldView)>) -> Seq<char>;

/// The JSON text of an object with these members, spread over lines.
pub uninterp spec fn pretty_text(fields: Seq<(Seq<char>, FieldView)>) -> Seq<char>;

/// The members as a value of `serde_json`: each field as the variant of the
/// same meaning. Nothing is claimed of it.
#[verifier::external_body]
fn value_of(fields: &Vec<(String, Field)>) -> serde_json::Value {
    fields.iter().map(|(k, f)| (k.clone(), match f {
        Field::Text(s) => serde_json::Value::from(s.as_str()),
        Field::Int(n) => serde_json::Value::from(*n),
        Field::Uint(n) => serde_json::Value::from(*n),
        Field::Time(t) => serde_json::Value::from(
            std::time::Duration::from_secs(t.secs).saturating_add(
                std::time::Duration::from_nanos(t.nanos as u64),
            ).as_secs_f64(),
        ),
        Field::List(v) => serde_json::Value::from(v.clone()),
    })).collect()
}

/// `serde_json::Value::to_string` on an object with these members: its text is
/// a function of them, named `object_text`.
#[verifier::external_body]
pub(crate) fn write_object(fields: &Vec<(String, Field)>) -> (r: String)
    ensures
        r@ == object_text(fields_view(fields@)),
{
    value_of(fields).to_string()
}

/// A value read is the field that was written: a string is the same string, a
/// whole number has the same digits, a time is a number, and a list an array.
pub open spec fn reads_as(t: Tree, f: FieldView) -> bool {
    match f {
        FieldView::Text(s) => t.kind == TreeKind::Text(s),
        FieldView::Int(n) => t.kind is Number && t.text == signed_decimal(n as int),
        FieldView::Uint(n) => t.kind is Number && t.text == decimal(n as nat),
        FieldView::Time(_) => t.kind is Number,
        FieldView::List(_) => t.kind is Array,
    }
}

/// No two members have the same name.
pub open spec fn distinct_names(fields: Seq<(Seq<char>, FieldView)>) -> bool {
    forall|i: int, j: int|
        0 <= i < j < fields.len() ==> (#[trigger] fields[i]).0 != (#[trigger] fields[j]).0
}

/// What was read is an object with the members that were written, and no others.
pub open spec fn reads_back(read: Option<Tree>, fields: Seq<(Seq<char>, FieldView)>) -> bool {
    read matches Some(t) && {
        &&& forall|i: int|
            0 <= i < fields.len() ==> (t.member((#[trigger] fields[i]).0) matches Some(m)
                && reads_as(m, fields[i].1))
        &&& forall|key: Seq<char>|
            (forall|i: int| 0 <= i < fields.len() ==> (#[trigger] fields[i]).0 != key)
                ==> #[trigger] t.member(key) is None
    }
}

/// `serde_json::to_string_pretty` on an object with these members: its text is
/// a function of them, named `pretty_text`, and `serde_json::from_str` reads the
/// members back from it. It reports an error only for a map with keys that are
/// no strings, which such an object is not.
#[verifier::external_body]
pub(crate) fn write_pretty(fields: &Vec<(String, Field)>) -> (r: Option<String>)
    ensures
        r is Some,
        r->0@ == pretty_text(fields_view(fields@)),
        distinct_names(fields_view(fields@)) ==> reads_back(
            json_tree(r->0@),
            fields_view(fields@),
        ),
{
    serde_json::to_string_pretty(&value_of(fields)).ok()
}

/// A member is found by its key: the first with that key, and none where there
/// is no such key.
pub proof fn law_member_is_found_by_its_key(
    fields: Seq<(Seq<char>, Tree)>,
    key: Seq<char>,
    from: int,
    k: int,
)
    requires
        0 <= from <= k <= fields.len(),
        forall|i: int| from <= i < k ==> (#[trigger] fields[i]).0 != key,
    ensures
        k < fields.len() && fields[k].0 == key ==> member_from(fields, key, from) == Some(
            fields[k].1,
        ),
        k == fields.len() ==> member_from(fields, key, from) is None,
    decreases k - from,
{
    if from < k {
        assert(fields[from].0 != key);
        law_member_is_found_by_its_key(fields, key, from + 1, k);
    }
}

} // verus!
