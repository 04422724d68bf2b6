//! JSON values.
//!
//! [`Json`] is the library's own tree, which the decisions read and build.
//! `serde_json` does the parsing and the rendering: its values are opened one
//! level at a time, and the conversion into [`Json`] is verified.
use vstd::prelude::*;

use crate::text;

verus! {

// ---------------------------------------------------------------------------
// The model
// ---------------------------------------------------------------------------
/// A JSON document, mathematically. A number is held as its rendering; an
/// object as its entries in order.
pub enum JsonModel {
    Null,
    Bool(bool),
    Number(Seq<char>),
    Str(Seq<char>),
    Array(Seq<JsonModel>),
    Object(Seq<(Seq<char>, JsonModel)>),
}

/// The value of the first entry with a key.
pub open spec fn lookup(entries: Seq<(Seq<char>, JsonModel)>, key: Seq<char>) -> Option<JsonModel>
    decreases entries.len(),
{
    if entries.len() == 0 {
        None
    } else if entries[0].0 == key {
        Some(entries[0].1)
    } else {
        lookup(entries.skip(1), key)
    }
}

/// The array index that a path token denotes: a decimal number without a sign
/// or a leading zero.
pub open spec fn index_token(token: Seq<char>) -> Option<u64> {
    if token.len() > 0 && (token[0] == '+' || (token[0] == '0' && token.len() != 1)) {
        None
    } else {
        text::parsed_u64(token)
    }
}

/// The keys that `serde_json` keeps for itself: an object that begins with one may
/// be read as something else than an object.
pub open spec fn is_reserved(key: Seq<char>) -> bool {
    key == "$serde_json::private::RawValue"@ || key == "$serde_json::private::Number"@
}

impl JsonModel {
    /// The member of an object with a key.
    pub open spec fn field(self, key: Seq<char>) -> Option<JsonModel> {
        match self {
            JsonModel::Object(entries) => lookup(entries, key),
            _ => None,
        }
    }

    /// The element of an array or the member of an object that a path token
    /// denotes.
    pub open spec fn child(self, token: Seq<char>) -> Option<JsonModel> {
        match self {
            JsonModel::Object(entries) => lookup(entries, token),
            JsonModel::Array(items) => match index_token(token) {
                Some(i) => if i < items.len() {
                    Some(items[i as int])
                } else {
                    None
                },
                None => None,
            },
            _ => None,
        }
    }

    /// The value that a path of tokens leads to.
    pub open spec fn descend(self, path: Seq<Seq<char>>) -> Option<JsonModel>
        decreases path.len(),
    {
        if path.len() == 0 {
            Some(self)
        } else {
            match self.child(path[0]) {
                Some(next) => next.descend(path.skip(1)),
                None => None,
            }
        }
    }

    /// The characters of a JSON string.
    pub open spec fn text(self) -> Option<Seq<char>> {
        match self {
            JsonModel::Str(s) => Some(s),
            _ => None,
        }
    }

    /// The value of a JSON boolean.
    pub open spec fn flag(self) -> Option<bool> {
        match self {
            JsonModel::Bool(b) => Some(b),
            _ => None,
        }
    }

    /// The elements of a JSON array.
    pub open spec fn items(self) -> Option<Seq<JsonModel>> {
        match self {
            JsonModel::Array(items) => Some(items),
            _ => None,
        }
    }

    /// Whether every number in the document is an integer.
    pub open spec fn integral(self) -> bool
        decreases self,
    {
        match self {
            JsonModel::Number(n) => {
                let digits = text::unsigned_part(n, '-');
                digits.len() > 0 && text::all_digits(digits)
            },
            JsonModel::Array(items) => forall|i: int|
                0 <= i < items.len() ==> (#[trigger] items[i]).integral(),
            JsonModel::Object(entries) => forall|i: int|
                0 <= i < entries.len() ==> (#[trigger] entries[i]).1.integral(),
            _ => true,
        }
    }

    /// Whether no object in the document has a key that `serde_json` keeps for
    /// itself.
    pub open spec fn unreserved(self) -> bool
        decreases self,
    {
        match self {
            JsonModel::Array(items) => forall|i: int|
                0 <= i < items.len() ==> (#[trigger] items[i]).unreserved(),
            JsonModel::Object(entries) => forall|i: int|
                0 <= i < entries.len() ==> !is_reserved((#[trigger] entries[i]).0)
                    && entries[i].1.unreserved(),
            _ => true,
        }
    }

    /// Whether arrays and objects are nested at most `depth` deep.
    pub open spec fn nested_within(self, depth: nat) -> bool
        decreases depth,
    {
        match self {
            JsonModel::Array(items) => depth > 0 && forall|i: int|
                0 <= i < items.len() ==> (#[trigger] items[i]).nested_within((depth - 1) as nat),
            JsonModel::Object(entries) => depth > 0 && forall|i: int|
                0 <= i < entries.len() ==> (#[trigger] entries[i]).1.nested_within(
                    (depth - 1) as nat,
                ),
            _ => true,
        }
    }
}

/// A token that does not look like a number denotes a member of an object and
/// nothing else.
pub proof fn lemma_child_is_field(m: JsonModel, token: Seq<char>)
    requires
        token.len() > 0,
        !text::is_digit(token[0]),
        token[0] != '+',
    ensures
        m.child(token) == m.field(token),
{
    assert(!text::all_digits(token));
}

/// A path of two names leads to a member of a member.
pub proof fn lemma_descend2(m: JsonModel, a: Seq<char>, b: Seq<char>)
    ensures
        m.descend(seq![a, b]) == match m.child(a) {
            Some(x) => x.child(b),
            None => None,
        },
{
    let path = seq![a, b];
    assert(path.skip(1) =~= seq![b]);
    assert(seq![b].skip(1) =~= Seq::<Seq<char>>::empty());
    if let Some(x) = m.child(a) {
        assert(x.descend(seq![b]) == match x.child(b) {
            Some(y) => y.descend(Seq::<Seq<char>>::empty()),
            None => None,
        });
    }
}

/// A path of three names leads to a member of a member of a member.
pub proof fn lemma_descend3(m: JsonModel, a: Seq<char>, b: Seq<char>, c: Seq<char>)
    ensures
        m.descend(seq![a, b, c]) == match m.child(a) {
            Some(x) => match x.child(b) {
                Some(y) => y.child(c),
                None => None,
            },
            None => None,
        },
{
    assert(seq![a, b, c].skip(1) =~= seq![b, c]);
    if let Some(x) = m.child(a) {
        lemma_descend2(x, b, c);
    }
}

/// The token `0` denotes the first element of an array.
pub proof fn lemma_first_child(items: Seq<JsonModel>)
    ensures
        JsonModel::Array(items).child("0"@) == if items.len() > 0 {
            Some(items[0])
        } else {
            None
        },
{
    reveal_strlit("0");
    text::law_decimal_round_trip(0);
    assert("0"@ =~= text::decimal(0));
}

/// The keys of an object model are looked up in order: the entry at `i` is the
/// answer when no earlier entry has its key.
pub proof fn lemma_lookup_at(entries: Seq<(Seq<char>, JsonModel)>, key: Seq<char>, i: int)
    requires
        0 <= i < entries.len(),
        entries[i].0 == key,
        forall|j: int| 0 <= j < i ==> (#[trigger] entries[j]).0 != key,
    ensures
        lookup(entries, key) == Some(entries[i].1),
    decreases i,
{
    if i > 0 {
        let rest = entries.skip(1);
        assert forall|j: int| 0 <= j < i - 1 implies (#[trigger] rest[j]).0 != key by {
            assert(entries[j + 1].0 != key);
        }
        lemma_lookup_at(rest, key, i - 1);
    }
}

/// An object without an entry for a key has no member with it.
pub proof fn lemma_lookup_none(entries: Seq<(Seq<char>, JsonModel)>, key: Seq<char>)
    requires
        forall|j: int| 0 <= j < entries.len() ==> (#[trigger] entries[j]).0 != key,
    ensures
        lookup(entries, key) is None,
    decreases entries.len(),
{
    if entries.len() > 0 {
        let rest = entries.skip(1);
        assert forall|j: int| 0 <= j < rest.len() implies (#[trigger] rest[j]).0 != key by {
            assert(entries[j + 1].0 != key);
        }
        assert(entries[0].0 != key);
        lemma_lookup_none(rest, key);
    }
}

// ---------------------------------------------------------------------------
// The tree
// ---------------------------------------------------------------------------
/// A JSON document.
#[derive(Debug, PartialEq, Eq)]
pub enum Json {
    Null,
    Bool(bool),
    /// A number, as `serde_json` renders it.
    Number(String),
    Str(String),
    Array(Vec<Json>),
    /// The entries of an object, in order.
    Object(Vec<(String, Json)>),
}

impl View for Json {
    type V = JsonModel;

    open spec fn view(&self) -> JsonModel {
        self.model()
    }
}

impl Json {
    /// The document that a tree represents.
    pub open spec fn model(self) -> JsonModel
        decreases self,
    {
        match self {
            Json::Null => JsonModel::Null,
            Json::Bool(b) => JsonModel::Bool(b),
            Json::Number(n) => JsonModel::Number(n@),
            Json::Str(s) => JsonModel::Str(s@),
            Json::Array(items) => JsonModel::Array(
                Seq::new(
                    items@.len(),
                    |i: int|
                        if 0 <= i < items@.len() {
                            items@[i].model()
                        } else {
                            JsonModel::Null
                        },
                ),
            ),
            Json::Object(entries) => JsonModel::Object(
                Seq::new(
                    entries@.len(),
                    |i: int|
                        if 0 <= i < entries@.len() {
                            (entries@[i].0@, entries@[i].1.model())
                        } else {
                            (Seq::empty(), JsonModel::Null)
                        },
                ),
            ),
        }
    }

    /// A JSON string.
    pub fn string(s: &str) -> (r: Json)
        ensures
            r@ == JsonModel::Str(s@),
    {
        Json::Str(s.to_owned())
    }

    /// A JSON number with an unsigned value.
    pub fn unsigned(n: u64) -> (r: Json)
        ensures
            r@ == JsonModel::Number(text::decimal(n as nat)),
    {
        Json::Number(text::decimal_of(n))
    }

    /// An array of one element.
    pub fn array1(a: Json) -> (r: Json)
        ensures
            r@ == JsonModel::Array(seq![a@]),
    {
        let mut items: Vec<Json> = Vec::new();
        items.push(a);
        let r = Json::Array(items);
        assert(r.model()->Array_0 =~= seq![a@]);
        r
    }

    /// An object with one member.
    pub fn object1(key: &str, value: Json) -> (r: Json)
        ensures
            r@ == JsonModel::Object(seq![(key@, value@)]),
    {
        let mut entries: Vec<(String, Json)> = Vec::new();
        entries.push((key.to_owned(), value));
        let r = Json::Object(entries);
        assert(r.model()->Object_0 =~= seq![(key@, value@)]);
        r
    }

    /// An object with the members of `self` and one more at the end; a value
    /// that is no object is returned as it is.
    pub fn with(self, key: &str, value: Json) -> (r: Json)
        ensures
            match self@ {
                JsonModel::Object(entries) => r@ == JsonModel::Object(entries.push((key@, value@))),
                _ => r@ == self@,
            },
    {
        let ghost before = self@;
        match self {
            Json::Object(entries) => {
                let mut entries = entries;
                entries.push((key.to_owned(), value));
                let r = Json::Object(entries);
                assert(r.model()->Object_0 =~= before->Object_0.push((key@, value@)));
                r
            },
            other => other,
        }
    }

    /// An array with the elements of `self` and one more at the end; a value
    /// that is no array is returned as it is.
    pub fn and(self, item: Json) -> (r: Json)
        ensures
            match self@ {
                JsonModel::Array(items) => r@ == JsonModel::Array(items.push(item@)),
                _ => r@ == self@,
            },
    {
        let ghost before = self@;
        match self {
            Json::Array(items) => {
                let mut items = items;
                items.push(item);
                let r = Json::Array(items);
                assert(r.model()->Array_0 =~= before->Array_0.push(item@));
                r
            },
            other => other,
        }
    }

    /// The member of an object with a key.
    pub fn get(&self, key: &str) -> (r: Option<&Json>)
        ensures
            match r {
                Some(j) => self@.field(key@) == Some(j@),
                None => self@.field(key@) is None,
            },
    {
        match self {
            Json::Object(entries) => {
                let ghost models = self@->Object_0;
                let mut i: usize = 0;
                while i < entries.len()
                    invariant
                        i <= entries@.len(),
                        *self == Json::Object(*entries),
                        models == self@->Object_0,
                        forall|j: int| 0 <= j < i ==> (#[trigger] models[j]).0 != key@,
                    decreases entries@.len() - i,
                {
                    if text::same(entries[i].0.as_str(), key) {
                        proof {
                            lemma_lookup_at(models, key@, i as int);
                        }
                        return Some(&entries[i].1);
                    }
                    i += 1;
                }
                proof {
                    lemma_lookup_none(models, key@);
                }
                None
            },
            _ => None,
        }
    }

    /// The element or member that a path token denotes.
    fn step(&self, token: &str) -> (r: Option<&Json>)
        ensures
            match r {
                Some(j) => self@.child(token@) == Some(j@),
                None => self@.child(token@) is None,
            },
    {
        match self {
            Json::Array(items) => {
                let v = text::chars_of(token);
                if v.len() > 0 && (v[0] == '+' || (v[0] == '0' && v.len() != 1)) {
                    return None;
                }
                match text::parse_u64(token) {
                    Some(i) => if i < items.len() as u64 {
                        Some(&items[i as usize])
                    } else {
                        None
                    },
                    None => None,
                }
            },
            Json::Object(_) => self.get(token),
            _ => None,
        }
    }

    /// The value that a path of object keys and array indices leads to.
    pub fn at(&self, path: &[&str]) -> (r: Option<&Json>)
        ensures
            match r {
                Some(j) => self@.descend(path@.map_values(|t: &str| t@)) == Some(j@),
                None => self@.descend(path@.map_values(|t: &str| t@)) is None,
            },
    {
        let ghost tokens = path@.map_values(|t: &str| t@);
        let mut here: &Json = self;
        let mut i: usize = 0;
        assert(tokens.skip(0) == tokens);
        while i < path.len()
            invariant
                i <= path@.len(),
                tokens == path@.map_values(|t: &str| t@),
                self@.descend(tokens) == here@.descend(tokens.skip(i as int)),
            decreases path@.len() - i,
        {
            assert(tokens.skip(i as int).skip(1) == tokens.skip(i + 1));
            match here.step(path[i]) {
                Some(next) => {
                    here = next;
                },
                None => {
                    return None;
                },
            }
            i += 1;
        }
        Some(here)
    }

    /// The value that two tokens lead to.
    pub fn at2(&self, a: &str, b: &str) -> (r: Option<&Json>)
        ensures
            match r {
                Some(j) => self@.descend(seq![a@, b@]) == Some(j@),
                None => self@.descend(seq![a@, b@]) is None,
            },
    {
        let path = [a, b];
        assert(path@.map_values(|t: &str| t@) =~= seq![a@, b@]);
        self.at(&path)
    }

    /// The value that three tokens lead to.
    pub fn at3(&self, a: &str, b: &str, c: &str) -> (r: Option<&Json>)
        ensures
            match r {
                Some(j) => self@.descend(seq![a@, b@, c@]) == Some(j@),
                None => self@.descend(seq![a@, b@, c@]) is None,
            },
    {
        let path = [a, b, c];
        assert(path@.map_values(|t: &str| t@) =~= seq![a@, b@, c@]);
        self.at(&path)
    }

    /// The string that a member of an object is.
    pub fn get_text(&self, key: &str) -> (r: Option<&str>)
        ensures
            text::opt_str(r) == text_in(self@.field(key@)),
    {
        match self.get(key) {
            Some(j) => j.as_str(),
            None => None,
        }
    }

    /// The string that two tokens lead to.
    pub fn text_at2(&self, a: &str, b: &str) -> (r: Option<&str>)
        ensures
            text::opt_str(r) == text_in(self@.descend(seq![a@, b@])),
    {
        match self.at2(a, b) {
            Some(j) => j.as_str(),
            None => None,
        }
    }

    /// The characters of a JSON string.
    pub fn as_str(&self) -> (r: Option<&str>)
        ensures
            match r {
                Some(s) => self@.text() == Some(s@),
                None => self@.text() is None,
            },
    {
        match self {
            Json::Str(s) => Some(s.as_str()),
            _ => None,
        }
    }

    /// The value of a JSON boolean.
    pub fn as_bool(&self) -> (r: Option<bool>)
        ensures
            r == self@.flag(),
    {
        match self {
            Json::Bool(b) => Some(*b),
            _ => None,
        }
    }

    /// The elements of a JSON array.
    pub fn as_array(&self) -> (r: Option<&Vec<Json>>)
        ensures
            match r {
                Some(items) => self@ == JsonModel::Array(models_of(items@)),
                None => self@.items() is None,
            },
    {
        match self {
            Json::Array(items) => {
                assert(self@->Array_0 =~= models_of(items@));
                Some(items)
            },
            _ => None,
        }
    }

    /// Whether the value is `null`.
    pub fn is_null(&self) -> (r: bool)
        ensures
            r == (self@ is Null),
    {
        match self {
            Json::Null => true,
            _ => false,
        }
    }

    /// A copy of the document.
    pub fn copy(&self) -> (r: Json)
        ensures
            r@ == self@,
        decreases self,
    {
        match self {
            Json::Null => Json::Null,
            Json::Bool(b) => Json::Bool(*b),
            Json::Number(n) => Json::Number(n.clone()),
            Json::Str(s) => Json::Str(s.clone()),
            Json::Array(items) => {
                let mut out: Vec<Json> = Vec::new();
                for i in 0..items.len()
                    invariant
                        out@.len() == i,
                        *self == Json::Array(*items),
                        forall|k: int| 0 <= k < i ==> out@[k].model() == (#[trigger] items@[k]).model(),
                {
                    assert(decreases_to!(*self => self->Array_0));
                    assert(decreases_to!(*items => items@));
                    assert(decreases_to!(items@ => items@[i as int]));
                    out.push(items[i].copy());
                }
                let r = Json::Array(out);
                assert(r.model()->Array_0 =~= self.model()->Array_0);
                r
            },
            Json::Object(entries) => {
                let mut out: Vec<(String, Json)> = Vec::new();
                for i in 0..entries.len()
                    invariant
                        out@.len() == i,
                        *self == Json::Object(*entries),
                        forall|k: int|
                            0 <= k < i ==> out@[k].0@ == (#[trigger] entries@[k]).0@
                                && out@[k].1.model() == entries@[k].1.model(),
                {
                    assert(decreases_to!(*self => self->Object_0));
                    assert(decreases_to!(*entries => entries@));
                    assert(decreases_to!(entries@ => entries@[i as int]));
                    assert(decreases_to!(entries@[i as int] => entries@[i as int].1));
                    out.push((entries[i].0.clone(), entries[i].1.copy()));
                }
                let r = Json::Object(out);
                assert(r.model()->Object_0 =~= self.model()->Object_0);
                r
            },
        }
    }
}

/// The string that is there, where one is.
pub open spec fn text_in(m: Option<JsonModel>) -> Option<Seq<char>> {
    match m {
        Some(j) => j.text(),
        None => None,
    }
}

/// The documents that a sequence of trees represents.
pub open spec fn models_of(items: Seq<Json>) -> Seq<JsonModel> {
    items.map_values(|j: Json| j@)
}

// ---------------------------------------------------------------------------
// serde_json
// ---------------------------------------------------------------------------
/// `serde_json::Value`, carried as it is.
#[verifier::external_type_specification]
#[verifier::external_body]
pub struct ExValue(serde_json::Value);

/// What a `serde_json::Value` holds.
pub uninterp spec fn value_model(v: serde_json::Value) -> JsonModel;

/// What a text denotes as a JSON document, or the message of the parse error.
pub uninterp spec fn json_parse(text: Seq<char>) -> Result<JsonModel, Seq<char>>;

/// The outcome of a parse that succeeds.
pub open spec fn parsed(m: JsonModel) -> Result<JsonModel, Seq<char>> {
    Ok(m)
}

/// The outcome of a parse that fails with a message.
pub open spec fn unparsed(message: Seq<char>) -> Result<JsonModel, Seq<char>> {
    Err(message)
}

/// The compact rendering of a document.
pub uninterp spec fn json_text(m: JsonModel) -> Seq<char>;

/// The nesting that `serde_json` still parses.
pub const MAX_NESTING: u32 = 127;

/// Whether a document is read back from its rendering: its numbers are integers,
/// no object in it has a reserved key, and it is nested no deeper than the parser
/// goes.
pub open spec fn survives(m: JsonModel) -> bool {
    m.integral() && m.unreserved() && m.nested_within(MAX_NESTING as nat)
}

/// `serde_json::from_str::<Value>`, with the error rendered by `to_string`.
///
/// Claimed: what comes back depends on the text alone.
#[verifier::external_body]
pub(crate) fn value_from_str(text: &str) -> (r: Result<serde_json::Value, String>)
    ensures
        match r {
            Ok(v) => json_parse(text@) == parsed(value_model(v)),
            Err(e) => json_parse(text@) == unparsed(e@),
        },
{
    serde_json::from_str::<serde_json::Value>(text).map_err(|e| e.to_string())
}

/// `Value::to_string`.
///
/// Claimed: the text depends on what the value holds alone; and a document whose
/// numbers are integers, that has no reserved key and is nested no deeper than the
/// parser goes, is read back from it. A fractional number is not claimed to
/// survive: the parser may round it. Nor is an object with a reserved key: where
/// such a key comes first, the parser takes the object for something else.
#[verifier::external_body]
pub(crate) fn value_text(v: &serde_json::Value) -> (r: String)
    ensures
        r@ == json_text(value_model(*v)),
        survives(value_model(*v)) ==> json_parse(r@) == parsed(value_model(*v)),
{
    v.to_string()
}

/// `serde_json::Map::new`, as a value: an object without members.
#[verifier::external_body]
pub(crate) fn empty_object() -> (r: serde_json::Value)
    ensures
        value_model(r) == JsonModel::Object(Seq::empty()),
{
    serde_json::Value::Object(serde_json::Map::new())
}

/// A `serde_json::Value`, opened one level.
pub(crate) enum Opened {
    Null,
    Bool(bool),
    Number(String),
    Str(String),
    Array(Vec<serde_json::Value>),
    Object(Vec<(String, serde_json::Value)>),
}

/// The model of an opened value.
pub(crate) open spec fn opened_model(o: Opened) -> JsonModel {
    match o {
        Opened::Null => JsonModel::Null,
        Opened::Bool(b) => JsonModel::Bool(b),
        Opened::Number(n) => JsonModel::Number(n@),
        Opened::Str(s) => JsonModel::Str(s@),
        Opened::Array(items) => JsonModel::Array(
            items@.map_values(|v: serde_json::Value| value_model(v)),
        ),
        Opened::Object(entries) => JsonModel::Object(
            entries@.map_values(|e: (String, serde_json::Value)| (e.0@, value_model(e.1))),
        ),
    }
}

/// The variants of `serde_json::Value`, with their fields: a number by its
/// `to_string`, an object by the entries of its map in the map's order.
#[verifier::external_body]
pub(crate) fn open_value(v: serde_json::Value) -> (r: Opened)
    ensures
        opened_model(r) == value_model(v),
{
    match v {
        serde_json::Value::Null => Opened::Null,
        serde_json::Value::Bool(b) => Opened::Bool(b),
        serde_json::Value::Number(n) => Opened::Number(n.to_string()),
        serde_json::Value::String(s) => Opened::Str(s),
        serde_json::Value::Array(items) => Opened::Array(items),
        serde_json::Value::Object(map) => Opened::Object(map.into_iter().collect()),
    }
}

/// The tree of a `serde_json::Value`.
pub fn from_value(v: serde_json::Value) -> (r: Json)
    ensures
        r@ == value_model(v),
    decreases value_model(v),
{
    let ghost m = value_model(v);
    match open_value(v) {
        Opened::Null => Json::Null,
        Opened::Bool(b) => Json::Bool(b),
        Opened::Number(n) => Json::Number(n),
        Opened::Str(s) => Json::Str(s),
        Opened::Array(items) => {
            let ghost models = items@.map_values(|v: serde_json::Value| value_model(v));
            let mut out: Vec<Json> = Vec::new();
            for item in it: items
                invariant
                    m == value_model(v),
                    m == JsonModel::Array(models),
                    models == it.seq().map_values(|v: serde_json::Value| value_model(v)),
                    out@.len() == it.index(),
                    forall|k: int| 0 <= k < it.index() ==> (#[trigger] out@[k]).model() == models[k],
            {
                assert(value_model(item) == models[it.index() as int]);
                assert(decreases_to!(m => m->Array_0));
                assert(decreases_to!(models => models[it.index() as int]));
                out.push(from_value(item));
            }
            let r = Json::Array(out);
            assert(r.model()->Array_0 =~= models);
            r
        },
        Opened::Object(entries) => {
            let ghost models = entries@.map_values(
                |e: (String, serde_json::Value)| (e.0@, value_model(e.1)),
            );
            let mut out: Vec<(String, Json)> = Vec::new();
            for entry in it: entries
                invariant
                    m == value_model(v),
                    m == JsonModel::Object(models),
                    models == it.seq().map_values(
                        |e: (String, serde_json::Value)| (e.0@, value_model(e.1)),
                    ),
                    out@.len() == it.index(),
                    forall|k: int|
                        0 <= k < it.index() ==> (#[trigger] out@[k]).0@ == models[k].0
                            && out@[k].1.model() == models[k].1,
            {
                assert((entry.0@, value_model(entry.1)) == models[it.index() as int]);
                assert(decreases_to!(m => m->Object_0));
                assert(decreases_to!(models => models[it.index() as int]));
                assert(decreases_to!(models[it.index() as int] => models[it.index() as int].1));
                out.push((entry.0, from_value(entry.1)));
            }
            let r = Json::Object(out);
            assert(r.model()->Object_0 =~= models);
            r
        },
    }
}

/// Parses a text.
pub fn parse_json(text: &str) -> (r: Result<Json, String>)
    ensures
        match r {
            Ok(j) => json_parse(text@) == parsed(j@),
            Err(e) => json_parse(text@) == unparsed(e@),
        },
{
    match value_from_str(text) {
        Ok(v) => Ok(from_value(v)),
        Err(e) => Err(e),
    }
}

} // verus!
