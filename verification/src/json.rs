//! JSON values: what a value means, how it is read and how it is assembled.
//!
//! Text is turned into values by `serde_json`. Everything that looks into a
//! value works on [`Json`], whose meaning is a [`JsonView`].

use crate::text::{same_text, sorts_before, views};
use vstd::prelude::*;
use vstd::string::*;

verus! {

/// A JSON value.
///
/// A number is held as the integer that it is. One with a fraction or an
/// exponent is held by its shortest decimal text, since nothing here
/// calculates with it.
#[derive(Debug)]
pub enum Json {
    Null,
    Bool(bool),
    Unsigned(u64),
    Negative(i64),
    Fraction(String),
    Text(String),
    Array(Vec<Json>),
    /// Members in the order in which they were put in. Of two members with one
    /// name the later counts.
    Object(Vec<(String, Json)>),
}

/// What a [`Json`] value means.
#[verifier::ext_equal]
pub enum JsonView {
    Null,
    Bool(bool),
    Unsigned(u64),
    Negative(i64),
    Fraction(Seq<char>),
    Text(Seq<char>),
    Array(Seq<JsonView>),
    Object(Map<Seq<char>, JsonView>),
}

impl View for Json {
    type V = JsonView;

    open spec fn view(&self) -> JsonView {
        self.meaning()
    }
}

/// The meanings of the items of an array.
pub open spec fn items_view(items: Seq<Json>) -> Seq<JsonView>
    decreases items,
{
    Seq::new(
        items.len(),
        |i: int|
            if 0 <= i < items.len() {
                items[i].meaning()
            } else {
                JsonView::Null
            },
    )
}

/// The meanings of the members of an object, by name.
pub open spec fn members_view(members: Seq<(String, Json)>) -> Map<Seq<char>, JsonView>
    decreases members, members.len(),
{
    if members.len() == 0 {
        Map::empty()
    } else {
        members_view(members.drop_last()).insert(
            members.last().0@,
            members.last().1.meaning(),
        )
    }
}

impl Json {
    pub open spec fn meaning(self) -> JsonView
        decreases self,
    {
        match self {
            Json::Null => JsonView::Null,
            Json::Bool(b) => JsonView::Bool(b),
            Json::Unsigned(n) => JsonView::Unsigned(n),
            Json::Negative(n) => JsonView::Negative(n),
            Json::Fraction(s) => JsonView::Fraction(s@),
            Json::Text(s) => JsonView::Text(s@),
            Json::Array(items) => JsonView::Array(items_view(items@)),
            Json::Object(members) => JsonView::Object(members_view(members@)),
        }
    }
}

impl JsonView {
    /// The member of that name; `None` where this is no object or has none.
    pub open spec fn get(self, name: Seq<char>) -> Option<JsonView> {
        match self {
            JsonView::Object(members) => if members.contains_key(name) {
                Some(members[name])
            } else {
                None
            },
            _ => None,
        }
    }

    /// The member of that name, `Null` where there is none.
    pub open spec fn at(self, name: Seq<char>) -> JsonView {
        match self.get(name) {
            Some(v) => v,
            None => JsonView::Null,
        }
    }

    pub open spec fn as_text(self) -> Option<Seq<char>> {
        match self {
            JsonView::Text(s) => Some(s),
            _ => None,
        }
    }

    pub open spec fn text_or(self, default: Seq<char>) -> Seq<char> {
        match self {
            JsonView::Text(s) => s,
            _ => default,
        }
    }

    pub open spec fn as_array(self) -> Option<Seq<JsonView>> {
        match self {
            JsonView::Array(items) => Some(items),
            _ => None,
        }
    }

    /// The items of an array; of anything else, none.
    pub open spec fn items(self) -> Seq<JsonView> {
        match self {
            JsonView::Array(items) => items,
            _ => Seq::empty(),
        }
    }

    pub open spec fn as_u64(self) -> Option<u64> {
        match self {
            JsonView::Unsigned(n) => Some(n),
            _ => None,
        }
    }

    pub open spec fn u64_or(self, default: u64) -> u64 {
        match self {
            JsonView::Unsigned(n) => n,
            _ => default,
        }
    }

    pub open spec fn bool_or(self, default: bool) -> bool {
        match self {
            JsonView::Bool(b) => b,
            _ => default,
        }
    }
}

proof fn lemma_last_member_decides(members: Seq<(String, Json)>, i: int, name: Seq<char>)
    requires
        0 <= i < members.len(),
        members[i].0@ == name,
        forall|j: int| i < j < members.len() ==> members[j].0@ != name,
    ensures
        members_view(members).contains_key(name),
        members_view(members)[name] == members[i].1@,
    decreases members.len(),
{
    if i < members.len() - 1 {
        lemma_last_member_decides(members.drop_last(), i, name);
    }
}

proof fn lemma_absent_member(members: Seq<(String, Json)>, name: Seq<char>)
    requires
        forall|j: int| 0 <= j < members.len() ==> members[j].0@ != name,
    ensures
        !members_view(members).contains_key(name),
    decreases members.len(),
{
    if members.len() > 0 {
        lemma_absent_member(members.drop_last(), name);
    }
}

/// Finds the member that counts under a name.
pub fn member<'a>(members: &'a Vec<(String, Json)>, name: &str) -> (r: Option<&'a Json>)
    ensures
        match r {
            Some(v) => members_view(members@).contains_key(name@) && members_view(
                members@,
            )[name@] == v@,
            None => !members_view(members@).contains_key(name@),
        },
{
    let mut i: usize = members.len();
    while i > 0
        invariant
            i <= members@.len(),
            forall|j: int| i <= j < members@.len() ==> members@[j].0@ != name@,
        decreases i,
    {
        i -= 1;
        if same_text(members[i].0.as_str(), name) {
            proof {
                lemma_last_member_decides(members@, i as int, name@);
            }
            return Some(&members[i].1);
        }
    }
    proof {
        lemma_absent_member(members@, name@);
    }
    None
}

impl Json {
    /// A text value.
    pub fn text(s: &str) -> (r: Json)
        ensures
            r@ == JsonView::Text(s@),
    {
        Json::Text(s.to_string())
    }

    /// A whole number.
    pub fn number(n: u32) -> (r: Json)
        ensures
            r@ == JsonView::Unsigned(n as u64),
    {
        Json::Unsigned(n as u64)
    }

    /// An object without members.
    pub fn object() -> (r: Json)
        ensures
            r@ == JsonView::Object(Map::empty()),
    {
        Json::Object(Vec::new())
    }

    /// This object with one more member.
    pub fn with(self, name: &str, value: Json) -> (r: Json)
        requires
            self@ is Object,
        ensures
            r@ == JsonView::Object(self@->Object_0.insert(name@, value@)),
    {
        match self {
            Json::Object(members) => {
                let mut all = members;
                all.push((name.to_string(), value));
                assert(all@.drop_last() =~= members@);
                Json::Object(all)
            },
            other => other,
        }
    }

    /// An array.
    pub fn array(items: Vec<Json>) -> (r: Json)
        ensures
            r@ == JsonView::Array(items_view(items@)),
    {
        Json::Array(items)
    }

    /// An array of texts.
    pub fn texts(items: &Vec<String>) -> (r: Json)
        ensures
            r@ == JsonView::Array(items@.map_values(|s: String| JsonView::Text(s@))),
    {
        let mut out: Vec<Json> = Vec::new();
        let mut i: usize = 0;
        while i < items.len()
            invariant
                i <= items@.len(),
                out@.len() == i,
                forall|j: int| 0 <= j < i ==> (#[trigger] out@[j])@ == JsonView::Text(items@[j]@),
            decreases items.len() - i,
        {
            out.push(Json::text(items[i].as_str()));
            i += 1;
        }
        assert(items_view(out@) =~= items@.map_values(|s: String| JsonView::Text(s@)));
        Json::Array(out)
    }

    /// The member of that name, where this is an object that has one.
    pub fn get(&self, name: &str) -> (r: Option<&Json>)
        ensures
            match r {
                Some(v) => self@.get(name@) == Some(v@),
                None => self@.get(name@) is None,
            },
    {
        match self {
            Json::Object(members) => member(members, name),
            _ => None,
        }
    }

    pub fn as_text(&self) -> (r: Option<&str>)
        ensures
            match r {
                Some(s) => self@.as_text() == Some(s@),
                None => self@.as_text() is None,
            },
    {
        match self {
            Json::Text(s) => Some(s.as_str()),
            _ => None,
        }
    }

    pub fn as_array(&self) -> (r: Option<&Vec<Json>>)
        ensures
            match r {
                Some(items) => self@.as_array() == Some(items_view(items@)),
                None => self@.as_array() is None,
            },
    {
        match self {
            Json::Array(items) => Some(items),
            _ => None,
        }
    }

    pub fn as_u64(&self) -> (r: Option<u64>)
        ensures
            r == self@.as_u64(),
    {
        match self {
            Json::Unsigned(n) => Some(*n),
            _ => None,
        }
    }

    pub fn as_bool(&self) -> (r: Option<bool>)
        ensures
            r == (match self@ {
                JsonView::Bool(b) => Some(b),
                _ => None,
            }),
    {
        match self {
            Json::Bool(b) => Some(*b),
            _ => None,
        }
    }

    /// The text member of that name, or the given text.
    pub fn text_at<'a>(&'a self, name: &str, default: &'a str) -> (r: &'a str)
        ensures
            r@ == self@.at(name@).text_or(default@),
    {
        match self.get(name) {
            Some(v) => match v.as_text() {
                Some(s) => s,
                None => default,
            },
            None => default,
        }
    }

    /// The whole number under that name, or the given one.
    pub fn u64_at(&self, name: &str, default: u64) -> (r: u64)
        ensures
            r == self@.at(name@).u64_or(default),
    {
        match self.get(name) {
            Some(v) => match v.as_u64() {
                Some(n) => n,
                None => default,
            },
            None => default,
        }
    }

    /// The truth value under that name, or the given one.
    pub fn bool_at(&self, name: &str, default: bool) -> (r: bool)
        ensures
            r == self@.at(name@).bool_or(default),
    {
        match self.get(name) {
            Some(v) => match v.as_bool() {
                Some(b) => b,
                None => default,
            },
            None => default,
        }
    }

    /// The array under that name, where there is one.
    pub fn array_at(&self, name: &str) -> (r: Option<&Vec<Json>>)
        ensures
            match r {
                Some(items) => self@.at(name@).as_array() == Some(items_view(items@)),
                None => self@.at(name@).as_array() is None,
            },
    {
        match self.get(name) {
            Some(v) => v.as_array(),
            None => None,
        }
    }

    /// A second value of the same meaning.
    pub fn copy(&self) -> (r: Json)
        ensures
            r@ == self@,
        decreases self,
    {
        match self {
            Json::Null => Json::Null,
            Json::Bool(b) => Json::Bool(*b),
            Json::Unsigned(n) => Json::Unsigned(*n),
            Json::Negative(n) => Json::Negative(*n),
            Json::Fraction(s) => Json::Fraction(s.clone()),
            Json::Text(s) => Json::Text(s.clone()),
            Json::Array(items) => Json::Array(copy_items(items)),
            Json::Object(members) => {
                let mut out: Vec<(String, Json)> = Vec::new();
                let mut i: usize = 0;
                while i < members.len()
                    invariant
                        i <= members@.len(),
                        *self == Json::Object(*members),
                        out@.len() == i,
                        members_view(out@) == members_view(members@.take(i as int)),
                    decreases members.len() - i,
                {
                    proof {
                        let pair = members@[i as int];
                        assert(decreases_to!(*self => self->Object_0));
                        assert(decreases_to!(*members => members@));
                        assert(decreases_to!(members@ => pair));
                        assert(decreases_to!(pair => pair.1));
                    }
                    let value = members[i].1.copy();
                    let ghost before = out@;
                    out.push((members[i].0.clone(), value));
                    assert(out@.drop_last() =~= before);
                    assert(members@.take(i as int + 1).drop_last() =~= members@.take(i as int));
                    i += 1;
                }
                assert(members@.take(members@.len() as int) =~= members@);
                Json::Object(out)
            },
        }
    }
}

/// Values of the same meanings.
pub fn copy_items(items: &Vec<Json>) -> (r: Vec<Json>)
    ensures
        items_view(r@) == items_view(items@),
        r@.len() == items@.len(),
    decreases items,
{
    let mut out: Vec<Json> = Vec::new();
    let mut i: usize = 0;
    while i < items.len()
        invariant
            i <= items@.len(),
            out@.len() == i,
            forall|j: int| 0 <= j < i ==> (#[trigger] out@[j])@ == items@[j]@,
        decreases items.len() - i,
    {
        out.push(items[i].copy());
        i += 1;
    }
    assert(items_view(out@) =~= items_view(items@));
    out
}

/// The meaning of an optional value.
pub open spec fn json_view(v: Option<Json>) -> Option<JsonView> {
    match v {
        Some(v) => Some(v@),
        None => None,
    }
}

/// A number of 32 bits.
pub open spec fn decoded_u32(v: JsonView) -> Option<u32> {
    match v {
        JsonView::Unsigned(n) => if n <= u32::MAX {
            Some(n as u32)
        } else {
            None
        },
        _ => None,
    }
}

/// Reads a number of 32 bits.
pub fn decode_u32(v: &Json) -> (r: Option<u32>)
    ensures
        r == decoded_u32(v@),
{
    match v {
        Json::Unsigned(n) => {
            if *n <= u32::MAX as u64 {
                Some(*n as u32)
            } else {
                None
            }
        },
        _ => None,
    }
}

/// A list of texts, where the value is an array of nothing else.
pub open spec fn decoded_texts(v: JsonView) -> Option<Seq<Seq<char>>> {
    match v {
        JsonView::Array(items) => if forall|i: int|
            0 <= i < items.len() ==> (#[trigger] items[i]) is Text {
            Some(Seq::new(items.len(), |i: int| items[i]->Text_0))
        } else {
            None
        },
        _ => None,
    }
}

/// Reads a list of texts.
pub fn decode_texts(v: &Json) -> (r: Option<Vec<String>>)
    ensures
        match r {
            Some(texts) => decoded_texts(v@) == Some(views(texts@)),
            None => decoded_texts(v@) is None,
        },
{
    let items = match v {
        Json::Array(items) => items,
        _ => {
            return None;
        },
    };
    let ghost all = items_view(items@);
    let mut texts: Vec<String> = Vec::new();
    let mut i: usize = 0;
    while i < items.len()
        invariant
            i <= items@.len(),
            v@ == JsonView::Array(all),
            all == items_view(items@),
            texts@.len() == i,
            forall|j: int|
                0 <= j < i ==> (#[trigger] all[j]) is Text && all[j]->Text_0 == texts@[j]@,
        decreases items.len() - i,
    {
        assert(all[i as int] == items@[i as int]@);
        match &items[i] {
            Json::Text(s) => {
                texts.push(s.clone());
            },
            _ => {
                return None;
            },
        }
        i += 1;
    }
    assert(Seq::new(all.len(), |j: int| all[j]->Text_0) =~= views(texts@));
    Some(texts)
}

// ---------------------------------------------------------------------------
// Values of `serde_json`
// ---------------------------------------------------------------------------

#[verifier::external_type_specification]
#[verifier::external_body]
pub struct ExJsonValue(serde_json::Value);

#[verifier::external_type_specification]
#[verifier::external_body]
pub struct ExJsonError(serde_json::Error);

/// What a `serde_json::Value` holds.
pub uninterp spec fn value_of(v: serde_json::Value) -> JsonView;

/// What `serde_json::from_str` reads from a text, where it accepts the text.
pub uninterp spec fn parsed_text(text: Seq<char>) -> Option<JsonView>;

/// What `serde_json::from_slice` reads from bytes, where it accepts them.
pub uninterp spec fn parsed_bytes(bytes: Seq<u8>) -> Option<JsonView>;

/// One layer of a `serde_json::Value`.
pub enum Layer {
    Null,
    Bool(bool),
    Unsigned(u64),
    Negative(i64),
    Fraction(String),
    Text(String),
    Array(Vec<serde_json::Value>),
    Object(Vec<(String, serde_json::Value)>),
}

pub open spec fn layer_members(members: Seq<(String, serde_json::Value)>) -> Map<
    Seq<char>,
    JsonView,
>
    decreases members.len(),
{
    if members.len() == 0 {
        Map::empty()
    } else {
        layer_members(members.drop_last()).insert(members.last().0@, value_of(members.last().1))
    }
}

/// No two members have one name.
pub open spec fn distinct_names(members: Seq<(String, serde_json::Value)>) -> bool {
    forall|i: int, j: int|
        0 <= i < j < members.len() ==> (#[trigger] members[i]).0@ != (#[trigger] members[j]).0@
}

/// The names ascend.
pub open spec fn ascending_names(members: Seq<(String, serde_json::Value)>) -> bool {
    forall|i: int, j: int|
        0 <= i < j < members.len() ==> sorts_before(
            (#[trigger] members[i]).0@,
            (#[trigger] members[j]).0@,
        )
}

impl Layer {
    pub open spec fn meaning(self) -> JsonView {
        match self {
            Layer::Null => JsonView::Null,
            Layer::Bool(b) => JsonView::Bool(b),
            Layer::Unsigned(n) => JsonView::Unsigned(n),
            Layer::Negative(n) => JsonView::Negative(n),
            Layer::Fraction(s) => JsonView::Fraction(s@),
            Layer::Text(s) => JsonView::Text(s@),
            Layer::Array(items) => JsonView::Array(
                Seq::new(items@.len(), |i: int| value_of(items@[i])),
            ),
            Layer::Object(members) => JsonView::Object(layer_members(members@)),
        }
    }
}

/// Whether a JSON string holds the text as it is: no quotation mark, no
/// backslash and no control character.
pub open spec fn plain(s: Seq<char>) -> bool {
    forall|i: int|
        0 <= i < s.len() ==> (#[trigger] s[i]) >= ' ' && s[i] != '"' && s[i] != '\\'
}

/// What stands between the first and the last character.
pub open spec fn unquoted(text: Seq<char>) -> Seq<char> {
    text.subrange(1, text.len() - 1)
}

/// Whether a text is a plain text in quotation marks.
pub open spec fn is_plain_string(text: Seq<char>) -> bool {
    text.len() >= 2 && text[0] == '"' && text.last() == '"' && plain(unquoted(text))
}

/// Parses a text as one JSON value: `serde_json::from_str`.
///
/// Claimed: whether the text is accepted and what is read from it depend on
/// the text alone, and a plain text in quotation marks is read as that text.
#[verifier::external_body]
fn parse_value(text: &str) -> (r: Result<serde_json::Value, serde_json::Error>)
    ensures
        match r {
            Ok(v) => parsed_text(text@) == Some(value_of(v)),
            Err(_) => parsed_text(text@) is None,
        },
        is_plain_string(text@) ==> r is Ok,
        is_plain_string(text@) ==> value_of(r->Ok_0) == JsonView::Text(unquoted(text@)),
{
    serde_json::from_str(text)
}

/// Parses bytes as one JSON value: `serde_json::from_slice`.
///
/// Claimed: whether the bytes are accepted and what is read from them depend
/// on the bytes alone.
#[verifier::external_body]
fn parse_value_bytes(bytes: &[u8]) -> (r: Result<serde_json::Value, serde_json::Error>)
    ensures
        match r {
            Ok(v) => parsed_bytes(bytes@) == Some(value_of(v)),
            Err(_) => parsed_bytes(bytes@) is None,
        },
{
    serde_json::from_slice(bytes)
}

/// The text as which `serde_json::to_string` writes a value.
pub uninterp spec fn compact_json(v: JsonView) -> Seq<char>;

/// Writes a value as text: `serde_json::to_string`.
///
/// Claimed: the text depends on what the value holds alone. Writing a value
/// does not fail, since every name in it is a text.
#[verifier::external_body]
pub(crate) fn compact_text(value: &serde_json::Value) -> (r: String)
    ensures
        r@ == compact_json(value_of(*value)),
{
    serde_json::to_string(value).unwrap_or_default()
}

/// Takes a `serde_json::Value` apart by its variants.
///
/// Claimed: the parts mean what the value means, and the members of an object
/// have distinct names, which ascend: the map behind an object is sorted by its
/// keys. A number goes by `Number::as_u64` and
/// `Number::as_i64`; one that is neither goes by the text that `Number`
/// displays.
#[verifier::external_body]
pub(crate) fn layer_of(value: serde_json::Value) -> (r: Layer)
    ensures
        r.meaning() == value_of(value),
        r matches Layer::Object(members) ==> distinct_names(members@),
        r matches Layer::Object(members) ==> ascending_names(members@),
{
    match value {
        serde_json::Value::Null => Layer::Null,
        serde_json::Value::Bool(b) => Layer::Bool(b),
        serde_json::Value::Number(n) => match (n.as_u64(), n.as_i64()) {
            (Some(u), _) => Layer::Unsigned(u),
            (None, Some(i)) => Layer::Negative(i),
            (None, None) => Layer::Fraction(n.to_string()),
        },
        serde_json::Value::String(s) => Layer::Text(s),
        serde_json::Value::Array(items) => Layer::Array(items),
        serde_json::Value::Object(members) => Layer::Object(members.into_iter().collect()),
    }
}

/// The value as a [`Json`].
pub fn json_from_value(value: serde_json::Value) -> (r: Json)
    ensures
        r@ == value_of(value),
    decreases value_of(value),
{
    match layer_of(value) {
        Layer::Null => Json::Null,
        Layer::Bool(b) => Json::Bool(b),
        Layer::Unsigned(n) => Json::Unsigned(n),
        Layer::Negative(n) => Json::Negative(n),
        Layer::Fraction(s) => Json::Fraction(s),
        Layer::Text(s) => Json::Text(s),
        Layer::Array(values) => {
            let ghost all = values@;
            let mut out: Vec<Json> = Vec::new();
            for v in it: values.into_iter()
                invariant
                    it.seq() == all,
                    value_of(value) == JsonView::Array(
                        Seq::new(all.len(), |i: int| value_of(all[i])),
                    ),
                    out@.len() == it.index(),
                    forall|j: int|
                        0 <= j < it.index() ==> (#[trigger] out@[j])@ == value_of(all[j]),
            {
                proof {
                    let parts = value_of(value)->Array_0;
                    assert(parts[it.index() as int] == value_of(v));
                    assert(decreases_to!(value_of(value) => parts[it.index() as int]));
                }
                out.push(json_from_value(v));
            }
            assert(items_view(out@) =~= value_of(value)->Array_0);
            Json::Array(out)
        },
        Layer::Object(values) => {
            let ghost all = values@;
            let mut out: Vec<(String, Json)> = Vec::new();
            for pair in it: values.into_iter()
                invariant
                    it.seq() == all,
                    distinct_names(all),
                    value_of(value) == JsonView::Object(layer_members(all)),
                    members_view(out@) == layer_members(all.take(it.index() as int)),
            {
                let (name, v) = pair;
                let ghost before = out@;
                proof {
                    let i = it.index() as int;
                    lemma_layer_member(all, i);
                    assert(decreases_to!(value_of(value) => value_of(value)->Object_0[all[i].0@]));
                }
                out.push((name, json_from_value(v)));
                assert(out@.drop_last() =~= before);
                assert(all.take(it.index() as int + 1).drop_last() =~= all.take(it.index() as int));
            }
            assert(all.take(all.len() as int) =~= all);
            Json::Object(out)
        },
    }
}

/// No member is found under a name that none has.
pub proof fn lemma_no_layer_member(members: Seq<(String, serde_json::Value)>, name: Seq<char>)
    requires
        forall|i: int| 0 <= i < members.len() ==> (#[trigger] members[i]).0@ != name,
    ensures
        !layer_members(members).contains_key(name),
    decreases members.len(),
{
    if members.len() > 0 {
        lemma_no_layer_member(members.drop_last(), name);
    }
}

/// A member is found under its name.
pub proof fn lemma_layer_member(members: Seq<(String, serde_json::Value)>, i: int)
    requires
        0 <= i < members.len(),
        distinct_names(members),
    ensures
        layer_members(members).dom().finite(),
        layer_members(members).contains_key(members[i].0@),
        layer_members(members)[members[i].0@] == value_of(members[i].1),
    decreases members.len(),
{
    let rest = members.drop_last();
    if i < rest.len() {
        lemma_layer_member(rest, i);
        assert(members[i].0@ != members.last().0@);
    } else if rest.len() > 0 {
        lemma_layer_member(rest, 0);
    } else {
        assert(layer_members(rest).dom() =~= Set::empty());
    }
    assert(layer_members(members).dom() =~= layer_members(rest).dom().insert(members.last().0@));
}

/// Reads a text as one JSON value, where it is one.
pub fn parse_json(text: &str) -> (r: Option<Json>)
    ensures
        match r {
            Some(v) => parsed_text(text@) == Some(v@),
            None => parsed_text(text@) is None,
        },
        is_plain_string(text@) ==> (r matches Some(v) && v@ == JsonView::Text(unquoted(text@))),
{
    match parse_value(text) {
        Ok(v) => Some(json_from_value(v)),
        Err(_) => None,
    }
}

/// Reads bytes as one JSON value, where they are one.
pub fn parse_json_bytes(bytes: &[u8]) -> (r: Option<Json>)
    ensures
        match r {
            Some(v) => parsed_bytes(bytes@) == Some(v@),
            None => parsed_bytes(bytes@) is None,
        },
{
    match parse_value_bytes(bytes) {
        Ok(v) => Some(json_from_value(v)),
        Err(_) => None,
    }
}

/// Of the members of an object the last under a name counts, and where none has
/// the name nothing is found under it.
pub proof fn law_the_last_member_counts(members: Seq<(String, Json)>, i: int, name: Seq<char>)
    ensures
        0 <= i < members.len() && members[i].0@ == name && (forall|j: int|
            i < j < members.len() ==> (#[trigger] members[j]).0@ != name) ==> members_view(
            members,
        ).contains_key(name) && members_view(members)[name] == members[i].1@,
        (forall|j: int| 0 <= j < members.len() ==> (#[trigger] members[j]).0@ != name)
            ==> !members_view(members).contains_key(name),
{
    if 0 <= i < members.len() && members[i].0@ == name && (forall|j: int|
        i < j < members.len() ==> (#[trigger] members[j]).0@ != name) {
        lemma_last_member_decides(members, i, name);
    }
    if forall|j: int| 0 <= j < members.len() ==> (#[trigger] members[j]).0@ != name {
        lemma_absent_member(members, name);
    }
}

/// A value means what it holds: a text its characters, an array the meanings of
/// its items one for one, an object what its members say.
pub proof fn law_values_mean_what_they_hold(v: Json)
    ensures
        match v {
            Json::Null => v@ == JsonView::Null,
            Json::Bool(b) => v@ == JsonView::Bool(b),
            Json::Unsigned(n) => v@ == JsonView::Unsigned(n),
            Json::Negative(n) => v@ == JsonView::Negative(n),
            Json::Fraction(s) => v@ == JsonView::Fraction(s@),
            Json::Text(s) => v@ == JsonView::Text(s@),
            Json::Array(items) => v@ is Array && v@->Array_0.len() == items@.len() && forall|i: int|
                0 <= i < items@.len() ==> (#[trigger] v@->Array_0[i]) == items@[i]@,
            Json::Object(members) => v@ == JsonView::Object(members_view(members@)),
        },
{
}

/// What is read of a value that is something else is the default: nothing but a
/// text is read as text, nothing but a whole number as a number, nothing but a
/// truth value as one, nothing but an array as a list, and nothing is found in
/// what is no object.
pub proof fn law_values_are_read_as_what_they_are(v: JsonView, name: Seq<char>)
    ensures
        v is Object && v->Object_0.contains_key(name) ==> v.get(name) == Some(v->Object_0[name])
            && v.at(name) == v->Object_0[name],
        !(v is Object && v->Object_0.contains_key(name)) ==> v.get(name) is None && v.at(name)
            == JsonView::Null,
        v.as_text() == if v is Text {
            Some(v->Text_0)
        } else {
            None
        },
        v.as_array() == if v is Array {
            Some(v->Array_0)
        } else {
            None
        },
        v.as_u64() == if v is Unsigned {
            Some(v->Unsigned_0)
        } else {
            None
        },
        forall|s: Seq<char>| #[trigger] v.text_or(s) == if v is Text {
            v->Text_0
        } else {
            s
        },
        forall|n: u64| #[trigger] v.u64_or(n) == if v is Unsigned {
            v->Unsigned_0
        } else {
            n
        },
        forall|b: bool| #[trigger] v.bool_or(b) == if v is Bool {
            v->Bool_0
        } else {
            b
        },
        v is Array ==> v.items() == v->Array_0,
        !(v is Array) ==> v.items().len() == 0,
{
}

/// Every number of 32 bits is read back, and nothing else is read as one.
pub proof fn law_small_numbers_are_read_back(v: JsonView, n: u32)
    ensures
        decoded_u32(v) == Some(n) <==> v == JsonView::Unsigned(n as u64),
{
}

/// Every list of texts is read back, and nothing else is read as one.
pub proof fn law_lists_of_texts_are_read_back(v: JsonView, texts: Seq<Seq<char>>)
    ensures
        decoded_texts(v) == Some(texts) <==> v == JsonView::Array(
            Seq::new(texts.len(), |i: int| JsonView::Text(texts[i])),
        ),
{
    let items = Seq::new(texts.len(), |i: int| JsonView::Text(texts[i]));
    if v == JsonView::Array(items) {
        assert(forall|i: int| 0 <= i < items.len() ==> (#[trigger] items[i]) is Text);
        assert(Seq::new(items.len(), |i: int| items[i]->Text_0) =~= texts);
    }
    if decoded_texts(v) == Some(texts) {
        let own = v->Array_0;
        assert(texts == Seq::new(own.len(), |i: int| own[i]->Text_0));
        assert forall|i: int| 0 <= i < own.len() implies own[i] == items[i] by {
            assert(own[i] is Text);
            assert(texts[i] == own[i]->Text_0);
        }
        assert(own =~= items);
    }
}

/// Whether a value is an object that holds that value under that name.
pub open spec fn holds(v: JsonView, name: Seq<char>, value: JsonView) -> bool {
    v is Object && v->Object_0.contains_key(name) && v->Object_0[name] == value
}

/// What counts of an optional value is its meaning.
pub proof fn law_optional_values(v: Json)
    ensures
        json_view(Some(v)) == Some(v@),
        json_view(None) is None,
{
}

/// A plain text in quotation marks is that text, and no text with a quotation
/// mark, a backslash or a control character in it is plain.
pub proof fn law_plain_strings(s: Seq<char>, i: int)
    ensures
        plain(s) && 0 <= i < s.len() ==> s[i] as int >= 32 && s[i] != '"' && s[i] != '\\',
        plain(s) ==> is_plain_string(seq!['"'] + s + seq!['"']),
        unquoted(seq!['"'] + s + seq!['"']) == s,
{
    let quoted = seq!['"'] + s + seq!['"'];
    assert(unquoted(quoted) =~= s);
}

} // verus!
