//! JSON values as plain data, and the reading of JSON text.

use vstd::prelude::*;

verus! {

broadcast use vstd::string::group_string_axioms;

/// `serde_json::Value`, carried from the parser to [`Json::from_value`].
#[verifier::external_type_specification]
#[verifier::external_body]
pub struct ExValue(serde_json::Value);

/// `serde_json::Error`, which says why a text is no JSON.
#[verifier::external_type_specification]
#[verifier::external_body]
pub struct ExJsonError(serde_json::Error);

/// A JSON number.
#[verifier::ext_equal]
pub struct NumberView {
    /// The number as JSON writes it.
    pub text: Seq<char>,
    /// The number, where it is written as a non-negative integer that fits.
    pub unsigned: Option<u64>,
}

/// A JSON value.
#[verifier::ext_equal]
pub enum JsonView {
    Null,
    Bool(bool),
    Number(NumberView),
    Text(Seq<char>),
    List(Seq<JsonView>),
    Table(Seq<(Seq<char>, JsonView)>),
}

/// A JSON number.
#[derive(Debug)]
pub struct Number {
    /// The number as JSON writes it.
    pub text: String,
    /// The number, where it is written as a non-negative integer that fits.
    pub unsigned: Option<u64>,
}

/// A JSON value.
///
/// The entries of a table are in the order in which the parser hands them out, each key once.
#[derive(Debug)]
pub enum Json {
    Null,
    Bool(bool),
    Number(Number),
    Text(String),
    List(Vec<Json>),
    Table(Vec<(String, Json)>),
}

/// One layer of a JSON value: its own kind, and the values inside it as the parser holds them.
enum Layer {
    Null,
    Bool(bool),
    Number(Number),
    Text(String),
    List(Vec<serde_json::Value>),
    Table(Vec<(String, serde_json::Value)>),
}

impl View for Number {
    type V = NumberView;

    open spec fn view(&self) -> NumberView {
        NumberView { text: self.text@, unsigned: self.unsigned }
    }
}

impl Json {
    /// The value that this is.
    pub open spec fn value(self) -> JsonView
        decreases self,
    {
        match self {
            Json::Null => JsonView::Null,
            Json::Bool(b) => JsonView::Bool(b),
            Json::Number(n) => JsonView::Number(n@),
            Json::Text(t) => JsonView::Text(t@),
            Json::List(items) => JsonView::List(
                Seq::new(
                    items@.len(),
                    |i: int|
                        if 0 <= i < items@.len() {
                            items@[i].value()
                        } else {
                            JsonView::Null
                        },
                ),
            ),
            Json::Table(entries) => JsonView::Table(
                Seq::new(
                    entries@.len(),
                    |i: int|
                        if 0 <= i < entries@.len() {
                            (entries@[i].0@, entries@[i].1.value())
                        } else {
                            (Seq::<char>::empty(), JsonView::Null)
                        },
                ),
            ),
        }
    }
}

impl View for Json {
    type V = JsonView;

    open spec fn view(&self) -> JsonView {
        self.value()
    }
}

/// What a value of the parser holds.
pub uninterp spec fn json_of(value: serde_json::Value) -> JsonView;

/// What `serde_json::from_str` reads from a text, where the text is JSON.
pub uninterp spec fn parsed(text: Seq<char>) -> Option<JsonView>;

/// `serde_json::from_str` at the type `serde_json::Value` reads the one JSON value that the text
/// holds, or fails; both depend on the text alone.
#[verifier::external_body]
fn parse_value(text: &str) -> (result: Result<serde_json::Value, serde_json::Error>)
    ensures
        match result {
            Ok(value) => parsed(text@) == Some(json_of(value)),
            Err(_) => parsed(text@) is None,
        },
{
    serde_json::from_str::<serde_json::Value>(text)
}

impl Layer {
    /// The JSON value of which this is the outer layer.
    spec fn holds(self, value: JsonView) -> bool {
        match self {
            Layer::Null => value == JsonView::Null,
            Layer::Bool(b) => value == JsonView::Bool(b),
            Layer::Number(n) => value == JsonView::Number(n@),
            Layer::Text(t) => value == JsonView::Text(t@),
            Layer::List(items) => value == JsonView::List(items@.map_values(|v: serde_json::Value| json_of(v))),
            Layer::Table(entries) => value == JsonView::Table(
                entries@.map_values(|e: (String, serde_json::Value)| (e.0@, json_of(e.1))),
            ),
        }
    }
}

/// The variants of `serde_json::Value`, told apart. A number gives its `to_string` and its
/// `as_u64`; the entries of a map are those of its own iterator.
#[verifier::external_body]
fn open_value(value: serde_json::Value) -> (layer: Layer)
    ensures
        layer.holds(json_of(value)),
{
    match value {
        serde_json::Value::Null => Layer::Null,
        serde_json::Value::Bool(b) => Layer::Bool(b),
        serde_json::Value::Number(n) => Layer::Number(
            Number { text: n.to_string(), unsigned: n.as_u64() },
        ),
        serde_json::Value::String(t) => Layer::Text(t),
        serde_json::Value::Array(items) => Layer::List(items),
        serde_json::Value::Object(map) => Layer::Table(map.into_iter().collect()),
    }
}

impl Json {
    /// The plain data of a value of the parser.
    pub fn from_value(value: serde_json::Value) -> (json: Json)
        ensures
            json@ == json_of(value),
        decreases json_of(value),
    {
        match open_value(value) {
            Layer::Null => Json::Null,
            Layer::Bool(b) => Json::Bool(b),
            Layer::Number(n) => Json::Number(n),
            Layer::Text(t) => Json::Text(t),
            Layer::List(items) => {
                let ghost whole = json_of(value);
                let ghost inner = whole->List_0;
                let mut list: Vec<Json> = Vec::new();
                for item in it: items
                    invariant
                        whole == json_of(value),
                        whole == JsonView::List(inner),
                        inner == it.seq().map_values(|v: serde_json::Value| json_of(v)),
                        list@.len() == it.index(),
                        forall|i: int| 0 <= i < list@.len() ==> (#[trigger] list@[i])@ == inner[i],
                {
                    let ghost i = it.index();
                    assert(inner[i] == json_of(item));
                    assert(decreases_to!(whole => whole->List_0));
                    assert(decreases_to!(inner => inner[i]));
                    list.push(Json::from_value(item));
                }
                let json = Json::List(list);
                assert(json@->List_0 =~= inner);
                json
            },
            Layer::Table(entries) => {
                let ghost whole = json_of(value);
                let ghost inner = whole->Table_0;
                let mut table: Vec<(String, Json)> = Vec::new();
                for entry in it: entries
                    invariant
                        whole == json_of(value),
                        whole == JsonView::Table(inner),
                        inner == it.seq().map_values(
                            |e: (String, serde_json::Value)| (e.0@, json_of(e.1)),
                        ),
                        table@.len() == it.index(),
                        forall|i: int|
                            0 <= i < table@.len() ==> ((#[trigger] table@[i]).0@, table@[i].1@) == inner[i],
                {
                    let ghost i = it.index();
                    assert(inner[i] == (entry.0@, json_of(entry.1)));
                    assert(decreases_to!(whole => whole->Table_0));
                    assert(decreases_to!(inner => inner[i]));
                    assert(decreases_to!(inner[i] => inner[i].1));
                    table.push((entry.0, Json::from_value(entry.1)));
                }
                let json = Json::Table(table);
                assert(json@->Table_0 =~= inner);
                json
            },
        }
    }

    /// The JSON value that a text holds, or nothing where it holds none.
    pub fn parse(text: &str) -> (json: Option<Json>)
        ensures
            match json {
                Some(j) => parsed(text@) == Some(j@),
                None => parsed(text@) is None,
            },
    {
        match parse_value(text) {
            Ok(value) => Some(Json::from_value(value)),
            Err(_) => None,
        }
    }
}

/// The value of the first entry with the given key.
pub open spec fn lookup(entries: Seq<(Seq<char>, JsonView)>, key: Seq<char>) -> Option<JsonView>
    decreases entries.len(),
{
    if entries.len() == 0 {
        None
    } else if entries.first().0 == key {
        Some(entries.first().1)
    } else {
        lookup(entries.drop_first(), key)
    }
}

impl JsonView {
    /// The value under a key, where this is a table that has it.
    pub open spec fn field(self, key: Seq<char>) -> Option<JsonView> {
        match self {
            JsonView::Table(entries) => lookup(entries, key),
            _ => None,
        }
    }

    /// The text that this is, where it is one.
    pub open spec fn as_text(self) -> Option<Seq<char>> {
        match self {
            JsonView::Text(t) => Some(t),
            _ => None,
        }
    }

    /// The truth value that this is, where it is one.
    pub open spec fn as_bool(self) -> Option<bool> {
        match self {
            JsonView::Bool(b) => Some(b),
            _ => None,
        }
    }

    /// The non-negative integer that this is, where it is one.
    pub open spec fn as_unsigned(self) -> Option<u64> {
        match self {
            JsonView::Number(n) => n.unsigned,
            _ => None,
        }
    }

    /// The text under a key, where there is one.
    pub open spec fn text_field(self, key: Seq<char>) -> Option<Seq<char>> {
        match self.field(key) {
            Some(v) => v.as_text(),
            None => None,
        }
    }

    /// The truth value under a key, where there is one.
    pub open spec fn bool_field(self, key: Seq<char>) -> Option<bool> {
        match self.field(key) {
            Some(v) => v.as_bool(),
            None => None,
        }
    }

    /// The number under a key, as JSON writes it, where there is one.
    pub open spec fn number_field(self, key: Seq<char>) -> Option<Seq<char>> {
        match self.field(key) {
            Some(JsonView::Number(n)) => Some(n.text),
            _ => None,
        }
    }
}

impl Json {
    /// The value under a key, where this is a table that has it.
    pub fn get(&self, key: &str) -> (value: Option<&Json>)
        ensures
            match value {
                Some(v) => self@.field(key@) == Some(v@),
                None => self@.field(key@) is None,
            },
    {
        match self {
            Json::Table(entries) => {
                let ghost all = self@->Table_0;
                let mut i: usize = 0;
                assert(all.skip(0) =~= all);
                while i < entries.len()
                    invariant
                        i <= entries@.len() == all.len(),
                        all == self@->Table_0,
                        *self == Json::Table(*entries),
                        lookup(all, key@) == lookup(all.skip(i as int), key@),
                    decreases entries@.len() - i,
                {
                    assert(all[i as int] == (entries@[i as int].0@, entries@[i as int].1@));
                    if entries[i].0.as_str().eq(key) {
                        return Some(&entries[i].1);
                    }
                    assert(all.skip(i as int).drop_first() =~= all.skip(i + 1));
                    i = i + 1;
                }
                None
            },
            _ => None,
        }
    }

    /// The text that this is, where it is one.
    pub fn as_text(&self) -> (found: Option<&str>)
        ensures
            match found {
                Some(t) => self@.as_text() == Some(t@),
                None => self@.as_text() is None,
            },
    {
        match self {
            Json::Text(t) => Some(t.as_str()),
            _ => None,
        }
    }

    /// The text under a key, where there is one.
    pub fn get_text(&self, key: &str) -> (found: Option<&str>)
        ensures
            match found {
                Some(t) => self@.text_field(key@) == Some(t@),
                None => self@.text_field(key@) is None,
            },
    {
        match self.get(key) {
            Some(v) => v.as_text(),
            None => None,
        }
    }

    /// The truth value under a key, where there is one.
    pub fn get_bool(&self, key: &str) -> (found: Option<bool>)
        ensures
            found == self@.bool_field(key@),
    {
        match self.get(key) {
            Some(Json::Bool(b)) => Some(*b),
            _ => None,
        }
    }

    /// The number under a key, as JSON writes it, where there is one.
    pub fn get_number(&self, key: &str) -> (found: Option<&str>)
        ensures
            match found {
                Some(t) => self@.number_field(key@) == Some(t@),
                None => self@.number_field(key@) is None,
            },
    {
        match self.get(key) {
            Some(Json::Number(n)) => Some(n.text.as_str()),
            _ => None,
        }
    }

    /// Whether this is a table.
    pub fn is_table(&self) -> (yes: bool)
        ensures
            yes == (self@ is Table),
    {
        match self {
            Json::Table(_) => true,
            _ => false,
        }
    }
}

/// A JSON value is what its data is: every part stands in it as it is, and in its place.
pub proof fn law_json_is_its_data(json: Json)
    ensures
        match json {
            Json::Null => json@ == JsonView::Null,
            Json::Bool(b) => json@ == JsonView::Bool(b),
            Json::Number(n) => json@ == JsonView::Number(
                NumberView { text: n.text@, unsigned: n.unsigned },
            ),
            Json::Text(t) => json@ == JsonView::Text(t@),
            Json::List(items) => json@ matches JsonView::List(all) && all.len() == items@.len() && (
            forall|i: int| 0 <= i < items@.len() ==> #[trigger] all[i] == items@[i]@),
            Json::Table(entries) => json@ matches JsonView::Table(all) && all.len()
                == entries@.len() && (forall|i: int|
                0 <= i < entries@.len() ==> #[trigger] all[i] == (
                    entries@[i].0@,
                    entries@[i].1@,
                )),
        },
{
}

/// The value under a key is that of the first entry with the key, and there is none where no entry
/// has it.
pub proof fn law_the_first_entry_is_looked_up(
    entries: Seq<(Seq<char>, JsonView)>,
    key: Seq<char>,
    i: int,
)
    requires
        0 <= i <= entries.len(),
        forall|j: int| 0 <= j < i ==> (#[trigger] entries[j]).0 != key,
        i < entries.len() ==> entries[i].0 == key,
    ensures
        JsonView::Table(entries).field(key) == if i < entries.len() {
            Some(entries[i].1)
        } else {
            None
        },
    decreases entries.len(),
{
    if i > 0 {
        let rest = entries.drop_first();
        assert(entries[0].0 != key);
        assert forall|j: int| 0 <= j < i - 1 implies (#[trigger] rest[j]).0 != key by {
            assert(rest[j] == entries[j + 1]);
        }
        law_the_first_entry_is_looked_up(rest, key, i - 1);
    }
}

/// Only tables have fields. A field is read as a text, a truth value or a number where it is one, as
/// it is, and as nothing otherwise.
pub proof fn law_fields_are_read_as_they_are(json: JsonView, key: Seq<char>, value: JsonView)
    ensures
        !(json is Table) ==> json.field(key) is None,
        json.field(key) is None ==> json.text_field(key) is None && json.bool_field(key) is None
            && json.number_field(key) is None,
        json.field(key) == Some(value) ==> {
            &&& json.text_field(key) == match value {
                JsonView::Text(t) => Some(t),
                _ => None,
            }
            &&& json.bool_field(key) == match value {
                JsonView::Bool(b) => Some(b),
                _ => None,
            }
            &&& json.number_field(key) == match value {
                JsonView::Number(n) => Some(n.text),
                _ => None,
            }
        },
        value.as_unsigned() == match value {
            JsonView::Number(n) => n.unsigned,
            _ => None,
        },
        value.as_text() == match value {
            JsonView::Text(t) => Some(t),
            _ => None,
        },
{
}

} // verus!
