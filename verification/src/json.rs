//! JSON values, and the calls that read and write JSON text.
use crate::text;
use crate::text::same_text;
use vstd::prelude::*;

verus! {

/// A JSON value. The panel reads no number, so none is kept.
#[derive(Debug, PartialEq, Eq)]
pub enum Json {
    Null,
    Bool(bool),
    Number,
    Text(String),
    List(Vec<Json>),
    Object(Vec<(String, Json)>),
}

/// What a JSON value holds; the members of an object stand in order.
pub enum JsonView {
    Null,
    Bool(bool),
    Number,
    Text(Seq<char>),
    List(Seq<JsonView>),
    Object(Seq<(Seq<char>, JsonView)>),
}

impl Json {
    /// What this value holds.
    pub open spec fn model(self) -> JsonView
        decreases self,
    {
        match self {
            Json::Null => JsonView::Null,
            Json::Bool(b) => JsonView::Bool(b),
            Json::Number => JsonView::Number,
            Json::Text(text) => JsonView::Text(text@),
            Json::List(items) => JsonView::List(
                Seq::new(
                    items@.len(),
                    |i: int|
                        if 0 <= i < items@.len() {
                            items@[i].model()
                        } else {
                            JsonView::Null
                        },
                ),
            ),
            Json::Object(members) => JsonView::Object(
                Seq::new(
                    members@.len(),
                    |i: int|
                        if 0 <= i < members@.len() {
                            (members@[i].0@, members@[i].1.model())
                        } else {
                            (Seq::empty(), JsonView::Null)
                        },
                ),
            ),
        }
    }
}

/// The value of the member `name`, if there is one: of a name that is repeated, the last.
pub open spec fn member(members: Seq<(Seq<char>, JsonView)>, name: Seq<char>) -> Option<JsonView>
    decreases members.len(),
{
    if members.len() == 0 {
        None
    } else if members.last().0 == name {
        Some(members.last().1)
    } else {
        member(members.drop_last(), name)
    }
}

impl JsonView {
    /// The member `name` of an object; no other value has members.
    pub open spec fn get(self, name: Seq<char>) -> Option<JsonView> {
        match self {
            JsonView::Object(members) => member(members, name),
            _ => None,
        }
    }

    /// The text, where the value is one.
    pub open spec fn as_text(self) -> Option<Seq<char>> {
        match self {
            JsonView::Text(text) => Some(text),
            _ => None,
        }
    }

    /// The items, where the value is a list.
    pub open spec fn as_list(self) -> Option<Seq<JsonView>> {
        match self {
            JsonView::List(items) => Some(items),
            _ => None,
        }
    }

    /// The text of the member `name`, where there is one.
    pub open spec fn text_at(self, name: Seq<char>) -> Option<Seq<char>> {
        match self.get(name) {
            Some(value) => value.as_text(),
            None => None,
        }
    }
}

/// What a list of values holds.
pub open spec fn models(items: Seq<Json>) -> Seq<JsonView> {
    Seq::new(items.len(), |i: int| items[i].model())
}

impl Json {
    /// The member `name` of an object; of a name that is repeated, the last.
    pub fn get(&self, name: &str) -> (found: Option<&Json>)
        ensures
            match found {
                Some(value) => self.model().get(name@) == Some(value.model()),
                None => self.model().get(name@) is None,
            },
    {
        match self {
            Json::Object(members) => {
                let ghost all = self.model()->Object_0;
                let mut n: usize = members.len();
                assert(all.take(n as int) =~= all);
                while n > 0
                    invariant
                        n <= members@.len(),
                        self.model() == JsonView::Object(all),
                        *self == Json::Object(*members),
                        member(all, name@) == member(all.take(n as int), name@),
                    decreases n,
                {
                    assert(all.take(n as int).drop_last() =~= all.take(n - 1));
                    n -= 1;
                    if same_text(members[n].0.as_str(), name) {
                        return Some(&members[n].1);
                    }
                }
                None
            },
            _ => None,
        }
    }

    /// The text, where the value is one.
    pub fn as_text(&self) -> (found: Option<&String>)
        ensures
            match found {
                Some(text) => self.model().as_text() == Some(text@),
                None => self.model().as_text() is None,
            },
    {
        match self {
            Json::Text(text) => Some(text),
            _ => None,
        }
    }

    /// The items, where the value is a list.
    pub fn as_list(&self) -> (found: Option<&Vec<Json>>)
        ensures
            match found {
                Some(items) => self.model().as_list() == Some(models(items@)),
                None => self.model().as_list() is None,
            },
    {
        match self {
            Json::List(items) => {
                assert(self.model()->List_0 =~= models(items@));
                Some(items)
            },
            _ => None,
        }
    }

    /// The text of the member `name`, where there is one.
    pub fn text_at(&self, name: &str) -> (found: Option<&String>)
        ensures
            match found {
                Some(text) => self.model().text_at(name@) == Some(text@),
                None => self.model().text_at(name@) is None,
            },
    {
        match self.get(name) {
            Some(value) => value.as_text(),
            None => None,
        }
    }
}

/// `serde_json::Value`, the crate's own JSON value.
#[verifier::external_type_specification]
#[verifier::external_body]
pub struct ExValue(serde_json::Value);

/// What a `serde_json::Value` holds. The members of an object stand in the order in which
/// `serde_json::Map` walks them.
pub uninterp spec fn value_model(value: serde_json::Value) -> JsonView;

/// What `serde_json::from_str::<serde_json::Value>` reads in a text: the value that it holds, or
/// nothing where it holds none.
pub uninterp spec fn json_reading(text: Seq<char>) -> Option<JsonView>;

/// One level of a `serde_json::Value`.
enum Opened {
    Null,
    Bool(bool),
    Number,
    Text(String),
    List(Vec<serde_json::Value>),
    Object(Vec<(String, serde_json::Value)>),
}

/// Calls `serde_json::from_str` for a `serde_json::Value`. Claimed: what comes back depends on the
/// text alone, and is the value that `json_reading` names, or an error where it names none.
#[verifier::external_body]
fn read_value(text: &str) -> (found: Option<serde_json::Value>)
    ensures
        match found {
            Some(value) => json_reading(text@) == Some(value_model(value)),
            None => json_reading(text@) is None,
        },
{
    serde_json::from_str::<serde_json::Value>(text).ok()
}

/// Tells the variants of a `serde_json::Value` apart and moves out what they hold, the members of
/// a `serde_json::Map` in the order in which it walks them. Claimed: what comes out is what the
/// value holds, one level down.
#[verifier::external_body]
fn open_value(value: serde_json::Value) -> (opened: Opened)
    ensures
        match opened {
            Opened::Null => value_model(value) == JsonView::Null,
            Opened::Bool(b) => value_model(value) == JsonView::Bool(b),
            Opened::Number => value_model(value) == JsonView::Number,
            Opened::Text(text) => value_model(value) == JsonView::Text(text@),
            Opened::List(items) => value_model(value) == JsonView::List(
                Seq::new(items@.len(), |i: int| value_model(items@[i])),
            ),
            Opened::Object(members) => value_model(value) == JsonView::Object(
                Seq::new(members@.len(), |i: int| (members@[i].0@, value_model(members@[i].1))),
            ),
        },
{
    match value {
        serde_json::Value::Null => Opened::Null,
        serde_json::Value::Bool(b) => Opened::Bool(b),
        serde_json::Value::Number(_) => Opened::Number,
        serde_json::Value::String(text) => Opened::Text(text),
        serde_json::Value::Array(items) => Opened::List(items),
        serde_json::Value::Object(members) => Opened::Object(members.into_iter().collect()),
    }
}

/// The value as the panel keeps it.
fn from_value(value: serde_json::Value) -> (json: Json)
    ensures
        json.model() == value_model(value),
    decreases value_model(value),
{
    match open_value(value) {
        Opened::Null => Json::Null,
        Opened::Bool(b) => Json::Bool(b),
        Opened::Number => Json::Number,
        Opened::Text(text) => Json::Text(text),
        Opened::List(items) => {
            let mut list: Vec<Json> = Vec::new();
            let ghost whole = value_model(value);
            for item in it: items
                invariant
                    whole == value_model(value),
                    it.seq() == items@,
                    whole == JsonView::List(Seq::new(items@.len(), |i: int| value_model(items@[i]))),
                    list@.len() == it.index(),
                    forall|i: int|
                        0 <= i < it.index() ==> (#[trigger] list@[i]).model() == value_model(
                            items@[i],
                        ),
            {
                assert(whole->List_0[it.index()] == value_model(item));
                assert(decreases_to!(whole => whole->List_0[it.index()]));
                list.push(from_value(item));
            }
            assert(Json::List(list).model()->List_0 =~= whole->List_0);
            Json::List(list)
        },
        Opened::Object(members) => {
            let mut kept: Vec<(String, Json)> = Vec::new();
            let ghost whole = value_model(value);
            for member in it: members
                invariant
                    whole == value_model(value),
                    it.seq() == members@,
                    whole == JsonView::Object(
                        Seq::new(
                            members@.len(),
                            |i: int| (members@[i].0@, value_model(members@[i].1)),
                        ),
                    ),
                    kept@.len() == it.index(),
                    forall|i: int|
                        0 <= i < it.index() ==> (#[trigger] kept@[i]).0@ == members@[i].0@
                            && kept@[i].1.model() == value_model(members@[i].1),
            {
                assert(whole->Object_0[it.index()].1 == value_model(member.1));
                assert(decreases_to!(whole => whole->Object_0[it.index()].1));
                kept.push((member.0, from_value(member.1)));
            }
            assert(Json::Object(kept).model()->Object_0 =~= whole->Object_0);
            Json::Object(kept)
        },
    }
}

/// Reads `text` as one JSON value, if it is one.
pub fn read_json(text: &str) -> (found: Option<Json>)
    ensures
        match found {
            Some(json) => json_reading(text@) == Some(json.model()),
            None => json_reading(text@) is None,
        },
{
    match read_value(text) {
        Some(value) => Some(from_value(value)),
        None => None,
    }
}

/// The hexadecimal digit `d`, in lower case.
pub open spec fn hex_char(d: nat) -> char {
    if d < 10 {
        (('0' as u32) + d) as char
    } else {
        (('a' as u32) + (d - 10)) as char
    }
}

/// How a JSON string spells the character `c`.
pub open spec fn escape(c: char) -> Seq<char> {
    let n = c as nat;
    if c == '"' || c == '\\' {
        seq!['\\', c]
    } else if n == 0x8 {
        seq!['\\', 'b']
    } else if n == 0xc {
        seq!['\\', 'f']
    } else if c == '\n' {
        seq!['\\', 'n']
    } else if c == '\r' {
        seq!['\\', 'r']
    } else if c == '\t' {
        seq!['\\', 't']
    } else if n < 0x20 {
        seq!['\\', 'u', '0', '0', hex_char(n / 16), hex_char(n % 16)]
    } else {
        seq![c]
    }
}

/// How a JSON string spells `text`, between its quotes.
pub open spec fn escaped(text: Seq<char>) -> Seq<char>
    decreases text.len(),
{
    if text.len() == 0 {
        Seq::empty()
    } else {
        escaped(text.drop_last()) + escape(text.last())
    }
}

/// `text` as a JSON string.
pub open spec fn quoted(text: Seq<char>) -> Seq<char> {
    seq!['"'] + escaped(text) + seq!['"']
}

/// How a text, `true` or `false` is spelled.
pub open spec fn leaf_text(value: JsonView) -> Seq<char>
    recommends
        is_leaf(value),
{
    match value {
        JsonView::Text(text) => quoted(text),
        JsonView::Bool(true) => "true"@,
        _ => "false"@,
    }
}

/// Whether the value is a text, `true` or `false`.
pub open spec fn is_leaf(value: JsonView) -> bool {
    value is Text || value is Bool
}

/// How a member is spelled.
pub open spec fn member_text(name: Seq<char>, value: JsonView) -> Seq<char> {
    quoted(name) + ":"@ + leaf_text(value)
}

/// How an object with these members is spelled, without white space.
pub open spec fn object_text(members: Seq<(Seq<char>, JsonView)>) -> Seq<char> {
    "{"@ + text::joined_by(
        Seq::new(members.len(), |i: int| member_text(members[i].0, members[i].1)),
        ","@,
    ) + "}"@
}

/// Whether the values of these members are texts, `true` or `false`.
pub open spec fn all_leaves(members: Seq<(Seq<char>, JsonView)>) -> bool {
    forall|i: int| 0 <= i < members.len() ==> is_leaf((#[trigger] members[i]).1)
}

/// Whether no two of these members have the same name.
pub open spec fn names_differ(members: Seq<(Seq<char>, JsonView)>) -> bool {
    forall|i: int, j: int|
        0 <= i < j < members.len() ==> (#[trigger] members[i]).0 != (#[trigger] members[j]).0
}

/// What a list of members holds.
pub open spec fn member_models(members: Seq<(String, serde_json::Value)>) -> Seq<
    (Seq<char>, JsonView),
> {
    Seq::new(members.len(), |i: int| (members[i].0@, value_model(members[i].1)))
}

/// Makes a `serde_json::Value::String`. Claimed: it holds the text.
#[verifier::external_body]
pub(crate) fn text_value(text: String) -> (value: serde_json::Value)
    ensures
        value_model(value) == JsonView::Text(text@),
{
    serde_json::Value::String(text)
}

/// Makes a `serde_json::Value::Bool`. Claimed: it holds the flag.
#[verifier::external_body]
pub(crate) fn flag_value(flag: bool) -> (value: serde_json::Value)
    ensures
        value_model(value) == JsonView::Bool(flag),
{
    serde_json::Value::Bool(flag)
}

/// Calls `serde_json::to_string` for a `serde_json::Map`, which keeps the order of its members.
/// Claimed: members with different names whose values are texts or flags can always be written; what
/// is written is the object with these members in order, without white space; and
/// `serde_json::from_str` reads it back as that object, with or without a newline after it.
#[verifier::external_body]
pub(crate) fn write_object(members: Vec<(String, serde_json::Value)>) -> (res: Result<
    String,
    String,
>)
    requires
        all_leaves(member_models(members@)),
        names_differ(member_models(members@)),
    ensures
        res is Ok,
        res->Ok_0@ == object_text(member_models(members@)),
        json_reading(res->Ok_0@) == Some(JsonView::Object(member_models(members@))),
        json_reading(res->Ok_0@ + "\n"@) == Some(JsonView::Object(member_models(members@))),
{
    let map: serde_json::Map<String, serde_json::Value> = members.into_iter().collect();
    serde_json::to_string(&map).map_err(|err| err.to_string())
}

/// The member that is found under a name is one that has it, and none behind it has; none is found
/// only where none has the name.
pub proof fn law_the_last_member_of_a_name_is_found(
    members: Seq<(Seq<char>, JsonView)>,
    name: Seq<char>,
)
    ensures
        match member(members, name) {
            Some(value) => exists|i: int|
                #![trigger members[i]]
                0 <= i < members.len() && members[i] == (name, value) && forall|j: int|
                    i < j < members.len() ==> (#[trigger] members[j]).0 != name,
            None => forall|i: int| 0 <= i < members.len() ==> (#[trigger] members[i]).0 != name,
        },
    decreases members.len(),
{
    if members.len() > 0 {
        let n = members.len() - 1;
        let before = members.drop_last();
        if members[n].0 == name {
            assert(members[n] == (name, members[n].1));
        } else {
            law_the_last_member_of_a_name_is_found(before, name);
            match member(before, name) {
                Some(value) => {
                    let i = choose|i: int|
                        #![trigger before[i]]
                        0 <= i < before.len() && before[i] == (name, value) && forall|j: int|
                            i < j < before.len() ==> (#[trigger] before[j]).0 != name;
                    assert(members[i] == (name, value));
                    assert forall|j: int| i < j < members.len() implies (#[trigger] members[j]).0
                        != name by {
                        if j < n {
                            assert(before[j] == members[j]);
                        }
                    }
                },
                None => {
                    assert forall|i: int| 0 <= i < members.len() implies (
                    #[trigger] members[i]).0 != name by {
                        if i < n {
                            assert(before[i] == members[i]);
                        }
                    }
                },
            }
        }
    }
}

/// Where one member has the name, its value is found, whatever the other members are.
pub proof fn law_a_member_is_found(members: Seq<(Seq<char>, JsonView)>, i: int)
    requires
        0 <= i < members.len(),
        forall|j: int| i < j < members.len() ==> (#[trigger] members[j]).0 != members[i].0,
    ensures
        JsonView::Object(members).get(members[i].0) == Some(members[i].1),
{
    let name = members[i].0;
    law_the_last_member_of_a_name_is_found(members, name);
    assert(members[i].0 == name);
    let found = member(members, name);
    if let Some(value) = found {
        let k = choose|k: int|
            #![trigger members[k]]
            0 <= k < members.len() && members[k] == (name, value) && forall|j: int|
                k < j < members.len() ==> (#[trigger] members[j]).0 != name;
        assert(members[k].0 == name);
        assert(k == i);
    }
}

/// What can be looked up in a value: members in an object alone, under each name the last; text where
/// the value is a text alone; items where it is a list alone.
pub proof fn law_values_are_looked_into(value: JsonView, name: Seq<char>)
    ensures
        value.get(name) == match value {
            JsonView::Object(members) => member(members, name),
            _ => None,
        },
        value.as_text() == match value {
            JsonView::Text(said) => Some(said),
            _ => None,
        },
        value.as_list() == match value {
            JsonView::List(items) => Some(items),
            _ => None,
        },
        value.text_at(name) == match value.get(name) {
            Some(JsonView::Text(said)) => Some(said),
            _ => None,
        },
{
}

/// A value is seen as what it holds: each kind as itself, the items and members in order.
pub proof fn law_values_are_seen_as_they_are(value: Json)
    ensures
        match value {
            Json::Null => value.model() == JsonView::Null,
            Json::Bool(b) => value.model() == JsonView::Bool(b),
            Json::Number => value.model() == JsonView::Number,
            Json::Text(said) => value.model() == JsonView::Text(said@),
            Json::List(items) => {
                &&& value.model() is List
                &&& value.model()->List_0.len() == items@.len()
                &&& forall|i: int|
                    0 <= i < items@.len() ==> #[trigger] value.model()->List_0[i]
                        == items@[i].model()
            },
            Json::Object(members) => {
                &&& value.model() is Object
                &&& value.model()->Object_0.len() == members@.len()
                &&& forall|i: int|
                    0 <= i < members@.len() ==> #[trigger] value.model()->Object_0[i] == (
                        members@[i].0@,
                        members@[i].1.model(),
                    )
            },
        },
{
}

/// A list of values holds what each of them holds, in order.
pub proof fn law_lists_are_seen_as_they_are(items: Seq<Json>)
    ensures
        models(items).len() == items.len(),
        forall|i: int| 0 <= i < items.len() ==> #[trigger] models(items)[i] == items[i].model(),
{
}

/// The members of an object that is to be written are seen as what they hold, in order and none left
/// out; which of them can be written, and whether their names differ, is told of each.
pub proof fn law_members_are_seen_as_they_are(
    members: Seq<(String, serde_json::Value)>,
    all: Seq<(Seq<char>, JsonView)>,
)
    ensures
        member_models(members).len() == members.len(),
        forall|i: int|
            0 <= i < members.len() ==> #[trigger] member_models(members)[i] == (
                members[i].0@,
                value_model(members[i].1),
            ),
        all_leaves(all) <==> forall|i: int|
            0 <= i < all.len() ==> (#[trigger] all[i]).1 is Text || all[i].1 is Bool,
        names_differ(all) <==> forall|i: int, j: int|
            0 <= i < j < all.len() ==> (#[trigger] all[i]).0 != (#[trigger] all[j]).0,
{
}

} // verus!
