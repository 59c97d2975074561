//! The envelope in which Zepi wraps each message of its RPC stream.
use crate::json::{read_json, Json, JsonView};
use crate::members::member_names;
use crate::text::same_text;
use crate::{json, members, text};
use vstd::prelude::*;

verus! {

/// The fields that belong to the envelope itself; every other member belongs to the payload.
#[derive(Debug, Clone, Copy, PartialEq, Eq, Structural)]
pub enum Field {
    Type,
    Id,
    Command,
    Method,
    Error,
}

impl Field {
    /// The name of the field in JSON.
    pub open spec fn word(self) -> Seq<char> {
        match self {
            Field::Type => "type"@,
            Field::Id => "id"@,
            Field::Command => "command"@,
            Field::Method => "method"@,
            Field::Error => "error"@,
        }
    }

    /// The name of the field in JSON.
    pub fn name(self) -> (name: &'static str)
        ensures
            name@ == self.word(),
    {
        match self {
            Field::Type => "type",
            Field::Id => "id",
            Field::Command => "command",
            Field::Method => "method",
            Field::Error => "error",
        }
    }
}

/// Why a line is no envelope. Where several reasons hold, the first of this list is given, and of
/// several fields the first.
#[derive(Debug, Clone, Copy, PartialEq, Eq, Structural)]
pub enum LineError {
    /// It is not JSON.
    NotJson,
    /// It is JSON, but no object.
    NotAnObject,
    /// A field of the envelope occurs more than once.
    Repeated(Field),
    /// There is no message type.
    MissingType,
    /// A field of the envelope holds something other than text.
    NotText(Field),
}

/// A message of the RPC stream.
#[derive(Debug)]
pub struct RpcEnvelope {
    pub message_type: String,
    pub id: Option<String>,
    pub command: Option<String>,
    pub method: Option<String>,
    pub error: Option<String>,
    /// An object with the members that are no fields of the envelope.
    pub payload: Json,
}

/// What a message holds.
pub struct EnvelopeView {
    pub message_type: Seq<char>,
    pub id: Option<Seq<char>>,
    pub command: Option<Seq<char>>,
    pub method: Option<Seq<char>>,
    pub error: Option<Seq<char>>,
    pub payload: JsonView,
}

/// The text that an optional string holds.
pub open spec fn text_of(found: Option<String>) -> Option<Seq<char>> {
    match found {
        Some(t) => Some(t@),
        None => None,
    }
}

impl View for RpcEnvelope {
    type V = EnvelopeView;

    open spec fn view(&self) -> EnvelopeView {
        EnvelopeView {
            message_type: self.message_type@,
            id: text_of(self.id),
            command: text_of(self.command),
            method: text_of(self.method),
            error: text_of(self.error),
            payload: self.payload.model(),
        }
    }
}

/// Whether `name` is the name of a field of the envelope.
pub open spec fn names_field(name: Seq<char>) -> bool {
    exists|field: Field| name == #[trigger] field.word()
}

/// The members that are no fields of the envelope, in order.
pub open spec fn beside_fields(all: Seq<(Seq<char>, JsonView)>) -> Seq<(Seq<char>, JsonView)> {
    all.filter(|member: (Seq<char>, JsonView)| !names_field(member.0))
}

/// Whether `name` occurs more than once among `names`.
pub open spec fn repeats(names: Seq<Seq<char>>, name: Seq<char>) -> bool {
    exists|i: int, j: int|
        0 <= i < j < names.len() && #[trigger] names[i] == name && #[trigger] names[j] == name
}

/// Whether an optional field may hold `found`: text, or nothing, which `null` spells too.
pub open spec fn field_ok(found: Option<JsonView>) -> bool {
    match found {
        None => true,
        Some(JsonView::Null) => true,
        Some(JsonView::Text(_)) => true,
        _ => false,
    }
}

/// The text of an optional field.
pub open spec fn field_text(found: Option<JsonView>) -> Option<Seq<char>> {
    match found {
        Some(JsonView::Text(t)) => Some(t),
        _ => None,
    }
}

/// The envelope that a JSON value spells whose outermost members bear `names`.
pub open spec fn envelope(value: JsonView, names: Seq<Seq<char>>) -> Result<
    EnvelopeView,
    LineError,
> {
    if !(value is Object) {
        Err(LineError::NotAnObject)
    } else if repeats(names, Field::Type.word()) {
        Err(LineError::Repeated(Field::Type))
    } else if repeats(names, Field::Id.word()) {
        Err(LineError::Repeated(Field::Id))
    } else if repeats(names, Field::Command.word()) {
        Err(LineError::Repeated(Field::Command))
    } else if repeats(names, Field::Method.word()) {
        Err(LineError::Repeated(Field::Method))
    } else if repeats(names, Field::Error.word()) {
        Err(LineError::Repeated(Field::Error))
    } else if value.get(Field::Type.word()) is None {
        Err(LineError::MissingType)
    } else if value.text_at(Field::Type.word()) is None {
        Err(LineError::NotText(Field::Type))
    } else if !field_ok(value.get(Field::Id.word())) {
        Err(LineError::NotText(Field::Id))
    } else if !field_ok(value.get(Field::Command.word())) {
        Err(LineError::NotText(Field::Command))
    } else if !field_ok(value.get(Field::Method.word())) {
        Err(LineError::NotText(Field::Method))
    } else if !field_ok(value.get(Field::Error.word())) {
        Err(LineError::NotText(Field::Error))
    } else {
        Ok(
            EnvelopeView {
                message_type: value.text_at(Field::Type.word())->0,
                id: field_text(value.get(Field::Id.word())),
                command: field_text(value.get(Field::Command.word())),
                method: field_text(value.get(Field::Method.word())),
                error: field_text(value.get(Field::Error.word())),
                payload: JsonView::Object(beside_fields(value->Object_0)),
            },
        )
    }
}

/// The envelope that a line spells.
pub open spec fn envelope_of_line(line: Seq<char>) -> Result<EnvelopeView, LineError> {
    match json::json_reading(line) {
        Some(value) => envelope(value, members::names_in(line)),
        None => Err(LineError::NotJson),
    }
}

/// Whether `name` occurs more than once among `names`.
fn has_repeated(names: &Vec<String>, name: &str) -> (b: bool)
    ensures
        b == repeats(text::texts(names@), name@),
{
    let mut seen: bool = false;
    let n: usize = names.len();
    let mut i: usize = 0;
    let ghost all = text::texts(names@);
    while i < n
        invariant
            i <= n == names@.len(),
            all == text::texts(names@),
            seen == (exists|k: int| 0 <= k < i && #[trigger] all[k] == name@),
            forall|k: int, l: int|
                0 <= k < l < i ==> !(#[trigger] all[k] == name@ && #[trigger] all[l] == name@),
        decreases n - i,
    {
        if same_text(names[i].as_str(), name) {
            assert(all[i as int] == name@);
            if seen {
                return true;
            }
            seen = true;
        }
        i += 1;
    }
    false
}

/// Whether `name` is the name of a field of the envelope.
fn is_field_name(name: &str) -> (b: bool)
    ensures
        b == names_field(name@),
{
    let b: bool = same_text(name, Field::Type.name()) || same_text(name, Field::Id.name())
        || same_text(name, Field::Command.name()) || same_text(name, Field::Method.name())
        || same_text(name, Field::Error.name());
    assert(names_field(name@) ==> b) by {
        if names_field(name@) {
            let field = choose|field: Field| name@ == #[trigger] field.word();
            match field {
                Field::Type => {},
                Field::Id => {},
                Field::Command => {},
                Field::Method => {},
                Field::Error => {},
            }
        }
    }
    b
}

/// The members that are no fields of the envelope, in order.
fn payload_members(all: Vec<(String, Json)>) -> (rest: Vec<(String, Json)>)
    ensures
        Json::Object(rest).model() == JsonView::Object(
            beside_fields(Json::Object(all).model()->Object_0),
        ),
{
    let ghost model = Json::Object(all).model()->Object_0;
    let ghost kept = |member: (Seq<char>, JsonView)| !names_field(member.0);
    let mut rest: Vec<(String, Json)> = Vec::new();
    assert(Json::Object(rest).model()->Object_0 =~= model.take(0).filter(kept)) by {
        reveal(Seq::filter);
    }
    for member in it: all
        invariant
            it.seq() == all@,
            model == Json::Object(all).model()->Object_0,
            kept == (|member: (Seq<char>, JsonView)| !names_field(member.0)),
            Json::Object(rest).model()->Object_0 == model.take(it.index()).filter(kept),
    {
        let ghost before = rest;
        let ghost spelled = (member.0@, member.1.model());
        proof {
            let longer = model.take(it.index() + 1);
            assert(longer.drop_last() =~= model.take(it.index()));
            assert(longer.last() == spelled);
            reveal(Seq::filter);
        }
        if !is_field_name(member.0.as_str()) {
            rest.push(member);
            assert(Json::Object(rest).model()->Object_0 =~= Json::Object(
                before,
            ).model()->Object_0.push(spelled));
        }
    }
    assert(model.take(model.len() as int) =~= model);
    rest
}

/// The text of an optional field: text, or nothing, which `null` spells too.
fn optional_text(value: &Json, field: Field) -> (res: Result<Option<String>, LineError>)
    ensures
        match res {
            Ok(found) => field_ok(value.model().get(field.word())) && text_of(found)
                == field_text(value.model().get(field.word())),
            Err(error) => !field_ok(value.model().get(field.word())) && error
                == LineError::NotText(field),
        },
{
    match value.get(field.name()) {
        None => Ok(None),
        Some(Json::Null) => Ok(None),
        Some(Json::Text(t)) => Ok(Some(t.clone())),
        Some(_) => Err(LineError::NotText(field)),
    }
}

impl RpcEnvelope {
    /// The envelope that `value` spells, where `names` are the names of its outermost members, each
    /// as often as the text spells it.
    pub fn from_json(value: Json, names: &Vec<String>) -> (res: Result<RpcEnvelope, LineError>)
        ensures
            match res {
                Ok(message) => envelope(value.model(), text::texts(names@)) == Ok::<
                    EnvelopeView,
                    LineError,
                >(message@),
                Err(error) => envelope(value.model(), text::texts(names@)) == Err::<
                    EnvelopeView,
                    LineError,
                >(error),
            },
    {
        if let Json::Object(_) = &value {
        } else {
            return Err(LineError::NotAnObject);
        }
        if has_repeated(names, Field::Type.name()) {
            return Err(LineError::Repeated(Field::Type));
        }
        if has_repeated(names, Field::Id.name()) {
            return Err(LineError::Repeated(Field::Id));
        }
        if has_repeated(names, Field::Command.name()) {
            return Err(LineError::Repeated(Field::Command));
        }
        if has_repeated(names, Field::Method.name()) {
            return Err(LineError::Repeated(Field::Method));
        }
        if has_repeated(names, Field::Error.name()) {
            return Err(LineError::Repeated(Field::Error));
        }
        let message_type: String = match value.get(Field::Type.name()) {
            None => {
                return Err(LineError::MissingType);
            },
            Some(Json::Text(t)) => t.clone(),
            Some(_) => {
                return Err(LineError::NotText(Field::Type));
            },
        };
        let id: Option<String> = optional_text(&value, Field::Id)?;
        let command: Option<String> = optional_text(&value, Field::Command)?;
        let method: Option<String> = optional_text(&value, Field::Method)?;
        let error: Option<String> = optional_text(&value, Field::Error)?;
        let payload: Json = match value {
            Json::Object(all) => Json::Object(payload_members(all)),
            other => other,
        };
        Ok(RpcEnvelope { message_type, id, command, method, error, payload })
    }

    /// The envelope that a line of the RPC stream spells.
    pub fn from_line(line: &str) -> (res: Result<RpcEnvelope, LineError>)
        ensures
            match res {
                Ok(message) => envelope_of_line(line@) == Ok::<EnvelopeView, LineError>(
                    message@,
                ),
                Err(error) => envelope_of_line(line@) == Err::<EnvelopeView, LineError>(error),
            },
    {
        match read_json(line) {
            Some(value) => RpcEnvelope::from_json(value, &member_names(line)),
            None => Err(LineError::NotJson),
        }
    }
}

/// Whether two places of `names` hold `name`.
pub open spec fn twice(names: Seq<Seq<char>>, name: Seq<char>) -> bool {
    exists|i: int, j: int|
        0 <= i < j < names.len() && #[trigger] names[i] == name && #[trigger] names[j] == name
}

/// Whether a member that need not be there is missing, `null` or a text.
pub open spec fn text_or_nothing(found: Option<JsonView>) -> bool {
    found is None || found == Some(JsonView::Null) || (found matches Some(value) && value is Text)
}

/// Which names belong to the envelope.
pub proof fn law_the_fields_of_an_envelope(name: Seq<char>)
    ensures
        names_field(name) <==> name == "type"@ || name == "id"@ || name == "command"@ || name
            == "method"@ || name == "error"@,
        Field::Type.word() == "type"@,
        Field::Id.word() == "id"@,
        Field::Command.word() == "command"@,
        Field::Method.word() == "method"@,
        Field::Error.word() == "error"@,
{
    assert(Field::Type.word() == "type"@);
    assert(Field::Id.word() == "id"@);
    assert(Field::Command.word() == "command"@);
    assert(Field::Method.word() == "method"@);
    assert(Field::Error.word() == "error"@);
    if names_field(name) {
        let field = choose|field: Field| name == #[trigger] field.word();
        match field {
            Field::Type => {},
            Field::Id => {},
            Field::Command => {},
            Field::Method => {},
            Field::Error => {},
        }
    }
}

/// Which values are envelopes: the objects in which no field occurs twice, the type is a text, and
/// each other field is a text, `null` or missing.
pub proof fn law_which_values_are_envelopes(value: JsonView, names: Seq<Seq<char>>)
    ensures
        envelope(value, names) is Ok <==> {
            &&& value is Object
            &&& !twice(names, "type"@)
            &&& !twice(names, "id"@)
            &&& !twice(names, "command"@)
            &&& !twice(names, "method"@)
            &&& !twice(names, "error"@)
            &&& value.get("type"@) matches Some(kind) && kind is Text
            &&& text_or_nothing(value.get("id"@))
            &&& text_or_nothing(value.get("command"@))
            &&& text_or_nothing(value.get("method"@))
            &&& text_or_nothing(value.get("error"@))
        },
{
}

/// What an envelope holds: the text of each field, and as payload an object.
pub proof fn law_what_an_envelope_holds(value: JsonView, names: Seq<Seq<char>>)
    requires
        envelope(value, names) is Ok,
    ensures
        ({
            let message = envelope(value, names)->Ok_0;
            &&& value.get("type"@) == Some(JsonView::Text(message.message_type))
            &&& message.id == text_in_field(value.get("id"@))
            &&& message.command == text_in_field(value.get("command"@))
            &&& message.method == text_in_field(value.get("method"@))
            &&& message.error == text_in_field(value.get("error"@))
            &&& message.payload == JsonView::Object(beside_fields(value->Object_0))
        }),
{
}

/// The text in a member that need not be there.
pub open spec fn text_in_field(found: Option<JsonView>) -> Option<Seq<char>> {
    if found matches Some(value) && value is Text {
        Some(found->0->Text_0)
    } else {
        None
    }
}

/// The payload keeps the members that are no fields, in order: each member is kept or left out by
/// its own name alone.
pub proof fn law_the_payload_keeps_what_is_no_field(
    a: Seq<(Seq<char>, JsonView)>,
    b: Seq<(Seq<char>, JsonView)>,
    member: (Seq<char>, JsonView),
)
    ensures
        beside_fields(Seq::empty()) == Seq::<(Seq<char>, JsonView)>::empty(),
        beside_fields(seq![member]) == if member.0 == "type"@ || member.0 == "id"@ || member.0
            == "command"@ || member.0 == "method"@ || member.0 == "error"@ {
            Seq::empty()
        } else {
            seq![member]
        },
        beside_fields(a + b) == beside_fields(a) + beside_fields(b),
{
    let kept = |member: (Seq<char>, JsonView)| !names_field(member.0);
    law_the_fields_of_an_envelope(member.0);
    reveal(Seq::filter);
    assert(seq![member].drop_last() =~= Seq::<(Seq<char>, JsonView)>::empty());
    assert(beside_fields(Seq::empty()) =~= Seq::<(Seq<char>, JsonView)>::empty());
    assert(beside_fields(seq![member]) =~= if kept(member) {
        seq![member]
    } else {
        Seq::empty()
    });
    Seq::filter_distributes_over_add(a, b, kept);
}

/// Why a value is no envelope: each reason is given only where it holds, and a later reason of the
/// list only where no earlier one holds.
pub proof fn law_refusals_have_their_reason(value: JsonView, names: Seq<Seq<char>>)
    requires
        envelope(value, names) is Err,
    ensures
        ({
            let once = !twice(names, "type"@) && !twice(names, "id"@) && !twice(names, "command"@)
                && !twice(names, "method"@) && !twice(names, "error"@);
            match envelope(value, names)->Err_0 {
                LineError::NotJson => false,
                LineError::NotAnObject => !(value is Object),
                LineError::Repeated(field) => value is Object && twice(names, field.word()),
                LineError::MissingType => value is Object && once && value.get("type"@) is None,
                LineError::NotText(field) => {
                    &&& value is Object
                    &&& once
                    &&& value.get("type"@) is Some
                    &&& value.get(field.word()) matches Some(held) && !(held is Text)
                },
            }
        }),
{
}

/// Which lines are messages: a line that is no JSON is refused as such, and every other one is what
/// its value and the names in it make it.
pub proof fn law_lines_are_what_they_spell(line: Seq<char>)
    ensures
        json::json_reading(line) is None <==> envelope_of_line(line) == Err::<
            EnvelopeView,
            LineError,
        >(LineError::NotJson),
        json::json_reading(line) matches Some(value) ==> envelope_of_line(line) == envelope(
            value,
            members::names_in(line),
        ),
{
}

/// A message is seen as what it holds.
pub proof fn law_messages_are_seen_as_they_are(message: RpcEnvelope, said: String)
    ensures
        message@ == (EnvelopeView {
            message_type: message.message_type@,
            id: text_of(message.id),
            command: text_of(message.command),
            method: text_of(message.method),
            error: text_of(message.error),
            payload: message.payload.model(),
        }),
        text_of(Some(said)) == Some(said@),
        text_of(None) is None,
{
}

} // verus!
