//! What the panel shows: a status, rows, slash commands, and the answers that it owes extensions.
use crate::envelope::{EnvelopeView, LineError, RpcEnvelope};
use crate::json::{flag_value, text_value, write_object, Json, JsonView};
use crate::text::{begins_with, decimal_text, joined, same_text};
use crate::{envelope, json, text};
use vstd::prelude::*;

verus! {

/// A row of the panel.
#[derive(Debug, Clone, PartialEq, Eq)]
pub enum DisplayRow {
    Status(String),
    Error(String),
    User(String),
    Assistant(String),
    Notification(String),
}

/// What a row holds.
pub enum RowView {
    Status(Seq<char>),
    Error(Seq<char>),
    User(Seq<char>),
    Assistant(Seq<char>),
    Notification(Seq<char>),
}

impl View for DisplayRow {
    type V = RowView;

    open spec fn view(&self) -> RowView {
        match self {
            DisplayRow::Status(t) => RowView::Status(t@),
            DisplayRow::Error(t) => RowView::Error(t@),
            DisplayRow::User(t) => RowView::User(t@),
            DisplayRow::Assistant(t) => RowView::Assistant(t@),
            DisplayRow::Notification(t) => RowView::Notification(t@),
        }
    }
}

/// What a list of rows holds.
pub open spec fn row_views(rows: Seq<DisplayRow>) -> Seq<RowView> {
    Seq::new(rows.len(), |i: int| rows[i]@)
}

/// The answer to a request that an extension makes of the user interface.
#[derive(Debug, Clone, PartialEq, Eq)]
pub struct ExtensionUiResponse {
    pub message_type: &'static str,
    pub id: String,
    pub cancelled: bool,
}

/// What an answer holds.
pub struct ResponseView {
    pub message_type: Seq<char>,
    pub id: Seq<char>,
    pub cancelled: bool,
}

impl View for ExtensionUiResponse {
    type V = ResponseView;

    open spec fn view(&self) -> ResponseView {
        ResponseView {
            message_type: self.message_type@,
            id: self.id@,
            cancelled: self.cancelled,
        }
    }
}

impl ResponseView {
    /// The members of the answer.
    pub open spec fn members(self) -> Seq<(Seq<char>, JsonView)> {
        seq![
            ("type"@, JsonView::Text(self.message_type)),
            ("id"@, JsonView::Text(self.id)),
            ("cancelled"@, JsonView::Bool(self.cancelled)),
        ]
    }

    /// The answer as a JSON object.
    pub open spec fn json(self) -> Seq<char> {
        json::object_text(self.members())
    }

    /// The line that spells the answer.
    pub open spec fn line(self) -> Seq<char> {
        self.json() + "\n"@
    }
}

impl ExtensionUiResponse {
    /// The answer as a JSON object. There is one for every answer, and it reads back as the answer's
    /// members, also as a line.
    pub fn to_json(&self) -> (res: Result<String, String>)
        ensures
            res is Ok,
            res->Ok_0@ == self@.json(),
            json::json_reading(res->Ok_0@) == Some(JsonView::Object(self@.members())),
            json::json_reading(self@.line()) == Some(JsonView::Object(self@.members())),
    {
        let mut members: Vec<(String, serde_json::Value)> = Vec::new();
        members.push(("type".to_owned(), text_value(self.message_type.to_owned())));
        members.push(("id".to_owned(), text_value(self.id.clone())));
        members.push(("cancelled".to_owned(), flag_value(self.cancelled)));
        proof {
            reveal_strlit("type");
            reveal_strlit("id");
            reveal_strlit("cancelled");
            assert("type"@.len() == 4 && "id"@.len() == 2 && "cancelled"@.len() == 9);
            assert(json::member_models(members@) =~= self@.members());
        }
        write_object(members)
    }
}

/// What a list of answers holds.
pub open spec fn response_views(responses: Seq<ExtensionUiResponse>) -> Seq<ResponseView> {
    Seq::new(responses.len(), |i: int| responses[i]@)
}

/// What the panel shows, and what it owes.
#[derive(Debug)]
pub struct ZepiPanelState {
    status: String,
    rows: Vec<DisplayRow>,
    slash_commands: Vec<String>,
    pending_extension_ui_responses: Vec<ExtensionUiResponse>,
}

/// What the state holds.
#[verifier::ext_equal]
pub struct StateView {
    pub status: Seq<char>,
    pub rows: Seq<RowView>,
    pub slash_commands: Seq<Seq<char>>,
    pub pending: Seq<ResponseView>,
}

impl View for ZepiPanelState {
    type V = StateView;

    closed spec fn view(&self) -> StateView {
        StateView {
            status: self.status@,
            rows: row_views(self.rows@),
            slash_commands: text::texts(self.slash_commands@),
            pending: response_views(self.pending_extension_ui_responses@),
        }
    }
}

impl StateView {
    /// The state with one more row.
    pub open spec fn with_row(self, row: RowView) -> StateView {
        StateView { rows: self.rows.push(row), ..self }
    }

    /// The state with another status.
    pub open spec fn with_status(self, status: Seq<char>) -> StateView {
        StateView { status, ..self }
    }

    /// The state once the answers that were owed have been taken.
    pub open spec fn drained(self) -> StateView {
        StateView { pending: Seq::empty(), ..self }
    }

    /// The state with one row more for each of `lines`.
    pub open spec fn with_status_rows(self, lines: Seq<Seq<char>>) -> StateView {
        StateView { rows: self.rows + Seq::new(lines.len(), |i: int| RowView::Status(lines[i])), ..self }
    }

    /// The state after more of the assistant's text: the last row goes on where it is the
    /// assistant's, and else a new one begins.
    pub open spec fn with_delta(self, delta: Seq<char>) -> StateView {
        StateView { rows: rows_with_delta(self.rows, delta), ..self }
    }

    /// The state after a request that the panel does not support: it is shown as cancelled, and
    /// where it can be answered it is owed that answer.
    pub open spec fn failed_closed(self, id: Seq<char>, method: Seq<char>) -> StateView {
        let shown = self.with_row(
            RowView::Error("Unsupported extension UI request cancelled: "@ + method),
        );
        if id.len() == 0 {
            shown
        } else {
            StateView { pending: shown.pending.push(cancellation(id)), ..shown }
        }
    }

    /// The state after a response.
    pub open spec fn after_response(self, message: EnvelopeView) -> StateView {
        if message.command == Some("get_commands"@) {
            let commands = commands_in(message.payload);
            StateView {
                slash_commands: commands,
                status: text::decimal(commands.len()) + " commands available"@,
                ..self
            }
        } else {
            match message.error {
                Some(error) => self.with_row(RowView::Error(error)),
                None => self,
            }
        }
    }

    /// The state after an event.
    pub open spec fn after_event(self, message: EnvelopeView) -> StateView {
        let kind = message.message_type;
        let payload = message.payload;
        if kind == "agent_start"@ {
            self.with_status("Running"@)
        } else if kind == "agent_end"@ {
            self.with_status("Idle"@)
        } else if kind == "message_update"@ {
            match text_under(payload, "assistantMessageEvent"@, "delta"@) {
                Some(delta) if delta.len() > 0 => self.with_delta(delta),
                _ => self,
            }
        } else if kind == "message_start"@ {
            if text_under(payload, "message"@, "role"@) == Some("user"@) {
                let said = message_text(payload.get("message"@)->0);
                if said.len() > 0 {
                    self.with_row(RowView::User(said))
                } else {
                    self
                }
            } else {
                self
            }
        } else if kind == "tool_execution_start"@ {
            let tool = match payload.text_at("toolName"@) {
                Some(name) => name,
                None => "tool"@,
            };
            self.with_row(RowView::Status("Running tool: "@ + tool))
        } else if kind == "extension_error"@ {
            self.with_row(RowView::Error(text_in(payload)))
        } else {
            self.with_row(RowView::Status("Unhandled RPC event: "@ + kind))
        }
    }

    /// The state after a request that an extension makes of the user interface.
    pub open spec fn after_ui_request(self, message: EnvelopeView) -> StateView {
        let payload = message.payload;
        let method = requested_method(message);
        if method == "notify"@ {
            self.with_row(RowView::Notification(text_in(payload)))
        } else if method == "setStatus"@ {
            self.with_status(status_text_in(payload))
        } else if method == "setTitle"@ {
            self.with_row(RowView::Status(text_in(payload)))
        } else if method == "set_editor_text"@ {
            self.with_row(RowView::Status("Extension updated editor text"@))
        } else if method == "setWidget"@ {
            self.with_status_rows(widget_lines_in(payload))
        } else {
            self.failed_closed(request_id(message), method)
        }
    }

    /// The state after a message.
    pub open spec fn after_message(self, message: EnvelopeView) -> StateView {
        if message.message_type == "response"@ {
            self.after_response(message)
        } else if message.message_type == "extension_ui_request"@ {
            self.after_ui_request(message)
        } else {
            self.after_event(message)
        }
    }

    /// The state after a line of the RPC stream: one that is no message changes nothing.
    pub open spec fn after_line(self, line: Seq<char>) -> StateView {
        match envelope::envelope_of_line(line) {
            Ok(message) => self.after_message(message),
            Err(_) => self,
        }
    }
}

/// The rows after more of the assistant's text.
pub open spec fn rows_with_delta(rows: Seq<RowView>, delta: Seq<char>) -> Seq<RowView> {
    if rows.len() > 0 && rows.last() is Assistant {
        rows.drop_last().push(RowView::Assistant(rows.last()->Assistant_0 + delta))
    } else {
        rows.push(RowView::Assistant(delta))
    }
}

/// The answer that cancels the request `id`.
pub open spec fn cancellation(id: Seq<char>) -> ResponseView {
    ResponseView { message_type: "extension_ui_response"@, id, cancelled: true }
}

/// The method that a request asks for.
pub open spec fn requested_method(message: EnvelopeView) -> Seq<char> {
    match message.method {
        Some(method) => method,
        None => "unknown"@,
    }
}

/// The id under which a request is answered; empty where it has none.
pub open spec fn request_id(message: EnvelopeView) -> Seq<char> {
    match message.id {
        Some(id) => id,
        None => Seq::empty(),
    }
}

/// The text of the member `inner` of the member `outer`.
pub open spec fn text_under(payload: JsonView, outer: Seq<char>, inner: Seq<char>) -> Option<
    Seq<char>,
> {
    match payload.get(outer) {
        Some(value) => value.text_at(inner),
        None => None,
    }
}

/// The first of the members `names` that is text; empty where none is.
pub open spec fn first_text(payload: JsonView, names: Seq<Seq<char>>) -> Seq<char>
    decreases names.len(),
{
    if names.len() == 0 {
        Seq::empty()
    } else {
        match payload.text_at(names[0]) {
            Some(found) => found,
            None => first_text(payload, names.drop_first()),
        }
    }
}

/// The members that may hold the text of a message, the first choice first.
pub open spec fn text_members() -> Seq<Seq<char>> {
    seq!["text"@, "content"@, "message"@, "status"@, "statusText"@, "title"@]
}

/// The text of a payload.
pub open spec fn text_in(payload: JsonView) -> Seq<char> {
    first_text(payload, text_members())
}

/// The status that a payload sets.
pub open spec fn status_text_in(payload: JsonView) -> Seq<char> {
    match payload.text_at("statusText"@) {
        Some(found) => found,
        None => text_in(payload),
    }
}

/// The items that are text, in order.
pub open spec fn texts_among(items: Seq<JsonView>) -> Seq<Seq<char>>
    decreases items.len(),
{
    if items.len() == 0 {
        Seq::empty()
    } else {
        match items.last().as_text() {
            Some(found) => texts_among(items.drop_last()).push(found),
            None => texts_among(items.drop_last()),
        }
    }
}

/// The items of a list; none where the value is missing or no list.
pub open spec fn items_of(value: Option<JsonView>) -> Seq<JsonView> {
    match value {
        Some(JsonView::List(items)) => items,
        _ => Seq::empty(),
    }
}

/// The lines of the widget that a payload sets.
pub open spec fn widget_lines_in(payload: JsonView) -> Seq<Seq<char>> {
    texts_among(items_of(payload.get("widgetLines"@)))
}

/// The name of a command: its own text, or the text of its member `name`.
pub open spec fn command_name(command: JsonView) -> Option<Seq<char>> {
    match command.as_text() {
        Some(name) => Some(name),
        None => command.text_at("name"@),
    }
}

/// The name of a command with a slash in front.
pub open spec fn with_slash(name: Seq<char>) -> Seq<char> {
    if name.len() > 0 && name[0] == '/' {
        name
    } else {
        "/"@ + name
    }
}

/// The slash commands among `items`, in order.
pub open spec fn commands_among(items: Seq<JsonView>) -> Seq<Seq<char>>
    decreases items.len(),
{
    if items.len() == 0 {
        Seq::empty()
    } else {
        match command_name(items.last()) {
            Some(name) => commands_among(items.drop_last()).push(with_slash(name)),
            None => commands_among(items.drop_last()),
        }
    }
}

/// Where a payload lists its commands: in the member `commands` of the member `data`, and without
/// one there in its own member `commands`.
pub open spec fn command_list(payload: JsonView) -> Option<JsonView> {
    match payload.get("data"@) {
        Some(data) if data.get("commands"@) is Some => data.get("commands"@),
        _ => payload.get("commands"@),
    }
}

/// The slash commands that a payload lists, in order.
pub open spec fn commands_in(payload: JsonView) -> Seq<Seq<char>> {
    commands_among(items_of(command_list(payload)))
}

/// The texts of the `parts` of a message, one after the other.
pub open spec fn parts_text(parts: Seq<JsonView>) -> Seq<char>
    decreases parts.len(),
{
    if parts.len() == 0 {
        Seq::empty()
    } else {
        match parts.last().text_at("text"@) {
            Some(found) => parts_text(parts.drop_last()) + found,
            None => parts_text(parts.drop_last()),
        }
    }
}

/// The text of a message.
pub open spec fn message_text(message: JsonView) -> Seq<char> {
    parts_text(items_of(message.get("content"@)))
}

/// The first of the members `text`, `content`, `message`, `status`, `statusText` and `title` that is
/// text; empty where none is.
pub fn extract_text(payload: &Json) -> (found: String)
    ensures
        found@ == text_in(payload.model()),
{
    let names: [&str; 6] = ["text", "content", "message", "status", "statusText", "title"];
    let ghost all = text_members();
    let mut i: usize = 0;
    assert(all.skip(0) =~= all);
    while i < 6
        invariant
            i <= 6,
            all == text_members(),
            names@.len() == 6,
            forall|k: int| 0 <= k < 6 ==> (#[trigger] names@[k])@ == all[k],
            text_in(payload.model()) == first_text(payload.model(), all.skip(i as int)),
        decreases 6 - i,
    {
        assert(all.skip(i as int).drop_first() =~= all.skip(i + 1));
        if let Some(found) = payload.text_at(names[i]) {
            return found.clone();
        }
        i += 1;
    }
    String::new()
}

/// The member `statusText` where it is text, and else the text of the payload.
pub fn extract_status_text(payload: &Json) -> (found: String)
    ensures
        found@ == status_text_in(payload.model()),
{
    match payload.text_at("statusText") {
        Some(found) => found.clone(),
        None => extract_text(payload),
    }
}

/// The items of the member `widgetLines` that are text, in order.
pub fn extract_widget_lines(payload: &Json) -> (lines: Vec<String>)
    ensures
        text::texts(lines@) == widget_lines_in(payload.model()),
{
    let mut lines: Vec<String> = Vec::new();
    assert(text::texts(lines@) =~= Seq::<Seq<char>>::empty());
    if let Some(value) = payload.get("widgetLines") {
        if let Some(items) = value.as_list() {
            let n: usize = items.len();
            let mut i: usize = 0;
            let ghost all = json::models(items@);
            assert(all.take(0) =~= Seq::<JsonView>::empty());
            while i < n
                invariant
                    i <= n == items@.len(),
                    all == json::models(items@),
                    text::texts(lines@) == texts_among(all.take(i as int)),
                decreases n - i,
            {
                let ghost before = lines@;
                assert(all.take(i + 1).drop_last() =~= all.take(i as int));
                if let Some(found) = items[i].as_text() {
                    lines.push(found.clone());
                    assert(text::texts(lines@) =~= text::texts(before).push(found@));
                }
                i += 1;
            }
            assert(all.take(n as int) =~= all);
        }
    }
    lines
}

/// The name of a command, with a slash in front.
fn slash_command(command: &Json) -> (found: Option<String>)
    ensures
        match found {
            Some(slashed) => command_name(command.model()) is Some && slashed@ == with_slash(
                command_name(command.model())->0,
            ),
            None => command_name(command.model()) is None,
        },
{
    let name: Option<&String> = match command.as_text() {
        Some(name) => Some(name),
        None => command.text_at("name"),
    };
    match name {
        Some(name) => {
            if begins_with(name.as_str(), '/') {
                Some(name.clone())
            } else {
                Some(joined("/", name.as_str()))
            }
        },
        None => None,
    }
}

/// The slash commands of a list, in order.
fn slash_commands_among(items: &Vec<Json>) -> (commands: Vec<String>)
    ensures
        text::texts(commands@) == commands_among(json::models(items@)),
{
    let mut commands: Vec<String> = Vec::new();
    let n: usize = items.len();
    let mut i: usize = 0;
    let ghost all = json::models(items@);
    assert(text::texts(commands@) =~= commands_among(all.take(0)));
    while i < n
        invariant
            i <= n == items@.len(),
            all == json::models(items@),
            text::texts(commands@) == commands_among(all.take(i as int)),
        decreases n - i,
    {
        let ghost before = commands@;
        assert(all.take(i + 1).drop_last() =~= all.take(i as int));
        if let Some(slashed) = slash_command(&items[i]) {
            commands.push(slashed);
            assert(text::texts(commands@) =~= text::texts(before).push(slashed@));
        }
        i += 1;
    }
    assert(all.take(n as int) =~= all);
    commands
}

/// The slash commands that a payload lists, in order.
pub fn extract_commands(payload: &Json) -> (commands: Vec<String>)
    ensures
        text::texts(commands@) == commands_in(payload.model()),
{
    let nested: Option<&Json> = match payload.get("data") {
        Some(data) => data.get("commands"),
        None => None,
    };
    let listed: Option<&Json> = match nested {
        Some(list) => Some(list),
        None => payload.get("commands"),
    };
    if let Some(value) = listed {
        if let Some(items) = value.as_list() {
            return slash_commands_among(items);
        }
    }
    let commands: Vec<String> = Vec::new();
    assert(text::texts(commands@) =~= Seq::<Seq<char>>::empty());
    commands
}

/// The texts of the parts of a message, one after the other.
pub fn extract_message_text(message: &Json) -> (said: String)
    ensures
        said@ == message_text(message.model()),
{
    let mut said: String = String::new();
    if let Some(content) = message.get("content") {
        if let Some(parts) = content.as_list() {
            let n: usize = parts.len();
            let mut i: usize = 0;
            let ghost all = json::models(parts@);
            assert(all.take(0) =~= Seq::<JsonView>::empty());
            while i < n
                invariant
                    i <= n == parts@.len(),
                    all == json::models(parts@),
                    said@ == parts_text(all.take(i as int)),
                decreases n - i,
            {
                assert(all.take(i + 1).drop_last() =~= all.take(i as int));
                if let Some(found) = parts[i].text_at("text") {
                    said.append(found.as_str());
                }
                i += 1;
            }
            assert(all.take(n as int) =~= all);
        }
    }
    said
}

/// Adds to the assistant's text: the last row goes on where it is the assistant's, and else a new
/// one begins.
pub fn append_assistant_delta(rows: &mut Vec<DisplayRow>, delta: String)
    ensures
        row_views(final(rows)@) == rows_with_delta(row_views(old(rows)@), delta@),
{
    let ghost before = row_views(rows@);
    match rows.pop() {
        Some(DisplayRow::Assistant(previous)) => {
            let mut said: String = previous;
            said.append(delta.as_str());
            rows.push(DisplayRow::Assistant(said));
        },
        Some(last) => {
            rows.push(last);
            rows.push(DisplayRow::Assistant(delta));
        },
        None => {
            rows.push(DisplayRow::Assistant(delta));
        },
    }
    assert(row_views(rows@) =~= rows_with_delta(before, delta@));
}

impl Default for ZepiPanelState {
    /// A state with nothing in it, not even a status.
    fn default() -> (state: Self)
        ensures
            state@ == (StateView {
                status: Seq::empty(),
                rows: Seq::empty(),
                slash_commands: Seq::empty(),
                pending: Seq::empty(),
            }),
    {
        ZepiPanelState {
            status: String::new(),
            rows: Vec::new(),
            slash_commands: Vec::new(),
            pending_extension_ui_responses: Vec::new(),
        }
    }
}

/// The state of a panel that has not been connected.
pub open spec fn unconnected() -> StateView {
    StateView {
        status: "Not connected"@,
        rows: Seq::empty(),
        slash_commands: Seq::empty(),
        pending: Seq::empty(),
    }
}

impl ZepiPanelState {
    /// The state of a panel that has not been connected.
    pub fn new() -> (state: Self)
        ensures
            state@ == unconnected(),
    {
        ZepiPanelState {
            status: "Not connected".to_owned(),
            rows: Vec::new(),
            slash_commands: Vec::new(),
            pending_extension_ui_responses: Vec::new(),
        }
    }

    /// The status.
    pub fn status(&self) -> (status: &str)
        ensures
            status@ == self@.status,
    {
        self.status.as_str()
    }

    /// The rows, the oldest first.
    pub fn rows(&self) -> (rows: &[DisplayRow])
        ensures
            row_views(rows@) == self@.rows,
    {
        self.rows.as_slice()
    }

    /// Sets the status.
    pub fn set_status(&mut self, status: String)
        ensures
            final(self)@ == old(self)@.with_status(status@),
    {
        self.status = status;
    }

    /// Adds a row that tells of an error.
    pub fn push_error(&mut self, error: String)
        ensures
            final(self)@ == old(self)@.with_row(RowView::Error(error@)),
    {
        self.push_row(DisplayRow::Error(error));
    }

    /// Adds a row with what the user has said.
    pub fn push_user(&mut self, message: String)
        ensures
            final(self)@ == old(self)@.with_row(RowView::User(message@)),
    {
        self.push_row(DisplayRow::User(message));
    }

    /// The slash commands that Zepi has listed last, in its order.
    pub fn slash_commands(&self) -> (commands: &[String])
        ensures
            text::texts(commands@) == self@.slash_commands,
    {
        self.slash_commands.as_slice()
    }

    /// The answers that are owed to extensions; from here on they are owed no more.
    pub fn take_pending_extension_ui_responses(&mut self) -> (responses: Vec<ExtensionUiResponse>)
        ensures
            response_views(responses@) == old(self)@.pending,
            final(self)@ == old(self)@.drained(),
    {
        let mut responses: Vec<ExtensionUiResponse> = Vec::new();
        std::mem::swap(&mut responses, &mut self.pending_extension_ui_responses);
        responses
    }

    /// Applies a line of the RPC stream. A line that is no message is refused and changes nothing.
    pub fn apply_json_line(&mut self, line: &str) -> (res: Result<(), LineError>)
        ensures
            final(self)@ == old(self)@.after_line(line@),
            match res {
                Ok(_) => envelope::envelope_of_line(line@) is Ok,
                Err(error) => envelope::envelope_of_line(line@) == Err::<
                    EnvelopeView,
                    LineError,
                >(error),
            },
    {
        match RpcEnvelope::from_line(line) {
            Ok(message) => {
                self.apply_message(message);
                Ok(())
            },
            Err(error) => Err(error),
        }
    }

    /// Applies a message of the RPC stream.
    pub fn apply_message(&mut self, message: RpcEnvelope)
        ensures
            final(self)@ == old(self)@.after_message(message@),
    {
        if same_text(message.message_type.as_str(), "response") {
            self.apply_response(message);
        } else if same_text(message.message_type.as_str(), "extension_ui_request") {
            self.apply_extension_ui_request(message);
        } else {
            self.apply_event(message);
        }
    }

    /// Adds a row.
    fn push_row(&mut self, row: DisplayRow)
        ensures
            final(self)@ == old(self)@.with_row(row@),
    {
        self.rows.push(row);
        assert(row_views(self.rows@) =~= row_views(old(self).rows@).push(row@));
    }

    /// Applies a response: to the request for commands the list, and else its error.
    fn apply_response(&mut self, message: RpcEnvelope)
        ensures
            final(self)@ == old(self)@.after_response(message@),
    {
        let lists_commands: bool = match &message.command {
            Some(command) => same_text(command.as_str(), "get_commands"),
            None => false,
        };
        if lists_commands {
            self.slash_commands = extract_commands(&message.payload);
            self.status = decimal_text(self.slash_commands.len()).concat(" commands available");
            return;
        }
        if let Some(error) = message.error {
            self.push_row(DisplayRow::Error(error));
        }
    }

    /// Applies an event of the agent.
    fn apply_event(&mut self, message: RpcEnvelope)
        ensures
            final(self)@ == old(self)@.after_event(message@),
    {
        let kind: &str = message.message_type.as_str();
        if same_text(kind, "agent_start") {
            self.status = "Running".to_owned();
        } else if same_text(kind, "agent_end") {
            self.status = "Idle".to_owned();
        } else if same_text(kind, "message_update") {
            if let Some(event) = message.payload.get("assistantMessageEvent") {
                if let Some(delta) = event.text_at("delta") {
                    if !delta.as_str().is_empty() {
                        append_assistant_delta(&mut self.rows, delta.clone());
                    }
                }
            }
        } else if same_text(kind, "message_start") {
            if let Some(started) = message.payload.get("message") {
                if let Some(role) = started.text_at("role") {
                    if same_text(role.as_str(), "user") {
                        let said: String = extract_message_text(started);
                        if !said.as_str().is_empty() {
                            self.push_row(DisplayRow::User(said));
                        }
                    }
                }
            }
        } else if same_text(kind, "tool_execution_start") {
            let tool: &str = match message.payload.text_at("toolName") {
                Some(name) => name.as_str(),
                None => "tool",
            };
            self.push_row(DisplayRow::Status(joined("Running tool: ", tool)));
        } else if same_text(kind, "extension_error") {
            self.push_row(DisplayRow::Error(extract_text(&message.payload)));
        } else {
            self.push_row(DisplayRow::Status(joined("Unhandled RPC event: ", kind)));
        }
    }

    /// Applies a request that an extension makes of the user interface.
    fn apply_extension_ui_request(&mut self, message: RpcEnvelope)
        ensures
            final(self)@ == old(self)@.after_ui_request(message@),
    {
        let id: String = match message.id {
            Some(id) => id,
            None => String::new(),
        };
        let method: String = match message.method {
            Some(method) => method,
            None => "unknown".to_owned(),
        };
        if same_text(method.as_str(), "notify") {
            self.push_row(DisplayRow::Notification(extract_text(&message.payload)));
        } else if same_text(method.as_str(), "setStatus") {
            self.status = extract_status_text(&message.payload);
        } else if same_text(method.as_str(), "setTitle") {
            self.push_row(DisplayRow::Status(extract_text(&message.payload)));
        } else if same_text(method.as_str(), "set_editor_text") {
            self.push_row(DisplayRow::Status("Extension updated editor text".to_owned()));
        } else if same_text(method.as_str(), "setWidget") {
            self.push_status_rows(extract_widget_lines(&message.payload));
        } else {
            self.fail_closed(id, method);
        }
    }

    /// Adds a status row for each line.
    fn push_status_rows(&mut self, lines: Vec<String>)
        ensures
            final(self)@ == old(self)@.with_status_rows(text::texts(lines@)),
    {
        let ghost before = self@;
        let ghost all = text::texts(lines@);
        assert(self@ =~= before.with_status_rows(all.take(0)));
        for line in it: lines
            invariant
                it.seq() == lines@,
                all == text::texts(lines@),
                self@ == before.with_status_rows(all.take(it.index())),
        {
            let ghost so_far = self@;
            self.push_row(DisplayRow::Status(line));
            assert(so_far.with_row(RowView::Status(line@)) =~= before.with_status_rows(
                all.take(it.index() + 1),
            ));
        }
        assert(all.take(all.len() as int) =~= all);
    }

    /// Shows a request that the panel does not support as cancelled, and owes it that answer where
    /// it has an id.
    fn fail_closed(&mut self, id: String, method: String)
        ensures
            final(self)@ == old(self)@.failed_closed(id@, method@),
    {
        self.push_row(
            DisplayRow::Error(
                joined("Unsupported extension UI request cancelled: ", method.as_str()),
            ),
        );
        if !id.as_str().is_empty() {
            let ghost before = self.pending_extension_ui_responses@;
            let response = ExtensionUiResponse {
                message_type: "extension_ui_response",
                id,
                cancelled: true,
            };
            self.pending_extension_ui_responses.push(response);
            assert(response_views(self.pending_extension_ui_responses@) =~= response_views(
                before,
            ).push(cancellation(id@)));
        }
    }
}

} // verus!
