//! What holds of the panel's state whatever messages it is given.
use crate::envelope::EnvelopeView;
use crate::json::JsonView;
use crate::state::{DisplayRow, ExtensionUiResponse, ResponseView, RowView, StateView};
use crate::{envelope, json, state, text};
use vstd::prelude::*;

verus! {

/// The words that tell the kinds of messages apart are all different.
proof fn lemma_kinds_differ()
    ensures
        "response"@.len() == 8,
        "agent_end"@.len() == 9,
        "agent_start"@.len() == 11,
        "message_start"@.len() == 13,
        "message_update"@.len() == 14,
        "extension_error"@.len() == 15,
        "extension_ui_request"@.len() == 20,
        "tool_execution_start"@.len() == 20,
        "extension_ui_request"@[0] != "tool_execution_start"@[0],
{
    reveal_strlit("response");
    reveal_strlit("agent_end");
    reveal_strlit("agent_start");
    reveal_strlit("message_start");
    reveal_strlit("message_update");
    reveal_strlit("extension_error");
    reveal_strlit("extension_ui_request");
    reveal_strlit("tool_execution_start");
}

/// The words for the methods that an extension may call are all different.
proof fn lemma_methods_differ()
    ensures
        "notify"@.len() == 6,
        "setTitle"@.len() == 8,
        "setStatus"@.len() == 9,
        "setWidget"@.len() == 9,
        "setStatus"@[3] != "setWidget"@[3],
        "set_editor_text"@.len() == 15,
{
    reveal_strlit("notify");
    reveal_strlit("setTitle");
    reveal_strlit("setStatus");
    reveal_strlit("setWidget");
    reveal_strlit("set_editor_text");
}

/// Whether the message brings `delta` as more of the assistant's text, which may be nothing.
pub open spec fn brings_delta(message: EnvelopeView, delta: Seq<char>) -> bool {
    &&& message.message_type == "message_update"@
    &&& state::text_under(message.payload, "assistantMessageEvent"@, "delta"@) == Some(delta)
}

/// The state after more of the assistant's text, which may be nothing.
spec fn streamed(before: StateView, delta: Seq<char>) -> StateView {
    if delta.len() > 0 {
        before.with_delta(delta)
    } else {
        before
    }
}

proof fn lemma_delta_is_streamed(before: StateView, message: EnvelopeView, delta: Seq<char>)
    requires
        brings_delta(message, delta),
    ensures
        before.after_message(message) == streamed(before, delta),
{
    lemma_kinds_differ();
}

proof fn lemma_streamed_twice(before: StateView, a: Seq<char>, b: Seq<char>)
    ensures
        streamed(streamed(before, a), b) == streamed(before, a + b),
{
    if a.len() == 0 {
        assert(a + b =~= b);
    } else if b.len() == 0 {
        assert(a + b =~= a);
    } else {
        let between = before.with_delta(a);
        if before.rows.len() > 0 && before.rows.last() is Assistant {
            let said = before.rows.last()->Assistant_0;
            assert((said + a) + b =~= said + (a + b));
        }
        assert(between.with_delta(b).rows =~= before.with_delta(a + b).rows);
    }
}

/// Text that the assistant streams piece by piece ends up in one row: two pieces, one after the
/// other, leave the panel as one message with the two together does, whatever they hold.
pub proof fn law_deltas_stream_into_one_row(
    before: StateView,
    first: EnvelopeView,
    second: EnvelopeView,
    whole: EnvelopeView,
    a: Seq<char>,
    b: Seq<char>,
)
    requires
        brings_delta(first, a),
        brings_delta(second, b),
        brings_delta(whole, a + b),
    ensures
        before.after_message(first).after_message(second) == before.after_message(whole),
{
    lemma_delta_is_streamed(before, first, a);
    lemma_delta_is_streamed(before.after_message(first), second, b);
    lemma_delta_is_streamed(before, whole, a + b);
    lemma_streamed_twice(before, a, b);
}

/// The state after one message after the other.
pub open spec fn after_messages(before: StateView, messages: Seq<EnvelopeView>) -> StateView
    decreases messages.len(),
{
    if messages.len() == 0 {
        before
    } else {
        after_messages(before, messages.drop_last()).after_message(messages.last())
    }
}

proof fn lemma_all_is_streamed(
    before: StateView,
    messages: Seq<EnvelopeView>,
    deltas: Seq<Seq<char>>,
)
    requires
        messages.len() == deltas.len(),
        forall|i: int| 0 <= i < messages.len() ==> brings_delta(#[trigger] messages[i], deltas[i]),
    ensures
        after_messages(before, messages) == streamed(
            before,
            text::joined_by(deltas, Seq::empty()),
        ),
    decreases messages.len(),
{
    if messages.len() > 0 {
        let n = messages.len() - 1;
        let earlier = deltas.drop_last();
        lemma_all_is_streamed(before, messages.drop_last(), earlier);
        assert(brings_delta(messages[n], deltas[n]));
        let between = after_messages(before, messages.drop_last());
        lemma_delta_is_streamed(between, messages[n], deltas[n]);
        let said = text::joined_by(earlier, Seq::empty());
        lemma_streamed_twice(before, said, deltas[n]);
        assert(text::joined_by(deltas, Seq::empty()) =~= said + deltas[n]);
    }
}

/// However the assistant's text is cut into messages, the panel ends up as after one message with
/// all of it.
pub proof fn law_text_may_be_cut_anywhere(
    before: StateView,
    messages: Seq<EnvelopeView>,
    deltas: Seq<Seq<char>>,
    whole: EnvelopeView,
)
    requires
        messages.len() == deltas.len(),
        forall|i: int| 0 <= i < messages.len() ==> brings_delta(#[trigger] messages[i], deltas[i]),
        brings_delta(whole, text::joined_by(deltas, Seq::empty())),
    ensures
        after_messages(before, messages) == before.after_message(whole),
{
    lemma_all_is_streamed(before, messages, deltas);
    lemma_delta_is_streamed(before, whole, text::joined_by(deltas, Seq::empty()));
}

/// Whether every slash command begins with a slash.
pub open spec fn all_slashed(commands: Seq<Seq<char>>) -> bool {
    forall|i: int|
        0 <= i < commands.len() ==> (#[trigger] commands[i]).len() > 0 && commands[i][0] == '/'
}

/// Whether every answer cancels a request that has an id.
pub open spec fn all_cancel(answers: Seq<ResponseView>) -> bool {
    forall|i: int|
        0 <= i < answers.len() ==> #[trigger] answers[i] == state::cancellation(answers[i].id)
            && answers[i].id.len() > 0
}

/// What holds of every state that the panel comes to: its slash commands begin with a slash, and
/// the answers that it owes cancel what they answer.
pub open spec fn sound(s: StateView) -> bool {
    all_slashed(s.slash_commands) && all_cancel(s.pending)
}

proof fn lemma_commands_among_slashed(items: Seq<JsonView>)
    ensures
        all_slashed(state::commands_among(items)),
    decreases items.len(),
{
    if items.len() > 0 {
        lemma_commands_among_slashed(items.drop_last());
        reveal_strlit("/");
    }
}

/// The slash commands that a payload lists all begin with a slash, however it spells them.
pub proof fn law_listed_commands_begin_with_slash(payload: JsonView)
    ensures
        all_slashed(state::commands_in(payload)),
{
    lemma_commands_among_slashed(state::items_of(state::command_list(payload)));
}

/// Every message keeps the state sound.
pub proof fn law_messages_keep_the_state_sound(before: StateView, message: EnvelopeView)
    requires
        sound(before),
    ensures
        sound(before.after_message(message)),
{
    law_listed_commands_begin_with_slash(message.payload);
}

/// Every line keeps the state sound, also one that is no message.
pub proof fn law_lines_keep_the_state_sound(before: StateView, line: Seq<char>)
    requires
        sound(before),
    ensures
        sound(before.after_line(line)),
{
    if let Ok(message) = envelope::envelope_of_line(line) {
        law_messages_keep_the_state_sound(before, message);
    }
}

/// The state begins sound, and what the panel does to it of its own accord keeps it so.
pub proof fn law_the_state_begins_and_stays_sound(
    before: StateView,
    row: RowView,
    status: Seq<char>,
)
    ensures
        sound(state::unconnected()),
        sound(before) ==> sound(before.with_row(row)) && sound(before.with_status(status)) && sound(
            before.drained(),
        ),
{
}

/// The methods that an extension may call without waiting for an answer.
pub open spec fn fire_and_forget(method: Seq<char>) -> bool {
    method == "notify"@ || method == "setStatus"@ || method == "setTitle"@ || method
        == "set_editor_text"@ || method == "setWidget"@
}

/// A request that waits for no answer is owed none.
pub proof fn law_fire_and_forget_requests_are_not_answered(
    before: StateView,
    request: EnvelopeView,
)
    requires
        request.message_type == "extension_ui_request"@,
        fire_and_forget(state::requested_method(request)),
    ensures
        before.after_message(request).pending == before.pending,
{
    lemma_kinds_differ();
}

/// Every other request fails closed: it is shown as cancelled, nothing else that is shown changes,
/// and it is owed the answer that cancels it, once, wherever it has an id.
pub proof fn law_unsupported_requests_fail_closed(before: StateView, request: EnvelopeView)
    requires
        request.message_type == "extension_ui_request"@,
        !fire_and_forget(state::requested_method(request)),
    ensures
        ({
            let after = before.after_message(request);
            &&& after.status == before.status
            &&& after.slash_commands == before.slash_commands
            &&& after.rows == before.rows.push(
                RowView::Error(
                    "Unsupported extension UI request cancelled: "@ + state::requested_method(
                        request,
                    ),
                ),
            )
            &&& after.pending == if state::request_id(request).len() > 0 {
                before.pending.push(state::cancellation(state::request_id(request)))
            } else {
                before.pending
            }
        }),
{
    lemma_kinds_differ();
}

/// Only requests of extensions are ever owed an answer.
pub proof fn law_other_messages_are_not_answered(before: StateView, message: EnvelopeView)
    requires
        message.message_type != "extension_ui_request"@,
    ensures
        before.after_message(message).pending == before.pending,
{
}

/// Whether nothing but the last row has changed, and that one has grown, as the assistant's text
/// does.
pub open spec fn last_row_grew(before: Seq<RowView>, after: Seq<RowView>) -> bool {
    &&& before.len() > 0
    &&& after.len() == before.len()
    &&& after.drop_last() == before.drop_last()
    &&& before.last() is Assistant
    &&& after.last() is Assistant
    &&& before.last()->Assistant_0.is_prefix_of(after.last()->Assistant_0)
}

/// Whether `after` has the rows of `before` and any number of new ones behind them, or else as many
/// rows, of which the last has grown.
pub open spec fn rows_kept(before: Seq<RowView>, after: Seq<RowView>) -> bool {
    before.is_prefix_of(after) || last_row_grew(before, after)
}

/// No message takes a row away or rewrites one: it adds rows, or it lets the last one grow, but not
/// both.
pub proof fn law_rows_are_kept(before: StateView, message: EnvelopeView)
    ensures
        rows_kept(before.rows, before.after_message(message).rows),
{
    if before.rows.len() > 0 && before.rows.last() is Assistant {
        if let Some(delta) = state::text_under(
            message.payload,
            "assistantMessageEvent"@,
            "delta"@,
        ) {
            assert(before.with_delta(delta).rows.drop_last() =~= before.rows.drop_last());
        }
    }
}

/// Whether no row is lost between `before` and `after`: each is still there, and at most the one
/// that was the last has grown.
pub open spec fn no_row_lost(before: Seq<RowView>, after: Seq<RowView>) -> bool {
    &&& before.len() <= after.len()
    &&& forall|i: int| 0 <= i < before.len() - 1 ==> #[trigger] after[i] == before[i]
    &&& before.len() > 0 ==> {
        let old_last = before[before.len() - 1];
        let new_last = after[before.len() - 1];
        ||| new_last == old_last
        ||| old_last is Assistant && new_last is Assistant
            && old_last->Assistant_0.is_prefix_of(new_last->Assistant_0)
    }
}

/// Rows that are kept are not lost.
pub proof fn law_kept_rows_are_not_lost(before: Seq<RowView>, after: Seq<RowView>)
    requires
        rows_kept(before, after),
    ensures
        no_row_lost(before, after),
{
    if last_row_grew(before, after) {
        assert forall|i: int| 0 <= i < before.len() - 1 implies #[trigger] after[i] == before[i] by {
            assert(after[i] == after.drop_last()[i]);
            assert(before[i] == before.drop_last()[i]);
        }
    }
}

/// Answers are taken once: after they were taken none is owed, and nothing else has changed.
pub proof fn law_answers_are_taken_once(before: StateView)
    ensures
        before.drained().pending.len() == 0,
        before.drained().drained() == before.drained(),
        before.drained().rows == before.rows,
        before.drained().status == before.status,
        before.drained().slash_commands == before.slash_commands,
{
}

proof fn lemma_member_of_filtered(
    all: Seq<(Seq<char>, JsonView)>,
    name: Seq<char>,
)
    requires
        !envelope::names_field(name),
    ensures
        json::member(envelope::beside_fields(all), name) == json::member(all, name),
    decreases all.len(),
{
    reveal(Seq::filter);
    if all.len() > 0 {
        lemma_member_of_filtered(all.drop_last(), name);
        let rest = envelope::beside_fields(all);
        let shorter = envelope::beside_fields(all.drop_last());
        if !envelope::names_field(all.last().0) {
            assert(rest == shorter.push(all.last()));
            assert(rest.drop_last() =~= shorter);
        } else {
            assert(rest == shorter);
        }
    }
}

proof fn lemma_no_field_in_filtered(all: Seq<(Seq<char>, JsonView)>, name: Seq<char>)
    requires
        envelope::names_field(name),
    ensures
        json::member(envelope::beside_fields(all), name) is None,
    decreases all.len(),
{
    reveal(Seq::filter);
    if all.len() > 0 {
        lemma_no_field_in_filtered(all.drop_last(), name);
        let rest = envelope::beside_fields(all);
        let shorter = envelope::beside_fields(all.drop_last());
        if !envelope::names_field(all.last().0) {
            assert(rest == shorter.push(all.last()));
            assert(rest.drop_last() =~= shorter);
        } else {
            assert(rest == shorter);
        }
    }
}

/// The payload of a message has every member of the object but the fields of the envelope, each with
/// its value, and none of those fields.
pub proof fn law_payload_is_what_the_envelope_leaves(
    value: JsonView,
    names: Seq<Seq<char>>,
    name: Seq<char>,
)
    requires
        envelope::envelope(value, names) is Ok,
    ensures
        envelope::envelope(value, names)->Ok_0.payload.get(name) == if envelope::names_field(name) {
            None
        } else {
            value.get(name)
        },
{
    if envelope::names_field(name) {
        lemma_no_field_in_filtered(value->Object_0, name);
    } else {
        lemma_member_of_filtered(value->Object_0, name);
    }
}

/// More of the assistant's text is added as it is: to the last row where that is the assistant's,
/// and else as a new row. No other row changes.
pub proof fn law_text_is_added_as_it_is(rows: Seq<RowView>, delta: Seq<char>)
    ensures
        rows.len() > 0 && rows.last() is Assistant ==> state::rows_with_delta(rows, delta)
            == rows.drop_last().push(RowView::Assistant(rows.last()->Assistant_0 + delta)),
        rows.len() == 0 || !(rows.last() is Assistant) ==> state::rows_with_delta(rows, delta)
            == rows.push(RowView::Assistant(delta)),
{
}

/// A message that brings some of the assistant's text shows exactly that text: behind what the last
/// row says where that is the assistant's, and else in a new row. Nothing else changes.
pub proof fn law_the_assistants_text_is_shown(
    before: StateView,
    message: EnvelopeView,
    event: JsonView,
    delta: Seq<char>,
)
    requires
        message.message_type == "message_update"@,
        message.payload.get("assistantMessageEvent"@) == Some(event),
        event.get("delta"@) == Some(JsonView::Text(delta)),
        delta.len() > 0,
    ensures
        ({
            let after = before.after_message(message);
            &&& forall|said: Seq<char>|
                before.rows.len() > 0 && before.rows.last() == RowView::Assistant(said)
                    ==> after.rows == before.rows.drop_last().push(
                    RowView::Assistant(#[trigger] (said + delta)),
                )
            &&& before.rows.len() == 0 || !(before.rows.last() is Assistant) ==> after.rows
                == before.rows.push(RowView::Assistant(delta))
            &&& after.status == before.status
            &&& after.slash_commands == before.slash_commands
            &&& after.pending == before.pending
        }),
{
    lemma_kinds_differ();
}

/// An update of a message that brings no text changes nothing.
pub proof fn law_no_text_changes_nothing(before: StateView, message: EnvelopeView)
    requires
        message.message_type == "message_update"@,
        match message.payload.get("assistantMessageEvent"@) {
            Some(event) => match event.get("delta"@) {
                Some(JsonView::Text(delta)) => delta.len() == 0,
                _ => true,
            },
            None => true,
        },
    ensures
        before.after_message(message) == before,
{
    lemma_kinds_differ();
}

/// Whether `at` lists, in order and each once, the places below `n` that are `chosen`.
pub open spec fn lists_the_chosen(at: Seq<int>, n: nat, chosen: spec_fn(int) -> bool) -> bool {
    &&& forall|k: int| 0 <= k < at.len() ==> 0 <= #[trigger] at[k] < n && chosen(at[k])
    &&& forall|k: int, l: int| 0 <= k < l < at.len() ==> #[trigger] at[k] < #[trigger] at[l]
    &&& forall|i: int| 0 <= i < n && #[trigger] chosen(i) ==> at.contains(i)
}

proof fn lemma_one_place_less(at: Seq<int>, n: nat, chosen: spec_fn(int) -> bool)
    requires
        n > 0,
        lists_the_chosen(at, n, chosen),
    ensures
        chosen(n - 1) ==> at.len() > 0 && at.last() == n - 1 && lists_the_chosen(
            at.drop_last(),
            (n - 1) as nat,
            chosen,
        ),
        !chosen(n - 1) ==> lists_the_chosen(at, (n - 1) as nat, chosen),
{
    if chosen(n - 1) {
        assert(at.contains(n - 1));
        let k = choose|k: int| 0 <= k < at.len() && at[k] == n - 1;
        if k < at.len() - 1 {
            assert(at[k] < at[at.len() - 1]);
        }
        let rest = at.drop_last();
        assert forall|j: int| 0 <= j < rest.len() implies 0 <= #[trigger] rest[j] < n - 1 && chosen(
            rest[j],
        ) by {
            assert(at[j] < at[at.len() - 1]);
        }
        assert forall|i: int| 0 <= i < n - 1 && #[trigger] chosen(i) implies rest.contains(i) by {
            assert(at.contains(i));
            let j = choose|j: int| 0 <= j < at.len() && at[j] == i;
            assert(rest[j] == i);
        }
    } else {
        assert forall|k: int| 0 <= k < at.len() implies 0 <= #[trigger] at[k] < n - 1 && chosen(
            at[k],
        ) by {
            assert(chosen(at[k]));
        }
    }
}

/// Whether the item of a list of commands names one: by being a text, or by its member `name`.
pub open spec fn names_command(item: JsonView, name: Seq<char>) -> bool {
    item == JsonView::Text(name) || item.get("name"@) == Some(JsonView::Text(name))
}

/// Whether the item of a list of commands names one.
pub open spec fn is_named(item: JsonView) -> bool {
    exists|name: Seq<char>| names_command(item, name)
}

/// Whether `command` is `name` with one slash put in front just where it does not begin with one.
pub open spec fn is_slashed(command: Seq<char>, name: Seq<char>) -> bool {
    if name.len() > 0 && name[0] == '/' {
        command == name
    } else {
        command == seq!['/'] + name
    }
}

/// Whether the payload lists these commands: in the member `commands` of its member `data`, or where
/// there is none, in its own member `commands`.
pub open spec fn lists_commands(payload: JsonView, items: Seq<JsonView>) -> bool {
    let nested = match payload.get("data"@) {
        Some(data) => data.get("commands"@),
        None => None,
    };
    nested == Some(JsonView::List(items)) || (nested is None && payload.get("commands"@) == Some(
        JsonView::List(items),
    ))
}

proof fn lemma_named_items(items: Seq<JsonView>, at: Seq<int>, names: Seq<Seq<char>>)
    requires
        lists_the_chosen(at, items.len(), |i: int| is_named(items[i])),
        names.len() == at.len(),
        forall|k: int| 0 <= k < at.len() ==> names_command(items[at[k]], #[trigger] names[k]),
    ensures
        state::commands_among(items).len() == at.len(),
        forall|k: int|
            0 <= k < at.len() ==> is_slashed(
                #[trigger] state::commands_among(items)[k],
                names[k],
            ),
    decreases items.len(),
{
    let chosen = |i: int| is_named(items[i]);
    if items.len() == 0 {
        if at.len() > 0 {
            assert(chosen(at[0]));
            assert(at[0] < items.len());
        }
    } else {
        let n = items.len() - 1;
        let rest = items.drop_last();
        let fewer = |i: int| is_named(rest[i]);
        lemma_one_place_less(at, items.len(), chosen);
        let left = if chosen(n) {
            at.drop_last()
        } else {
            at
        };
        let left_names = if chosen(n) {
            names.drop_last()
        } else {
            names
        };
        assert(lists_the_chosen(left, n as nat, chosen));
        assert forall|k: int| 0 <= k < left.len() implies 0 <= #[trigger] left[k] < n && fewer(
            left[k],
        ) by {
            assert(chosen(left[k]));
            assert(rest[left[k]] == items[left[k]]);
        }
        assert forall|i: int| 0 <= i < n && #[trigger] fewer(i) implies left.contains(i) by {
            assert(rest[i] == items[i]);
            assert(chosen(i));
        }
        assert(lists_the_chosen(left, n as nat, fewer));
        assert forall|k: int| 0 <= k < left.len() implies names_command(
            rest[left[k]],
            #[trigger] left_names[k],
        ) by {
            assert(left[k] < n);
            assert(names_command(items[at[k]], names[k]));
        }
        lemma_named_items(rest, left, left_names);
        reveal_strlit("/");
        if chosen(n) {
            let name = choose|name: Seq<char>| names_command(items[n], name);
            let last = at.len() - 1;
            assert(names_command(items[at[last]], names[last]));
            assert(state::command_name(items[n]) == Some(name));
            assert(names[last] == name);
            assert("/"@ =~= seq!['/']);
            assert forall|k: int| 0 <= k < at.len() implies is_slashed(
                #[trigger] state::commands_among(items)[k],
                names[k],
            ) by {
                if k < last {
                    assert(state::commands_among(items)[k] == state::commands_among(rest)[k]);
                    assert(names[k] == left_names[k]);
                }
            }
        } else {
            if let Some(name) = state::command_name(items[n]) {
                assert(names_command(items[n], name));
            }
        }
    }
}

/// The slash commands that a payload lists: one for each item that names one, and no other, in the
/// order of the list.
pub proof fn law_every_named_item_is_a_command(
    payload: JsonView,
    items: Seq<JsonView>,
    at: Seq<int>,
    names: Seq<Seq<char>>,
)
    requires
        lists_commands(payload, items),
        lists_the_chosen(at, items.len(), |i: int| is_named(items[i])),
        names.len() == at.len(),
        forall|k: int| 0 <= k < at.len() ==> names_command(items[at[k]], #[trigger] names[k]),
    ensures
        state::commands_in(payload).len() == at.len(),
        forall|k: int|
            0 <= k < at.len() ==> is_slashed(#[trigger] state::commands_in(payload)[k], names[k]),
{
    lemma_named_items(items, at, names);
}

/// Where every item of the list names a command there are as many commands as items, and each is
/// what its item says, whatever that is.
pub proof fn law_no_named_command_is_left_out(
    payload: JsonView,
    items: Seq<JsonView>,
    names: Seq<Seq<char>>,
)
    requires
        lists_commands(payload, items),
        names.len() == items.len(),
        forall|i: int| 0 <= i < items.len() ==> names_command(items[i], #[trigger] names[i]),
    ensures
        state::commands_in(payload).len() == items.len(),
        forall|i: int|
            0 <= i < items.len() ==> is_slashed(
                #[trigger] state::commands_in(payload)[i],
                names[i],
            ),
{
    let at = Seq::new(items.len(), |i: int| i);
    let chosen = |i: int| is_named(items[i]);
    assert forall|k: int| 0 <= k < at.len() implies 0 <= #[trigger] at[k] < items.len() && chosen(
        at[k],
    ) by {
        assert(names_command(items[k], names[k]));
    }
    assert forall|i: int| 0 <= i < items.len() && #[trigger] chosen(i) implies at.contains(i) by {
        assert(at[i] == i);
    }
    assert forall|k: int| 0 <= k < at.len() implies names_command(
        items[at[k]],
        #[trigger] names[k],
    ) by {}
    law_every_named_item_is_a_command(payload, items, at, names);
}

/// A payload that lists no commands gives none.
pub proof fn law_no_list_gives_no_command(payload: JsonView)
    requires
        forall|items: Seq<JsonView>| !lists_commands(payload, items),
    ensures
        state::commands_in(payload).len() == 0,
{
    if let Some(JsonView::List(items)) = state::command_list(payload) {
        assert(lists_commands(payload, items));
    }
}

/// The answer to the request for commands replaces the slash commands by those that it lists, and
/// shows their number as the status. Nothing else changes.
pub proof fn law_listed_commands_are_recorded(before: StateView, message: EnvelopeView)
    requires
        message.message_type == "response"@,
        message.command == Some("get_commands"@),
    ensures
        ({
            let after = before.after_message(message);
            &&& after.slash_commands == state::commands_in(message.payload)
            &&& after.status == text::decimal(after.slash_commands.len()) + " commands available"@
            &&& after.rows == before.rows
            &&& after.pending == before.pending
        }),
{
}

/// Where every item that the answer lists names a command, each is recorded, in order, with one slash
/// in front, and the status tells how many items there are.
pub proof fn law_every_listed_command_is_recorded(
    before: StateView,
    message: EnvelopeView,
    items: Seq<JsonView>,
    names: Seq<Seq<char>>,
)
    requires
        message.message_type == "response"@,
        message.command == Some("get_commands"@),
        lists_commands(message.payload, items),
        names.len() == items.len(),
        forall|i: int| 0 <= i < items.len() ==> names_command(items[i], #[trigger] names[i]),
    ensures
        ({
            let after = before.after_message(message);
            &&& after.slash_commands.len() == items.len()
            &&& forall|i: int|
                0 <= i < items.len() ==> is_slashed(#[trigger] after.slash_commands[i], names[i])
            &&& after.status == text::decimal(items.len()) + " commands available"@
        }),
{
    law_no_named_command_is_left_out(message.payload, items, names);
}

/// Any other response shows its error, where it has one, and changes nothing else.
pub proof fn law_errors_of_responses_are_shown(before: StateView, message: EnvelopeView)
    requires
        message.message_type == "response"@,
        message.command != Some("get_commands"@),
    ensures
        message.error is None ==> before.after_message(message) == before,
        message.error matches Some(error) ==> before.after_message(message) == (StateView {
            rows: before.rows.push(RowView::Error(error)),
            ..before
        }),
{
}

/// The start and the end of the agent's work are shown as the status, and change nothing else.
pub proof fn law_the_agents_work_is_the_status(before: StateView, message: EnvelopeView)
    ensures
        message.message_type == "agent_start"@ ==> before.after_message(message) == (StateView {
            status: "Running"@,
            ..before
        }),
        message.message_type == "agent_end"@ ==> before.after_message(message) == (StateView {
            status: "Idle"@,
            ..before
        }),
{
    lemma_kinds_differ();
}

proof fn lemma_parts_are_joined(parts: Seq<JsonView>, said: Seq<Seq<char>>)
    requires
        said.len() == parts.len(),
        forall|i: int|
            0 <= i < parts.len() ==> #[trigger] said[i] == match parts[i].get("text"@) {
                Some(JsonView::Text(words)) => words,
                _ => Seq::empty(),
            },
    ensures
        state::parts_text(parts) == text::joined_by(said, Seq::empty()),
    decreases parts.len(),
{
    if parts.len() > 0 {
        let n = parts.len() - 1;
        let rest = parts.drop_last();
        let earlier = said.drop_last();
        assert forall|i: int| 0 <= i < rest.len() implies #[trigger] earlier[i]
            == match rest[i].get("text"@) {
            Some(JsonView::Text(words)) => words,
            _ => Seq::empty(),
        } by {
            assert(earlier[i] == said[i]);
        }
        lemma_parts_are_joined(rest, earlier);
        assert(said[n] == match parts[n].get("text"@) {
            Some(JsonView::Text(words)) => words,
            _ => Seq::empty(),
        });
        assert(state::parts_text(parts) =~= state::parts_text(rest) + said[n]);
        assert(text::joined_by(said, Seq::empty()) =~= text::joined_by(earlier, Seq::empty())
            + said[n]);
    }
}

/// The text of a message is that of its parts, one after the other; a part without text adds
/// nothing, and a message without parts has no text.
pub proof fn law_a_message_says_what_its_parts_say(
    message: JsonView,
    parts: Seq<JsonView>,
    said: Seq<Seq<char>>,
)
    requires
        said.len() == parts.len(),
        forall|i: int|
            0 <= i < parts.len() ==> #[trigger] said[i] == match parts[i].get("text"@) {
                Some(JsonView::Text(words)) => words,
                _ => Seq::empty(),
            },
    ensures
        message.get("content"@) == Some(JsonView::List(parts)) ==> state::message_text(message)
            == text::joined_by(said, Seq::empty()),
        !(message.get("content"@) matches Some(content) && content is List)
            ==> state::message_text(message).len() == 0,
{
    lemma_parts_are_joined(parts, said);
}

/// A message that the user starts is shown as a row with its text, unless it has none; a message of
/// anybody else changes nothing.
pub proof fn law_the_users_messages_are_shown(before: StateView, message: EnvelopeView)
    requires
        message.message_type == "message_start"@,
    ensures
        ({
            let after = before.after_message(message);
            match message.payload.get("message"@) {
                Some(started) if started.get("role"@) == Some(JsonView::Text("user"@)) => {
                    let said = state::message_text(started);
                    &&& said.len() > 0 ==> after == (StateView {
                        rows: before.rows.push(RowView::User(said)),
                        ..before
                    })
                    &&& said.len() == 0 ==> after == before
                },
                _ => after == before,
            }
        }),
{
    lemma_kinds_differ();
    if let Some(started) = message.payload.get("message"@) {
        if started.get("role"@) == Some(JsonView::Text("user"@)) {
            assert(started.text_at("role"@) == Some("user"@));
        } else {
            assert(started.text_at("role"@) != Some("user"@));
        }
    }
}

/// The start of a tool is shown as a row with the tool's name, or the word for any tool where it has
/// none. Nothing else changes.
pub proof fn law_tools_are_shown(before: StateView, message: EnvelopeView)
    requires
        message.message_type == "tool_execution_start"@,
    ensures
        before.after_message(message) == (StateView {
            rows: before.rows.push(
                RowView::Status(
                    match message.payload.get("toolName"@) {
                        Some(JsonView::Text(name)) => "Running tool: "@ + name,
                        _ => "Running tool: tool"@,
                    },
                ),
            ),
            ..before
        }),
{
    lemma_kinds_differ();
    reveal_strlit("Running tool: ");
    reveal_strlit("tool");
    reveal_strlit("Running tool: tool");
    assert("Running tool: "@ + "tool"@ =~= "Running tool: tool"@);
}

/// Whether a payload says `said`: the text of the first of the members `text`, `content`, `message`,
/// `status`, `statusText` and `title` that is text, or nothing where none is.
pub open spec fn says(payload: JsonView, said: Seq<char>) -> bool {
    match payload.get("text"@) {
        Some(JsonView::Text(words)) => said == words,
        _ => match payload.get("content"@) {
            Some(JsonView::Text(words)) => said == words,
            _ => match payload.get("message"@) {
                Some(JsonView::Text(words)) => said == words,
                _ => match payload.get("status"@) {
                    Some(JsonView::Text(words)) => said == words,
                    _ => match payload.get("statusText"@) {
                        Some(JsonView::Text(words)) => said == words,
                        _ => match payload.get("title"@) {
                            Some(JsonView::Text(words)) => said == words,
                            _ => said.len() == 0,
                        },
                    },
                },
            },
        },
    }
}

/// The text of a payload is that of the first member that may hold one and does.
pub proof fn law_payloads_say_their_first_text(payload: JsonView)
    ensures
        says(payload, state::text_in(payload)),
{
    let names = state::text_members();
    reveal_with_fuel(state::first_text, 7);
    assert(names.drop_first() =~= seq![
        "content"@,
        "message"@,
        "status"@,
        "statusText"@,
        "title"@,
    ]);
    assert(names.drop_first().drop_first() =~= seq![
        "message"@,
        "status"@,
        "statusText"@,
        "title"@,
    ]);
    assert(names.drop_first().drop_first().drop_first() =~= seq![
        "status"@,
        "statusText"@,
        "title"@,
    ]);
    assert(names.drop_first().drop_first().drop_first().drop_first() =~= seq![
        "statusText"@,
        "title"@,
    ]);
    assert(names.drop_first().drop_first().drop_first().drop_first().drop_first() =~= seq![
        "title"@,
    ]);
}

/// The status that a payload sets is its status text where it has one, and else what it says.
pub proof fn law_status_texts_come_first(payload: JsonView)
    ensures
        match payload.get("statusText"@) {
            Some(JsonView::Text(words)) => state::status_text_in(payload) == words,
            _ => says(payload, state::status_text_in(payload)),
        },
{
    law_payloads_say_their_first_text(payload);
}

proof fn lemma_texts_among(items: Seq<JsonView>, at: Seq<int>)
    requires
        lists_the_chosen(at, items.len(), |i: int| items[i] is Text),
    ensures
        state::texts_among(items).len() == at.len(),
        forall|k: int|
            0 <= k < at.len() ==> items[at[k]] == JsonView::Text(
                #[trigger] state::texts_among(items)[k],
            ),
    decreases items.len(),
{
    let chosen = |i: int| items[i] is Text;
    if items.len() == 0 {
        if at.len() > 0 {
            assert(chosen(at[0]));
            assert(at[0] < items.len());
        }
    } else {
        let n = items.len() - 1;
        let rest = items.drop_last();
        let fewer = |i: int| rest[i] is Text;
        lemma_one_place_less(at, items.len(), chosen);
        let left = if chosen(n) {
            at.drop_last()
        } else {
            at
        };
        assert(lists_the_chosen(left, n as nat, chosen));
        assert forall|k: int| 0 <= k < left.len() implies 0 <= #[trigger] left[k] < n && fewer(
            left[k],
        ) by {
            assert(chosen(left[k]));
            assert(rest[left[k]] == items[left[k]]);
        }
        assert forall|i: int| 0 <= i < n && #[trigger] fewer(i) implies left.contains(i) by {
            assert(rest[i] == items[i]);
            assert(chosen(i));
        }
        assert(lists_the_chosen(left, n as nat, fewer));
        lemma_texts_among(rest, left);
        assert forall|k: int| 0 <= k < at.len() implies items[at[k]] == JsonView::Text(
            #[trigger] state::texts_among(items)[k],
        ) by {
            if k < left.len() {
                assert(state::texts_among(items)[k] == state::texts_among(rest)[k]);
                assert(left[k] < n);
                assert(rest[left[k]] == JsonView::Text(state::texts_among(rest)[k]));
            }
        }
    }
}

/// The lines of a widget are the items of the member `widgetLines` that are text, in order, and no
/// others; without such a list there are none.
pub proof fn law_widget_lines_are_the_texts_listed(
    payload: JsonView,
    items: Seq<JsonView>,
    at: Seq<int>,
)
    requires
        lists_the_chosen(at, items.len(), |i: int| items[i] is Text),
    ensures
        payload.get("widgetLines"@) == Some(JsonView::List(items)) ==> {
            &&& state::widget_lines_in(payload).len() == at.len()
            &&& forall|k: int|
                0 <= k < at.len() ==> items[at[k]] == JsonView::Text(
                    #[trigger] state::widget_lines_in(payload)[k],
                )
        },
        !(payload.get("widgetLines"@) matches Some(lines) && lines is List)
            ==> state::widget_lines_in(payload).len() == 0,
{
    lemma_texts_among(items, at);
}

/// An error of an extension is shown as a row with what it says. Nothing else changes.
pub proof fn law_errors_of_extensions_are_shown(before: StateView, message: EnvelopeView)
    requires
        message.message_type == "extension_error"@,
    ensures
        exists|said: Seq<char>| #[trigger]
            says(message.payload, said) && before.after_message(message) == (StateView {
                rows: before.rows.push(RowView::Error(said)),
                ..before
            }),
{
    lemma_kinds_differ();
    law_payloads_say_their_first_text(message.payload);
}

/// Every other event is shown as a row with its kind. Nothing else changes.
pub proof fn law_other_events_are_shown(before: StateView, message: EnvelopeView)
    requires
        message.message_type != "response"@,
        message.message_type != "extension_ui_request"@,
        message.message_type != "agent_start"@,
        message.message_type != "agent_end"@,
        message.message_type != "message_update"@,
        message.message_type != "message_start"@,
        message.message_type != "tool_execution_start"@,
        message.message_type != "extension_error"@,
    ensures
        before.after_message(message) == (StateView {
            rows: before.rows.push(
                RowView::Status("Unhandled RPC event: "@ + message.message_type),
            ),
            ..before
        }),
{
}

/// What each request does that waits for no answer: a notification and a title are shown as rows with
/// what they say, a status is set, a change of the editor's text is shown, and a widget is shown line
/// by line. Nothing else changes.
pub proof fn law_what_requests_show(before: StateView, request: EnvelopeView)
    requires
        request.message_type == "extension_ui_request"@,
    ensures
        ({
            let after = before.after_message(request);
            let payload = request.payload;
            &&& request.method == Some("notify"@) ==> exists|said: Seq<char>| #[trigger]
                says(payload, said) && after == (StateView {
                    rows: before.rows.push(RowView::Notification(said)),
                    ..before
                })
            &&& request.method == Some("setTitle"@) ==> exists|said: Seq<char>| #[trigger]
                says(payload, said) && after == (StateView {
                    rows: before.rows.push(RowView::Status(said)),
                    ..before
                })
            &&& request.method == Some("setStatus"@) ==> match payload.get("statusText"@) {
                Some(JsonView::Text(words)) => after == (StateView { status: words, ..before }),
                _ => says(payload, after.status) && after == (StateView {
                    status: after.status,
                    ..before
                }),
            }
            &&& request.method == Some("set_editor_text"@) ==> after == (StateView {
                rows: before.rows.push(RowView::Status("Extension updated editor text"@)),
                ..before
            })
            &&& request.method == Some("setWidget"@) ==> {
                let lines = state::widget_lines_in(payload);
                &&& after == (StateView { rows: after.rows, ..before })
                &&& after.rows.len() == before.rows.len() + lines.len()
                &&& after.rows.take(before.rows.len() as int) == before.rows
                &&& forall|i: int|
                    0 <= i < lines.len() ==> after.rows[before.rows.len() + i] == RowView::Status(
                        #[trigger] lines[i],
                    )
            }
        }),
{
    lemma_kinds_differ();
    lemma_methods_differ();
    law_payloads_say_their_first_text(request.payload);
    law_status_texts_come_first(request.payload);
    let after = before.after_message(request);
    if request.method == Some("setWidget"@) {
        assert(after.rows.take(before.rows.len() as int) =~= before.rows);
    }
}

/// Every other request is shown as cancelled, by its method, or as unknown where it names none; where
/// it has an id that is not empty it is owed one answer, which bears that id and cancels it. Nothing
/// else changes.
pub proof fn law_other_requests_are_cancelled(before: StateView, request: EnvelopeView)
    requires
        request.message_type == "extension_ui_request"@,
        request.method != Some("notify"@),
        request.method != Some("setStatus"@),
        request.method != Some("setTitle"@),
        request.method != Some("set_editor_text"@),
        request.method != Some("setWidget"@),
    ensures
        before.after_message(request) == (StateView {
            rows: before.rows.push(
                RowView::Error(
                    match request.method {
                        Some(method) => "Unsupported extension UI request cancelled: "@ + method,
                        None => "Unsupported extension UI request cancelled: unknown"@,
                    },
                ),
            ),
            pending: match request.id {
                Some(id) if id.len() > 0 => before.pending.push(
                    ResponseView {
                        message_type: "extension_ui_response"@,
                        id,
                        cancelled: true,
                    },
                ),
                _ => before.pending,
            },
            ..before
        }),
{
    lemma_kinds_differ();
    reveal_strlit("Unsupported extension UI request cancelled: ");
    reveal_strlit("unknown");
    reveal_strlit("Unsupported extension UI request cancelled: unknown");
    assert("Unsupported extension UI request cancelled: "@ + "unknown"@
        =~= "Unsupported extension UI request cancelled: unknown"@);
    lemma_methods_differ();
}

/// A line that is a message does what the message does; any other changes nothing.
pub proof fn law_lines_do_what_their_messages_do(before: StateView, line: Seq<char>)
    ensures
        match envelope::envelope_of_line(line) {
            Ok(message) => before.after_line(line) == before.after_message(message),
            Err(_) => before.after_line(line) == before,
        },
{
}

/// A row is added behind the others, a status takes the place of the one before, and nothing else
/// changes; a state that has not been connected shows nothing but that.
pub proof fn law_rows_and_status_are_set(before: StateView, row: RowView, status: Seq<char>)
    ensures
        before.with_row(row) == (StateView { rows: before.rows.push(row), ..before }),
        before.with_status(status) == (StateView { status, ..before }),
        before.drained() == (StateView { pending: Seq::empty(), ..before }),
        state::unconnected() == (StateView {
            status: "Not connected"@,
            rows: Seq::empty(),
            slash_commands: Seq::empty(),
            pending: Seq::empty(),
        }),
{
}

/// Rows and answers are seen as what they hold, in order.
pub proof fn law_rows_and_answers_are_seen_as_they_are(
    rows: Seq<DisplayRow>,
    answers: Seq<ExtensionUiResponse>,
    said: String,
)
    ensures
        DisplayRow::Status(said)@ == RowView::Status(said@),
        DisplayRow::Error(said)@ == RowView::Error(said@),
        DisplayRow::User(said)@ == RowView::User(said@),
        DisplayRow::Assistant(said)@ == RowView::Assistant(said@),
        DisplayRow::Notification(said)@ == RowView::Notification(said@),
        state::row_views(rows).len() == rows.len(),
        forall|i: int| 0 <= i < rows.len() ==> #[trigger] state::row_views(rows)[i] == rows[i]@,
        state::response_views(answers).len() == answers.len(),
        forall|i: int|
            0 <= i < answers.len() ==> #[trigger] state::response_views(answers)[i] == (
            ResponseView {
                message_type: answers[i].message_type@,
                id: answers[i].id@,
                cancelled: answers[i].cancelled,
            }),
{
}

} // verus!
