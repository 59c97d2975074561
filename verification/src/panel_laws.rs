//! What holds of a panel whatever happens to it.
use crate::envelope::{EnvelopeView, LineError};
use crate::panel::{PanelView, ReportStep};
use crate::rpc::{ClientView, CommandView, EventView, RpcClient};
use crate::state::{RowView, StateView};
use crate::{envelope, json, panel, rpc_laws, state, state_laws};
use vstd::prelude::*;

verus! {

/// What can happen to a panel.
pub enum Occasion {
    /// The link is stopped.
    Stop,
    /// A new link is about to be started.
    Start,
    /// The new link is there; whether it has taken the request for commands.
    Connected(ClientView, bool),
    /// The new link could not be had; why.
    NotStarted(Seq<char>),
    /// The process reports something other than a line that is no message; whether each answer that
    /// was due was taken.
    Report(EventView, Seq<bool>),
    /// A line that is no message is shown in these words; whether each answer that was due was taken.
    Refusal(Seq<char>, Seq<bool>),
    /// A command is sent; whether it was taken.
    Command(CommandView, bool),
    /// A prompt is sent; whether it was taken.
    Prompt(Seq<char>, bool),
    /// A prompt that holds nothing is refused.
    EmptyPrompt,
    /// The panel is shown or hidden.
    Active(bool),
}

/// The panel after an occasion.
pub open spec fn after(panel: PanelView, occasion: Occasion) -> PanelView {
    match occasion {
        Occasion::Stop => panel.stopped(),
        Occasion::Start => panel.starting(),
        Occasion::Connected(link, taken) => panel.connected(link, taken),
        Occasion::NotStarted(words) => panel.not_started(words),
        Occasion::Report(event, taken) => if event is StdoutLine {
            panel.told(event).answering(taken)
        } else {
            panel.told(event)
        },
        Occasion::Refusal(words, taken) => panel.told_refusal(words).answering(taken),
        Occasion::Command(command, taken) => panel.after_command(command, taken),
        Occasion::Prompt(message, taken) => panel.after_prompt(message, taken),
        Occasion::EmptyPrompt => panel.after_empty_prompt(),
        Occasion::Active(active) => PanelView { active, ..panel },
    }
}

/// The panel after one occasion after the other.
pub open spec fn after_all(panel: PanelView, occasions: Seq<Occasion>) -> PanelView
    decreases occasions.len(),
{
    if occasions.len() == 0 {
        panel
    } else {
        after(after_all(panel, occasions.drop_last()), occasions.last())
    }
}

/// Whether the numbers of links last for that many occasions.
pub open spec fn numbers_last(panel: PanelView, occasions: Seq<Occasion>) -> bool {
    panel.generation + 2 * occasions.len() <= u64::MAX
}

proof fn lemma_numbers_go_up(panel: PanelView, occasions: Seq<Occasion>)
    requires
        numbers_last(panel, occasions),
    ensures
        panel.generation <= after_all(panel, occasions).generation <= panel.generation + 2
            * occasions.len(),
    decreases occasions.len(),
{
    if occasions.len() > 0 {
        lemma_numbers_go_up(panel, occasions.drop_last());
    }
}

/// Once a link was stopped, its number is never the panel's again, whatever happens: no report of it
/// counts any more.
pub proof fn law_reports_of_a_stopped_link_never_count(
    panel: PanelView,
    occasions: Seq<Occasion>,
)
    requires
        panel.generation < u64::MAX,
        numbers_last(panel.stopped(), occasions),
    ensures
        after_all(panel.stopped(), occasions).generation > panel.generation,
{
    lemma_numbers_go_up(panel.stopped(), occasions);
}

/// Once a new link was begun, the number of the one before is never the panel's again.
pub proof fn law_reports_of_an_earlier_link_never_count(
    panel: PanelView,
    occasions: Seq<Occasion>,
)
    requires
        panel.generation < u64::MAX - 1,
        numbers_last(panel.starting(), occasions),
    ensures
        after_all(panel.starting(), occasions).generation > panel.generation,
{
    lemma_numbers_go_up(panel.starting(), occasions);
}

/// Only stopping and starting change the number of the link.
pub proof fn law_only_stops_and_starts_change_the_number(panel: PanelView, occasion: Occasion)
    requires
        !(occasion is Stop),
        !(occasion is Start),
    ensures
        after(panel, occasion).generation == panel.generation,
{
}

/// Whether a panel may be met between two occasions: its state is sound, and it owes no extension
/// an answer.
pub open spec fn settled(panel: PanelView) -> bool {
    state_laws::sound(panel.state) && panel.state.pending.len() == 0
}

/// Whatever happens to a settled panel, it is settled afterwards: answers never stay behind, and
/// never do anything but cancel.
pub proof fn law_panels_stay_settled(panel: PanelView, occasions: Seq<Occasion>)
    requires
        settled(panel),
    ensures
        settled(after_all(panel, occasions)),
    decreases occasions.len(),
{
    if occasions.len() > 0 {
        law_panels_stay_settled(panel, occasions.drop_last());
        let before = after_all(panel, occasions.drop_last());
        if let Occasion::Report(EventView::StdoutLine(line), _) = occasions.last() {
            if let Ok(message) = envelope::envelope_of_line(line) {
                state_laws::law_messages_keep_the_state_sound(before.state, message);
            }
        }
    }
}

/// A new panel is settled.
pub proof fn law_new_panels_are_settled(panel: PanelView)
    requires
        panel.state == state::unconnected(),
    ensures
        settled(panel),
{
}

/// What a report makes a sound panel hand over cancels the requests that it answers.
pub proof fn law_answers_only_cancel(panel: PanelView, event: EventView)
    requires
        state_laws::sound(panel.state),
    ensures
        state_laws::all_cancel(panel.told(event).state.pending),
{
    if let EventView::StdoutLine(line) = event {
        if let Ok(message) = envelope::envelope_of_line(line) {
            state_laws::law_messages_keep_the_state_sound(panel.state, message);
        }
    }
}

/// A request that the panel does not support is answered over the link at once: the line that
/// cancels it is handed over, once, and nothing else is; without an id there is nothing to hand over.
pub proof fn law_unsupported_requests_are_answered_at_once(
    panel: PanelView,
    line: Seq<char>,
    request: EnvelopeView,
    after: PanelView,
)
    requires
        settled(panel),
        panel.client is Some,
        envelope::envelope_of_line(line) == Ok::<EnvelopeView, LineError>(request),
        request.message_type == "extension_ui_request"@,
        !state_laws::fire_and_forget(state::requested_method(request)),
        panel.told(EventView::StdoutLine(line)).answers(after),
    ensures
        ({
            let id = state::request_id(request);
            if id.len() > 0 {
                exists|taken: bool|
                    after.client == Some(
                        #[trigger] panel.client->0.with_line(
                            state::cancellation(id).line(),
                            taken,
                        ),
                    )
            } else {
                after.client == panel.client
            }
        }),
        after.state.pending.len() == 0,
{
    let told = panel.told(EventView::StdoutLine(line));
    let id = state::request_id(request);
    let link = panel.client->0;
    state_laws::law_unsupported_requests_fail_closed(panel.state, request);
    let taken = choose|taken: Seq<bool>| #[trigger]
        told.fits(told.state.pending, taken) && after == told.answering(taken);
    let lines = panel::handed_lines(told.state.pending, taken);
    if id.len() > 0 {
        assert(link.lines + lines =~= link.lines.push((state::cancellation(id).line(), taken[0])));
        assert(after.client == Some(link.with_line(state::cancellation(id).line(), taken[0])));
    } else {
        assert(link.lines + lines =~= link.lines);
    }
}

/// What an extension asks for without waiting for an answer, and every message that is no request,
/// sends nothing over the link.
pub proof fn law_other_messages_send_nothing(
    panel: PanelView,
    line: Seq<char>,
    message: EnvelopeView,
    after: PanelView,
)
    requires
        settled(panel),
        envelope::envelope_of_line(line) == Ok::<EnvelopeView, LineError>(message),
        message.message_type == "extension_ui_request"@ ==> state_laws::fire_and_forget(
            state::requested_method(message),
        ),
        panel.told(EventView::StdoutLine(line)).answers(after),
    ensures
        after.client == panel.client,
{
    let told = panel.told(EventView::StdoutLine(line));
    if message.message_type == "extension_ui_request"@ {
        state_laws::law_fire_and_forget_requests_are_not_answered(panel.state, message);
    } else {
        state_laws::law_other_messages_are_not_answered(panel.state, message);
    }
    let taken = choose|taken: Seq<bool>| #[trigger]
        told.fits(told.state.pending, taken) && after == told.answering(taken);
    if let Some(link) = panel.client {
        assert(link.lines + panel::handed_lines(told.state.pending, taken) =~= link.lines);
    }
}

/// Whether this can happen to the panel: what the process reports is no line that is refused, and
/// there is one answer of the writer for each response that is handed over.
pub open spec fn possible(panel: PanelView, occasion: Occasion) -> bool {
    match occasion {
        Occasion::Report(event, taken) => {
            &&& !PanelView::is_refused(event)
            &&& event is StdoutLine ==> panel.told(event).fits(
                panel.told(event).state.pending,
                taken,
            )
        },
        Occasion::Refusal(words, taken) => panel.told_refusal(words).fits(
            panel.state.pending,
            taken,
        ),
        _ => true,
    }
}

/// Nothing that happens to a panel takes a row away or rewrites one: it adds rows, or it lets the
/// last one grow, but not both.
pub proof fn law_panels_keep_their_rows(panel: PanelView, occasion: Occasion)
    requires
        settled(panel),
        possible(panel, occasion),
    ensures
        state_laws::rows_kept(panel.state.rows, after(panel, occasion).state.rows),
{
    if let Occasion::Report(EventView::StdoutLine(line), taken) = occasion {
        let message = envelope::envelope_of_line(line)->Ok_0;
        let told = panel.state.after_message(message);
        state_laws::law_rows_are_kept(panel.state, message);
        if !panel.state.rows.is_prefix_of(told.rows) {
            if message.message_type == "extension_ui_request"@ {
                assert(panel.state.rows.is_prefix_of(told.rows));
            }
            assert(told.pending.len() == 0);
            assert(told.rows + panel::refusal_rows(taken) =~= told.rows);
        }
    }
}

/// Whatever happens to a settled panel, none of its rows is ever lost.
pub proof fn law_panels_never_lose_a_row(panel: PanelView, occasions: Seq<Occasion>)
    requires
        settled(panel),
        forall|i: int|
            0 <= i < occasions.len() ==> possible(
                after_all(panel, occasions.take(i)),
                #[trigger] occasions[i],
            ),
    ensures
        state_laws::no_row_lost(panel.state.rows, after_all(panel, occasions).state.rows),
    decreases occasions.len(),
{
    if occasions.len() > 0 {
        let n = occasions.len() - 1;
        let earlier = occasions.drop_last();
        assert(occasions.take(n) =~= earlier);
        assert forall|i: int| 0 <= i < n implies possible(
            after_all(panel, earlier.take(i)),
            #[trigger] earlier[i],
        ) by {
            assert(earlier.take(i) =~= occasions.take(i));
            assert(earlier[i] == occasions[i]);
        }
        law_panels_never_lose_a_row(panel, earlier);
        law_panels_stay_settled(panel, earlier);
        let between = after_all(panel, earlier);
        assert(possible(between, occasions[n]));
        law_panels_keep_their_rows(between, occasions[n]);
        state_laws::law_kept_rows_are_not_lost(
            between.state.rows,
            after(between, occasions[n]).state.rows,
        );
    }
}

/// Stopping gives up the link and counts one further; starting gives up the link and counts two
/// further. Nothing else changes.
pub proof fn law_stopping_and_starting(panel: PanelView)
    ensures
        panel.generation < u64::MAX ==> panel.stopped() == (PanelView {
            client: None,
            generation: (panel.generation + 1) as u64,
            ..panel
        }),
        panel.generation < u64::MAX - 1 ==> panel.starting() == (PanelView {
            client: None,
            generation: (panel.generation + 2) as u64,
            ..panel
        }),
{
}

/// The link that a stop or a start gives back is the panel's own, after one wish to kill its process
/// and nothing else.
pub proof fn law_what_a_stop_gives_back(panel: PanelView, ended: Option<RpcClient>)
    ensures
        panel.ends_as(ended) <==> match panel.client {
            Some(link) => {
                &&& ended is Some
                &&& ended->0@.lines == link.lines
                &&& ended->0@.kills.len() == link.kills.len() + 1
                &&& ended->0@.kills.drop_last() == link.kills
            },
            None => ended is None,
        },
        panel::client_view(ended) == match ended {
            Some(link) => Some(link@),
            None => None,
        },
{
    if let Some(link) = panel.client {
        if let Some(client) = ended {
            rpc_laws::law_clients_keep_a_record(link, Seq::empty(), false, client);
        }
    }
}

/// A new link is asked for its commands, by one line and no other, and the panel is connected; where
/// the line was not taken that is shown. Nothing else changes.
pub proof fn law_a_new_link_is_asked_for_its_commands(
    panel: PanelView,
    link: ClientView,
    taken: bool,
)
    ensures
        panel.connected(link, taken) == (PanelView {
            state: StateView {
                status: "Connected"@,
                rows: if taken {
                    panel.state.rows
                } else {
                    panel.state.rows.push(
                        RowView::Error(
                            "Failed to request Zepi commands: "@
                                + "Zepi RPC stdin writer is closed"@,
                        ),
                    )
                },
                ..panel.state
            },
            client: Some(
                ClientView {
                    lines: link.lines.push(("{\"type\":\"get_commands\"}\n"@, taken)),
                    ..link
                },
            ),
            ..panel
        }),
{
    rpc_laws::law_each_command_has_its_line(CommandView::GetCommands);
}

/// A link that could not be had is shown as the status and as a row with the reason. Nothing else
/// changes.
pub proof fn law_a_link_that_is_not_had_is_shown(panel: PanelView, words: Seq<char>)
    ensures
        panel.not_started(words) == (PanelView {
            state: StateView {
                status: "Failed to start"@,
                rows: panel.state.rows.push(RowView::Error(words)),
                ..panel.state
            },
            ..panel
        }),
{
}

/// What each report does, apart from answers that it makes due: a message is applied, a line that is
/// none changes nothing, diagnostics and failures are shown as they are, and the end of the process
/// gives up the link and is the status. Nothing else changes.
pub proof fn law_what_reports_do(panel: PanelView, line: Seq<char>, code: Option<i32>)
    ensures
        envelope::envelope_of_line(line) matches Ok(message) ==> panel.told(
            EventView::StdoutLine(line),
        ) == (PanelView { state: panel.state.after_message(message), ..panel }),
        envelope::envelope_of_line(line) is Err ==> panel.told(EventView::StdoutLine(line))
            == panel,
        PanelView::is_refused(EventView::StdoutLine(line)) <==> envelope::envelope_of_line(
            line,
        ) is Err,
        !PanelView::is_refused(EventView::StderrLine(line)),
        !PanelView::is_refused(EventView::Failed(line)),
        !PanelView::is_refused(EventView::Exited(code)),
        panel.told(EventView::StderrLine(line)) == (PanelView {
            state: StateView {
                rows: panel.state.rows.push(RowView::Error(line)),
                ..panel.state
            },
            ..panel
        }),
        panel.told(EventView::Failed(line)) == (PanelView {
            state: StateView {
                rows: panel.state.rows.push(RowView::Error(line)),
                ..panel.state
            },
            ..panel
        }),
        panel.told(EventView::Exited(code)) == (PanelView {
            state: StateView {
                status: if code is None {
                    "Terminated"@
                } else if code->0 == 0 {
                    "Exited"@
                } else {
                    "Exited with error"@
                },
                ..panel.state
            },
            client: None,
            ..panel
        }),
{
    assert(panel.with_state(panel.state) =~= panel);
}

/// How far each report comes: diagnostics and failures are settled at once, a message once the
/// answers due were handed over, the end of the process with the link given back as it was, and a
/// line that is no message waits for words, with the panel as it was.
pub proof fn law_how_far_reports_come(
    panel: PanelView,
    event: EventView,
    step: ReportStep,
    after: PanelView,
)
    requires
        panel.reported(event, step, after),
    ensures
        match event {
            EventView::StdoutLine(line) => match envelope::envelope_of_line(line) {
                Ok(message) => step is Settled && (PanelView {
                    state: panel.state.after_message(message),
                    ..panel
                }).answers(after),
                Err(_) => {
                    &&& step is Refused
                    &&& step->Refused_0@ == line
                    &&& after == panel
                },
            },
            EventView::Exited(_) => {
                &&& step is Exited
                &&& match step->Exited_0 {
                    Some(given_up) => panel.client == Some(given_up@),
                    None => panel.client is None,
                }
                &&& after == panel.told(event)
            },
            _ => step is Settled && after == panel.told(event),
        },
{
}

/// A line that is no message is shown in the words of its reader, before any answer is handed over.
/// Nothing else changes.
pub proof fn law_refused_lines_are_shown(panel: PanelView, words: Seq<char>)
    ensures
        panel.told_refusal(words) == (PanelView {
            state: StateView {
                rows: panel.state.rows.push(RowView::Error("Invalid Zepi RPC JSON: "@ + words)),
                ..panel.state
            },
            ..panel
        }),
{
}

/// How many lines were not taken.
pub open spec fn how_many_refused(taken: Seq<bool>) -> nat {
    taken.filter(|t: bool| !t).len()
}

proof fn lemma_refusal_rows(taken: Seq<bool>)
    ensures
        panel::refusal_rows(taken).len() == how_many_refused(taken),
        forall|i: int|
            0 <= i < panel::refusal_rows(taken).len() ==> #[trigger] panel::refusal_rows(taken)[i]
                == RowView::Error(
                "Failed to respond to extension UI: "@ + "Zepi RPC stdin writer is closed"@,
            ),
    decreases taken.len(),
{
    reveal(Seq::filter);
    if taken.len() > 0 {
        lemma_refusal_rows(taken.drop_last());
    }
}

/// Every answer that is due is handed to the link, in order, each once and as it is spelled, and
/// nothing else is; without a link nothing is. For each that was not taken there is one row that
/// tells of it, and no other row; no answer stays due. Nothing else changes.
pub proof fn law_every_answer_due_is_handed_over(panel: PanelView, after: PanelView)
    requires
        panel.answers(after),
    ensures
        exists|taken: Seq<bool>|
            {
                let due = panel.state.pending;
                let refused = #[trigger] how_many_refused(taken);
                &&& match panel.client {
                    Some(link) => {
                        &&& taken.len() == due.len()
                        &&& after.client is Some
                        &&& after.client->0.kills == link.kills
                        &&& after.client->0.lines.len() == link.lines.len() + due.len()
                        &&& after.client->0.lines.take(link.lines.len() as int) == link.lines
                        &&& forall|i: int|
                            0 <= i < due.len() ==> after.client->0.lines[link.lines.len() + i] == (
                                (#[trigger] due[i]).json() + "\n"@,
                                taken[i],
                            )
                    },
                    None => taken.len() == 0 && after.client is None,
                }
                &&& after.state.rows.len() == panel.state.rows.len() + refused
                &&& after.state.rows.take(panel.state.rows.len() as int) == panel.state.rows
                &&& forall|i: int|
                    panel.state.rows.len() <= i < after.state.rows.len()
                        ==> #[trigger] after.state.rows[i] == RowView::Error(
                        "Failed to respond to extension UI: "@
                            + "Zepi RPC stdin writer is closed"@,
                    )
            },
        after.state.pending.len() == 0,
        after.state.status == panel.state.status,
        after.state.slash_commands == panel.state.slash_commands,
        after.generation == panel.generation,
        after.active == panel.active,
{
    let taken = choose|taken: Seq<bool>| #[trigger]
        panel.fits(panel.state.pending, taken) && after == panel.answering(taken);
    lemma_refusal_rows(taken);
    assert(how_many_refused(taken) == panel::refusal_rows(taken).len());
    assert(after.state.rows.take(panel.state.rows.len() as int) =~= panel.state.rows);
    if let Some(link) = panel.client {
        assert(after.client->0.lines.take(link.lines.len() as int) =~= link.lines);
    }
}

/// Every command, whatever the panel shows, puts one line on the link: the one that spells it. What
/// the panel shows changes only where the line was not taken, by one row that tells so. Nothing else
/// changes.
pub proof fn law_each_command_puts_its_line_on_the_link(
    panel: PanelView,
    command: CommandView,
    taken: bool,
)
    ensures
        panel.after_command(command, taken) == (PanelView {
            state: StateView {
                rows: if taken {
                    panel.state.rows
                } else {
                    panel.state.rows.push(RowView::Error("Zepi RPC stdin writer is closed"@))
                },
                ..panel.state
            },
            client: match panel.client {
                Some(link) => Some(
                    ClientView {
                        lines: link.lines.push((rpc_laws::spelling(command), taken)),
                        kills: link.kills,
                    },
                ),
                None => None,
            },
            ..panel
        }),
{
    rpc_laws::law_each_command_has_its_line(command);
}

/// Every prompt puts one line on the link, which holds the message as it is, and the same message is
/// shown as the user's row where the line was taken; where it was not, that is shown in its place.
/// Nothing else changes.
pub proof fn law_each_prompt_is_sent_and_shown_as_it_is(
    panel: PanelView,
    message: Seq<char>,
    taken: bool,
)
    ensures
        panel.after_prompt(message, taken) == (PanelView {
            state: StateView {
                rows: panel.state.rows.push(
                    if taken {
                        RowView::User(message)
                    } else {
                        RowView::Error("Zepi RPC stdin writer is closed"@)
                    },
                ),
                ..panel.state
            },
            client: match panel.client {
                Some(link) => Some(
                    ClientView {
                        lines: link.lines.push(
                            (
                                "{\"type\":\"prompt\",\"message\":"@ + json::quoted(message)
                                    + "}\n"@,
                                taken,
                            ),
                        ),
                        kills: link.kills,
                    },
                ),
                None => None,
            },
            ..panel
        }),
{
    rpc_laws::law_each_command_has_its_line(CommandView::Prompt { message });
}

/// Two prompts that put the same line on a link are the same prompt.
pub proof fn law_prompts_on_the_link_are_told_apart(
    panel: PanelView,
    a: Seq<char>,
    b: Seq<char>,
    taken: bool,
)
    requires
        panel.client is Some,
        panel.after_prompt(a, taken).client->0.lines.last() == panel.after_prompt(
            b,
            taken,
        ).client->0.lines.last(),
    ensures
        a == b,
{
    rpc_laws::law_commands_are_told_apart(
        CommandView::Prompt { message: a },
        CommandView::Prompt { message: b },
    );
}

/// A prompt that holds nothing is refused by a row, and changes nothing else.
pub proof fn law_empty_prompts_are_refused(panel: PanelView)
    ensures
        panel.after_empty_prompt() == (PanelView {
            state: StateView {
                rows: panel.state.rows.push(RowView::Error("Cannot send an empty prompt"@)),
                ..panel.state
            },
            ..panel
        }),
{
}

/// Each row is shown with the sign of its kind in front and its text as it is.
pub proof fn law_rows_are_shown_with_their_sign(said: Seq<char>)
    ensures
        panel::shown_row(RowView::Status(said)) == "• "@ + said,
        panel::shown_row(RowView::Error(said)) == "! "@ + said,
        panel::shown_row(RowView::User(said)) == "You: "@ + said,
        panel::shown_row(RowView::Assistant(said)) == "Zepi: "@ + said,
        panel::shown_row(RowView::Notification(said)) == "Note: "@ + said,
{
}

} // verus!
