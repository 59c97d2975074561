//! The panel: its state, its link to the Zepi process, and what it does on each occasion.
use crate::json::JsonView;
use crate::rpc::{
    ClientView, CommandView, EventView, RpcClient, RpcClientEvent, RpcCommand, RpcErrorView,
};
use crate::state::{
    DisplayRow, ExtensionUiResponse, ResponseView, RowView, StateView, ZepiPanelState,
};
use crate::text::{is_blank, join_texts, joined};
use crate::{envelope, json, state, text};
use vstd::prelude::*;

verus! {

/// A panel, apart from its place on the screen.
pub struct ZepiPanel {
    state: ZepiPanelState,
    client: Option<RpcClient>,
    rpc_generation: u64,
    active: bool,
}

/// What a panel holds.
#[verifier::ext_equal]
pub struct PanelView {
    pub state: StateView,
    /// What the link has done.
    pub client: Option<ClientView>,
    /// Goes up whenever the link is stopped or started, so that reports of an earlier link are told
    /// apart.
    pub generation: u64,
    pub active: bool,
}

/// What a client has done, where there is one.
pub open spec fn client_view(client: Option<RpcClient>) -> Option<ClientView> {
    match client {
        Some(link) => Some(link@),
        None => None,
    }
}

impl View for ZepiPanel {
    type V = PanelView;

    closed spec fn view(&self) -> PanelView {
        PanelView {
            state: self.state@,
            client: client_view(self.client),
            generation: self.rpc_generation,
            active: self.active,
        }
    }
}

/// The row that tells of an error.
pub open spec fn error_row(before: Seq<char>, words: Seq<char>) -> RowView {
    RowView::Error(before + words)
}

/// The status after the process has ended.
pub open spec fn exit_status(code: Option<i32>) -> Seq<char> {
    match code {
        Some(0) => "Exited"@,
        Some(_) => "Exited with error"@,
        None => "Terminated"@,
    }
}

/// The rows that tell of the answers that were not taken.
pub open spec fn refusal_rows(taken: Seq<bool>) -> Seq<RowView>
    decreases taken.len(),
{
    if taken.len() == 0 {
        Seq::empty()
    } else if taken.last() {
        refusal_rows(taken.drop_last())
    } else {
        refusal_rows(taken.drop_last()).push(
            error_row(
                "Failed to respond to extension UI: "@,
                RpcErrorView::WriterClosed.words(),
            ),
        )
    }
}

/// The lines that spell these responses, each with the writer's answer.
pub open spec fn handed_lines(responses: Seq<ResponseView>, taken: Seq<bool>) -> Seq<
    (Seq<char>, bool),
> {
    Seq::new(taken.len(), |i: int| (responses[i].line(), taken[i]))
}

impl PanelView {
    /// The panel with another state.
    pub open spec fn with_state(self, state: StateView) -> PanelView {
        PanelView { state, ..self }
    }

    /// The panel with one more row.
    pub open spec fn with_row(self, row: RowView) -> PanelView {
        self.with_state(self.state.with_row(row))
    }

    /// The panel once its link is stopped.
    pub open spec fn stopped(self) -> PanelView {
        PanelView { client: None, generation: (self.generation + 1) as u64, ..self }
    }

    /// Whether `ended` is the link of this panel after it was asked once to end its process, and did
    /// nothing else; none where there is no link.
    pub open spec fn ends_as(self, ended: Option<RpcClient>) -> bool {
        match self.client {
            Some(link) => ended is Some && link.ended_as(ended->0),
            None => ended is None,
        }
    }

    /// The panel before its new link is there.
    pub open spec fn starting(self) -> PanelView {
        PanelView { client: None, generation: (self.generation + 2) as u64, ..self }
    }

    /// The panel after one more line to its link, which the writer has `taken` or not.
    pub open spec fn with_line(self, line: Seq<char>, taken: bool) -> PanelView {
        PanelView {
            client: match self.client {
                Some(link) => Some(link.with_line(line, taken)),
                None => None,
            },
            ..self
        }
    }

    /// The panel once its new link is there, which has `taken` the request for commands or not.
    pub open spec fn connected(self, link: ClientView, taken: bool) -> PanelView {
        let asked = if taken {
            self.state
        } else {
            self.state.with_row(
                error_row(
                    "Failed to request Zepi commands: "@,
                    RpcErrorView::WriterClosed.words(),
                ),
            )
        };
        PanelView {
            state: asked.with_status("Connected"@),
            client: Some(link.with_line(CommandView::GetCommands.line(), taken)),
            ..self
        }
    }

    /// The panel whose new link could not be had.
    pub open spec fn not_started(self, words: Seq<char>) -> PanelView {
        self.with_state(self.state.with_status("Failed to start"@).with_row(RowView::Error(words)))
    }

    /// Whether the report is a line that is no message.
    pub open spec fn is_refused(event: EventView) -> bool {
        event matches EventView::StdoutLine(line) && envelope::envelope_of_line(line) is Err
    }

    /// The panel after a report of the process, before it has answered. A line that is no message
    /// leaves it as it is.
    pub open spec fn told(self, event: EventView) -> PanelView {
        match event {
            EventView::StdoutLine(line) => self.with_state(self.state.after_line(line)),
            EventView::StderrLine(line) => self.with_row(RowView::Error(line)),
            EventView::Exited(code) => PanelView {
                client: None,
                state: self.state.with_status(exit_status(code)),
                ..self
            },
            EventView::Failed(error) => self.with_row(RowView::Error(error)),
        }
    }

    /// The panel after a line that is no message is shown, with the `words` of its reader, before it
    /// has answered.
    pub open spec fn told_refusal(self, words: Seq<char>) -> PanelView {
        self.with_row(error_row("Invalid Zepi RPC JSON: "@, words))
    }

    /// The panel after these responses were handed over, and nothing else, and the writer answered
    /// as `taken` tells; what was not taken is shown.
    pub open spec fn handing(self, responses: Seq<ResponseView>, taken: Seq<bool>) -> PanelView {
        PanelView {
            state: StateView { rows: self.state.rows + refusal_rows(taken), ..self.state },
            client: match self.client {
                Some(link) => Some(
                    ClientView { lines: link.lines + handed_lines(responses, taken), ..link },
                ),
                None => None,
            },
            ..self
        }
    }

    /// Whether `taken` has one answer for each of the responses that are handed over: without a link
    /// there is nobody to hand them to.
    pub open spec fn fits(self, responses: Seq<ResponseView>, taken: Seq<bool>) -> bool {
        taken.len() == if self.client is Some {
            responses.len()
        } else {
            0
        }
    }

    /// The panel after the responses that it owes were handed over, and the writer answered as
    /// `taken` tells.
    pub open spec fn answering(self, taken: Seq<bool>) -> PanelView {
        self.with_state(self.state.drained()).handing(self.state.pending, taken)
    }

    /// Whether `after` is the panel after the responses that it owes were handed over, whatever the
    /// writer answered.
    pub open spec fn answers(self, after: PanelView) -> bool {
        exists|taken: Seq<bool>| #[trigger]
            self.fits(self.state.pending, taken) && after == self.answering(taken)
    }

    /// Whether a report takes this panel to `after` and comes as far as `step`.
    pub open spec fn reported(self, event: EventView, step: ReportStep, after: PanelView) -> bool {
        match step {
            ReportStep::Settled => {
                &&& !(event is Exited)
                &&& !PanelView::is_refused(event)
                &&& if event is StdoutLine {
                    self.told(event).answers(after)
                } else {
                    after == self.told(event)
                }
            },
            ReportStep::Exited(given_up) => {
                &&& event is Exited
                &&& client_view(given_up) == self.client
                &&& after == self.told(event)
            },
            ReportStep::Refused(line) => {
                &&& PanelView::is_refused(event)
                &&& event == EventView::StdoutLine(line@)
                &&& after == self
            },
        }
    }

    /// The panel after a command that the writer has `taken` or not.
    pub open spec fn after_command(self, command: CommandView, taken: bool) -> PanelView {
        let handed = self.with_line(command.line(), taken);
        if taken {
            handed
        } else {
            handed.with_row(RowView::Error(RpcErrorView::WriterClosed.words()))
        }
    }

    /// The panel after a prompt that the writer has `taken` or not.
    pub open spec fn after_prompt(self, message: Seq<char>, taken: bool) -> PanelView {
        let handed = self.with_line((CommandView::Prompt { message }).line(), taken);
        if taken {
            handed.with_row(RowView::User(message))
        } else {
            handed.with_row(RowView::Error(RpcErrorView::WriterClosed.words()))
        }
    }

    /// The panel after a prompt that holds nothing.
    pub open spec fn after_empty_prompt(self) -> PanelView {
        self.with_row(RowView::Error("Cannot send an empty prompt"@))
    }
}

/// How far a prompt has come.
#[derive(Debug, PartialEq, Eq)]
pub enum PromptStep {
    /// It is settled: whether it was sent.
    Settled(bool),
    /// There is no link; the prompt can go on once one was started.
    StartFirst(String),
}

/// How far a command has come.
#[derive(Debug, PartialEq, Eq)]
pub enum CommandStep {
    /// It is settled.
    Settled,
    /// There is no link; the command can go on once one was started.
    StartFirst(RpcCommand),
}

/// How far a report of the process has come.
#[derive(Debug)]
pub enum ReportStep {
    /// It is settled.
    Settled,
    /// It is settled; the process has ended, and this is the link that the panel has given up, as it
    /// was.
    Exited(Option<RpcClient>),
    /// It is this line, which is no message; it can go on once its reader's words are there.
    Refused(String),
}

impl ZepiPanel {
    /// A panel without a link.
    pub fn new() -> (panel: Self)
        ensures
            panel@ == (PanelView {
                state: state::unconnected(),
                client: None,
                generation: 0,
                active: false,
            }),
    {
        ZepiPanel { state: ZepiPanelState::new(), client: None, rpc_generation: 0, active: false }
    }

    /// What the panel shows.
    pub fn state(&self) -> (state: &ZepiPanelState)
        ensures
            state@ == self@.state,
    {
        &self.state
    }

    /// Whether there is a link.
    pub fn is_connected(&self) -> (b: bool)
        ensures
            b == (self@.client is Some),
    {
        self.client.is_some()
    }

    /// Whether the panel is shown.
    pub fn is_active(&self) -> (b: bool)
        ensures
            b == self@.active,
    {
        self.active
    }

    /// The number under which the reports of the link count.
    pub fn rpc_generation(&self) -> (generation: u64)
        ensures
            generation == self@.generation,
    {
        self.rpc_generation
    }

    /// Stops the link: the process is asked to end, and its reports count no more. What comes back is
    /// the link, for the caller to drop.
    pub fn stop_rpc(&mut self) -> (ended: Option<RpcClient>)
        requires
            old(self)@.generation < u64::MAX,
        ensures
            final(self)@ == old(self)@.stopped(),
            old(self)@.ends_as(ended),
    {
        self.rpc_generation += 1;
        match self.client.take() {
            Some(found) => {
                let mut client: RpcClient = found;
                client.kill();
                Some(client)
            },
            None => None,
        }
    }

    /// Stops the link that there is, which comes back as from `stop_rpc`, and gives the number under
    /// which the reports of the next one count.
    pub fn begin_start(&mut self) -> (begun: (u64, Option<RpcClient>))
        requires
            old(self)@.generation < u64::MAX - 1,
        ensures
            final(self)@ == old(self)@.starting(),
            begun.0 == final(self)@.generation,
            old(self)@.ends_as(begun.1),
    {
        let ended: Option<RpcClient> = self.stop_rpc();
        self.rpc_generation += 1;
        (self.rpc_generation, ended)
    }

    /// Takes the new link, and asks it for its commands; or shows in words why there is none. What
    /// comes back is the link that the new one replaces, as it was.
    pub fn finish_start(&mut self, spawned: Result<RpcClient, String>) -> (replaced: Option<
        RpcClient,
    >)
        ensures
            match spawned {
                Ok(client) => {
                    &&& client_view(replaced) == old(self)@.client
                    &&& exists|taken: bool|
                        final(self)@ == #[trigger] old(self)@.connected(client@, taken)
                },
                Err(words) => replaced is None && final(self)@ == old(self)@.not_started(words@),
            },
    {
        let ghost before = self@;
        match spawned {
            Ok(found) => {
                let mut client: RpcClient = found;
                let sent = client.send(RpcCommand::GetCommands);
                let ghost taken = sent is Ok;
                if let Err(error) = sent {
                    self.state.push_error(
                        joined("Failed to request Zepi commands: ", error.message().as_str()),
                    );
                }
                self.state.set_status("Connected".to_owned());
                let replaced: Option<RpcClient> = self.client.take();
                self.client = Some(client);
                assert(self@ =~= before.connected(found@, taken));
                replaced
            },
            Err(words) => {
                self.state.set_status("Failed to start".to_owned());
                self.state.push_error(words);
                None
            },
        }
    }

    /// Applies a report of the link with the number `generation`; one of a link that has been stopped
    /// does not count.
    pub fn apply_event_of(&mut self, generation: u64, event: RpcClientEvent) -> (step: Option<
        ReportStep,
    >)
        ensures
            match step {
                Some(reached) => generation == old(self)@.generation && old(self)@.reported(
                    event@,
                    reached,
                    final(self)@,
                ),
                None => generation != old(self)@.generation && final(self)@ == old(self)@,
            },
    {
        if generation == self.rpc_generation {
            Some(self.apply_rpc_event(event))
        } else {
            None
        }
    }

    /// Applies a report of the process. A message may make answers due: they are handed to the
    /// process, and what it does not take is shown. A line that is no message is handed back, for
    /// `apply_refused_line` to go on with. When the process has ended the link is handed back, for
    /// the caller to drop.
    pub fn apply_rpc_event(&mut self, event: RpcClientEvent) -> (step: ReportStep)
        ensures
            old(self)@.reported(event@, step, final(self)@),
    {
        match event {
            RpcClientEvent::StdoutLine(line) => {
                if self.state.apply_json_line(line.as_str()).is_err() {
                    return ReportStep::Refused(line);
                }
                self.respond();
            },
            RpcClientEvent::StderrLine(line) => self.state.push_error(line),
            RpcClientEvent::Exited(code) => {
                self.state.set_status(
                    match code {
                        Some(0) => "Exited".to_owned(),
                        Some(_) => "Exited with error".to_owned(),
                        None => "Terminated".to_owned(),
                    },
                );
                return ReportStep::Exited(self.client.take());
            },
            RpcClientEvent::Failed(error) => self.state.push_error(error),
        }
        ReportStep::Settled
    }

    /// Goes on with a line that is no message: shows it in the `words` of its reader, and hands over
    /// the answers that are due.
    pub fn apply_refused_line(&mut self, words: String)
        ensures
            old(self)@.told_refusal(words@).answers(final(self)@),
    {
        self.state.push_error(joined("Invalid Zepi RPC JSON: ", words.as_str()));
        self.respond();
    }

    /// Hands the answers that are due to the process, and shows which it did not take.
    fn respond(&mut self)
        ensures
            old(self)@.answers(final(self)@),
    {
        let ghost owing = self@;
        let responses: Vec<ExtensionUiResponse> = self.state.take_pending_extension_ui_responses();
        let ghost before = self@;
        let ghost all = state::response_views(responses@);
        let ghost mut taken: Seq<bool> = Seq::empty();
        assert(self@ =~= before.handing(all, taken));
        for response in it: responses
            invariant
                it.seq() == responses@,
                all == state::response_views(responses@),
                before.fits(all.take(it.index()), taken),
                self@ == before.handing(all, taken),
        {
            let ghost so_far = taken;
            match response.to_json() {
                Ok(line) => {
                    if let Some(client) = &mut self.client {
                        let sent = client.send_json_line(line);
                        proof {
                            taken = so_far.push(sent is Ok);
                            assert(taken.drop_last() =~= so_far);
                            assert(handed_lines(all, taken) =~= handed_lines(all, so_far).push(
                                (response@.line(), sent is Ok),
                            ));
                        }
                        if let Err(error) = sent {
                            self.state.push_error(
                                joined(
                                    "Failed to respond to extension UI: ",
                                    error.message().as_str(),
                                ),
                            );
                        }
                        assert(self@ =~= before.handing(all, taken));
                    }
                },
                Err(words) => {
                    self.state.push_error(
                        joined("Failed to encode extension UI response: ", words.as_str()),
                    );
                },
            }
        }
        assert(all.take(all.len() as int) =~= all);
        assert(owing.fits(owing.state.pending, taken));
        assert(self@ =~= owing.answering(taken));
    }

    /// Sends a command; without a link one must be started first.
    pub fn send_command(&mut self, command: RpcCommand) -> (step: CommandStep)
        ensures
            match step {
                CommandStep::Settled => {
                    &&& old(self)@.client is Some
                    &&& exists|taken: bool|
                        final(self)@ == #[trigger] old(self)@.after_command(command@, taken)
                    &&& json::json_reading(final(self)@.client->0.lines.last().0) == Some(
                        JsonView::Object(command@.members()),
                    )
                },
                CommandStep::StartFirst(kept) => {
                    &&& old(self)@.client is None
                    &&& kept@ == command@
                    &&& final(self)@ == old(self)@
                },
            },
    {
        if self.client.is_none() {
            return CommandStep::StartFirst(command);
        }
        self.send_started_command(command);
        CommandStep::Settled
    }

    /// Sends a command over the link, if there is one, and shows it where that fails.
    pub fn send_started_command(&mut self, command: RpcCommand)
        ensures
            match old(self)@.client {
                Some(_) => {
                    &&& exists|taken: bool|
                        final(self)@ == #[trigger] old(self)@.after_command(command@, taken)
                    &&& json::json_reading(final(self)@.client->0.lines.last().0) == Some(
                        JsonView::Object(command@.members()),
                    )
                },
                None => final(self)@ == old(self)@,
            },
    {
        let ghost before = self@;
        if let Some(client) = &mut self.client {
            let sent = client.send(command);
            let ghost taken = sent is Ok;
            if let Err(error) = sent {
                self.state.push_error(error.message());
            }
            assert(self@ =~= before.after_command(command@, taken));
        }
    }

    /// Sends a prompt. One that holds nothing is refused; without a link one must be started first.
    pub fn send_prompt(&mut self, message: String) -> (step: PromptStep)
        ensures
            match step {
                PromptStep::Settled(sent) => if text::blank(message@) {
                    !sent && final(self)@ == old(self)@.after_empty_prompt()
                } else {
                    &&& old(self)@.client is Some
                    &&& final(self)@ == old(self)@.after_prompt(message@, sent)
                    &&& json::json_reading(final(self)@.client->0.lines.last().0) == Some(
                        JsonView::Object(
                            seq![
                                ("type"@, JsonView::Text("prompt"@)),
                                ("message"@, JsonView::Text(message@)),
                            ],
                        ),
                    )
                },
                PromptStep::StartFirst(kept) => {
                    &&& !text::blank(message@)
                    &&& old(self)@.client is None
                    &&& kept@ == message@
                    &&& final(self)@ == old(self)@
                },
            },
    {
        if is_blank(message.as_str()) {
            self.state.push_error("Cannot send an empty prompt".to_owned());
            return PromptStep::Settled(false);
        }
        if self.client.is_none() {
            return PromptStep::StartFirst(message);
        }
        PromptStep::Settled(self.send_started_prompt(message))
    }

    /// Sends a prompt over the link, if there is one; tells whether it was sent.
    pub fn send_started_prompt(&mut self, message: String) -> (sent: bool)
        ensures
            match old(self)@.client {
                Some(_) => {
                    &&& final(self)@ == old(self)@.after_prompt(message@, sent)
                    &&& json::json_reading(final(self)@.client->0.lines.last().0) == Some(
                        JsonView::Object(
                            seq![
                                ("type"@, JsonView::Text("prompt"@)),
                                ("message"@, JsonView::Text(message@)),
                            ],
                        ),
                    )
                },
                None => !sent && final(self)@ == old(self)@,
            },
    {
        let ghost before = self@;
        if let Some(client) = &mut self.client {
            match client.send(RpcCommand::Prompt { message: message.clone() }) {
                Ok(_) => {
                    self.state.push_user(message);
                    assert(self@ =~= before.after_prompt(message@, true));
                    return true;
                },
                Err(error) => {
                    self.state.push_error(error.message());
                    assert(self@ =~= before.after_prompt(message@, false));
                },
            }
        }
        false
    }

    /// Notes whether the panel is shown; tells whether a link is to be started for it.
    pub fn set_active(&mut self, active: bool) -> (start: bool)
        ensures
            final(self)@ == (PanelView { active, ..old(self)@ }),
            start == (active && old(self)@.client is None),
    {
        self.active = active;
        active && self.client.is_none()
    }

    /// A row as it is shown.
    pub fn render_row(row: &DisplayRow) -> (shown: String)
        ensures
            shown@ == shown_row(row@),
    {
        match row {
            DisplayRow::Status(t) => joined("• ", t.as_str()),
            DisplayRow::Error(t) => joined("! ", t.as_str()),
            DisplayRow::User(t) => joined("You: ", t.as_str()),
            DisplayRow::Assistant(t) => joined("Zepi: ", t.as_str()),
            DisplayRow::Notification(t) => joined("Note: ", t.as_str()),
        }
    }

    /// The status as it is shown.
    pub fn render_status(&self) -> (shown: String)
        ensures
            shown@ == "Status: "@ + self@.state.status,
    {
        joined("Status: ", self.state.status())
    }

    /// The slash commands as they are shown.
    pub fn render_slash_commands(&self) -> (shown: String)
        ensures
            shown@ == "Slash commands: "@ + text::joined_by(self@.state.slash_commands, ", "@),
    {
        joined("Slash commands: ", join_texts(self.state.slash_commands(), ", ").as_str())
    }
}

/// A row as it is shown.
pub open spec fn shown_row(row: RowView) -> Seq<char> {
    match row {
        RowView::Status(t) => "• "@ + t,
        RowView::Error(t) => "! "@ + t,
        RowView::User(t) => "You: "@ + t,
        RowView::Assistant(t) => "Zepi: "@ + t,
        RowView::Notification(t) => "Note: "@ + t,
    }
}

} // verus!
