//! The RPC link to the Zepi process: what is written to it, what comes back, and how the process is
//! found.
use crate::json::{text_value, write_object, JsonView};
use crate::text::joined;
use crate::{json, text};
use std::path::PathBuf;
use std::sync::mpsc::Sender;
use vstd::prelude::*;

verus! {

/// What the Zepi process reports.
#[derive(Debug)]
pub enum RpcClientEvent {
    StdoutLine(String),
    StderrLine(String),
    Exited(Option<i32>),
    Failed(String),
}

/// What a report holds.
pub enum EventView {
    StdoutLine(Seq<char>),
    StderrLine(Seq<char>),
    Exited(Option<i32>),
    Failed(Seq<char>),
}

impl View for RpcClientEvent {
    type V = EventView;

    open spec fn view(&self) -> EventView {
        match self {
            RpcClientEvent::StdoutLine(line) => EventView::StdoutLine(line@),
            RpcClientEvent::StderrLine(line) => EventView::StderrLine(line@),
            RpcClientEvent::Exited(code) => EventView::Exited(*code),
            RpcClientEvent::Failed(error) => EventView::Failed(error@),
        }
    }
}

/// The streams of the Zepi process.
#[derive(Debug, Clone, Copy, PartialEq, Eq, Structural)]
pub enum Pipe {
    Stdin,
    Stdout,
    Stderr,
}

/// What can go wrong with the RPC link.
#[derive(Debug, Clone, PartialEq, Eq)]
pub enum RpcError {
    /// A command could not be written as JSON.
    Encoding(String),
    /// Nobody writes to the process any more.
    WriterClosed,
    /// There is no launcher at this place.
    LauncherNotFound(String),
    /// No Zepi checkout was found.
    RootNotFound,
    /// The process did not start: the program and its arguments.
    NotStarted(String, Vec<String>),
    /// The process has no such stream.
    NoPipe(Pipe),
}

/// What can go wrong with the RPC link.
pub enum RpcErrorView {
    Encoding(Seq<char>),
    WriterClosed,
    LauncherNotFound(Seq<char>),
    RootNotFound,
    NotStarted(Seq<char>, Seq<Seq<char>>),
    NoPipe(Pipe),
}

impl View for RpcError {
    type V = RpcErrorView;

    open spec fn view(&self) -> RpcErrorView {
        match self {
            RpcError::Encoding(words) => RpcErrorView::Encoding(words@),
            RpcError::WriterClosed => RpcErrorView::WriterClosed,
            RpcError::LauncherNotFound(program) => RpcErrorView::LauncherNotFound(program@),
            RpcError::RootNotFound => RpcErrorView::RootNotFound,
            RpcError::NotStarted(program, args) => RpcErrorView::NotStarted(
                program@,
                text::texts(args@),
            ),
            RpcError::NoPipe(pipe) => RpcErrorView::NoPipe(*pipe),
        }
    }
}

impl RpcErrorView {
    /// The error in words.
    pub open spec fn words(self) -> Seq<char> {
        match self {
            RpcErrorView::Encoding(words) => words,
            RpcErrorView::WriterClosed => "Zepi RPC stdin writer is closed"@,
            RpcErrorView::LauncherNotFound(program) => "Zepi launcher not found at "@ + program,
            RpcErrorView::RootNotFound =>
                "ZEPI_ROOT is not set and no Zepi checkout could be inferred"@,
            RpcErrorView::NotStarted(program, args) => "spawning "@ + program + " "@
                + text::joined_by(args, " "@),
            RpcErrorView::NoPipe(Pipe::Stdin) => "taking Zepi RPC stdin"@,
            RpcErrorView::NoPipe(Pipe::Stdout) => "taking Zepi RPC stdout"@,
            RpcErrorView::NoPipe(Pipe::Stderr) => "taking Zepi RPC stderr"@,
        }
    }
}

impl RpcError {
    /// The error in words.
    pub fn message(&self) -> (words: String)
        ensures
            words@ == self@.words(),
    {
        match self {
            RpcError::Encoding(words) => words.clone(),
            RpcError::WriterClosed => "Zepi RPC stdin writer is closed".to_owned(),
            RpcError::LauncherNotFound(program) => joined(
                "Zepi launcher not found at ",
                program.as_str(),
            ),
            RpcError::RootNotFound =>
                "ZEPI_ROOT is not set and no Zepi checkout could be inferred".to_owned(),
            RpcError::NotStarted(program, args) => joined("spawning ", program.as_str()).concat(
                " ",
            ).concat(text::join_texts(args.as_slice(), " ").as_str()),
            RpcError::NoPipe(Pipe::Stdin) => "taking Zepi RPC stdin".to_owned(),
            RpcError::NoPipe(Pipe::Stdout) => "taking Zepi RPC stdout".to_owned(),
            RpcError::NoPipe(Pipe::Stderr) => "taking Zepi RPC stderr".to_owned(),
        }
    }
}

/// A command to the Zepi process.
#[derive(Debug, Clone, PartialEq, Eq)]
pub enum RpcCommand {
    Prompt { message: String },
    Abort,
    NewSession,
    GetCommands,
}

/// What a command holds.
pub enum CommandView {
    Prompt { message: Seq<char> },
    Abort,
    NewSession,
    GetCommands,
}

impl View for RpcCommand {
    type V = CommandView;

    open spec fn view(&self) -> CommandView {
        match self {
            RpcCommand::Prompt { message } => CommandView::Prompt { message: message@ },
            RpcCommand::Abort => CommandView::Abort,
            RpcCommand::NewSession => CommandView::NewSession,
            RpcCommand::GetCommands => CommandView::GetCommands,
        }
    }
}

impl CommandView {
    /// The word for the command's kind.
    pub open spec fn kind(self) -> Seq<char> {
        match self {
            CommandView::Prompt { .. } => "prompt"@,
            CommandView::Abort => "abort"@,
            CommandView::NewSession => "new_session"@,
            CommandView::GetCommands => "get_commands"@,
        }
    }

    /// The members of the command: its kind, and the message of a prompt.
    pub open spec fn members(self) -> Seq<(Seq<char>, JsonView)> {
        match self {
            CommandView::Prompt { message } => seq![
                ("type"@, JsonView::Text(self.kind())),
                ("message"@, JsonView::Text(message)),
            ],
            _ => seq![("type"@, JsonView::Text(self.kind()))],
        }
    }

    /// The command as a JSON object.
    pub open spec fn json(self) -> Seq<char> {
        json::object_text(self.members())
    }

    /// The line that spells the command.
    pub open spec fn line(self) -> Seq<char> {
        self.json() + "\n"@
    }
}

impl RpcCommand {
    /// The line that spells the command. There is one for every command, and it reads back as the
    /// command's members.
    pub fn to_json_line(&self) -> (res: Result<String, RpcError>)
        ensures
            res is Ok,
            res->Ok_0@ == self@.line(),
            json::json_reading(res->Ok_0@) == Some(JsonView::Object(self@.members())),
    {
        let kind: &'static str = match self {
            RpcCommand::Prompt { .. } => "prompt",
            RpcCommand::Abort => "abort",
            RpcCommand::NewSession => "new_session",
            RpcCommand::GetCommands => "get_commands",
        };
        let mut members: Vec<(String, serde_json::Value)> = Vec::new();
        members.push(("type".to_owned(), text_value(kind.to_owned())));
        if let RpcCommand::Prompt { message } = self {
            members.push(("message".to_owned(), text_value(message.clone())));
        }
        proof {
            reveal_strlit("type");
            reveal_strlit("message");
            assert("type"@.len() != "message"@.len());
            assert(json::member_models(members@) =~= self@.members());
        }
        match write_object(members) {
            Ok(object) => Ok(object.concat("\n")),
            Err(words) => Err(RpcError::Encoding(words)),
        }
    }
}

/// `std::sync::mpsc::Sender`, the sending half of a channel.
#[verifier::external_type_specification]
#[verifier::external_body]
#[verifier::reject_recursive_types(T)]
pub struct ExSender<T>(std::sync::mpsc::Sender<T>);

/// The lines that `Sender::send` was given by this sending end of a channel, in order, each with its
/// answer: whether the line was taken.
pub uninterp spec fn handed(stdin: Sender<String>) -> Seq<(Seq<char>, bool)>;

/// Calls `Sender::send`. Claimed: this line is handed over, once, and the answer is the channel's. It
/// takes a line unless nobody receives any more; which of the two holds is not fixed by the line.
#[verifier::external_body]
fn hand_over(stdin: &mut Sender<String>, line: String) -> (taken: bool)
    ensures
        handed(*final(stdin)) == handed(*old(stdin)).push((line@, taken)),
{
    stdin.send(line).is_ok()
}

/// The answers that `Sender::send` gave this sending end to each wish to kill the process, in order:
/// whether the wish was taken.
pub uninterp spec fn kills(kill: Sender<()>) -> Seq<bool>;

/// Calls `Sender::send`. Claimed: the wish is handed over, once, and the answer is the channel's. It
/// takes the wish unless nobody receives any more.
#[verifier::external_body]
fn ask_to_kill(kill: &mut Sender<()>) -> (taken: bool)
    ensures
        kills(*final(kill)) == kills(*old(kill)).push(taken),
    opens_invariants none
    no_unwind
{
    kill.send(()).is_ok()
}

/// The sending ends of the link to a running Zepi process.
#[derive(Debug)]
pub struct RpcClient {
    stdin: Sender<String>,
    kill: Sender<()>,
}

/// What a client has done.
#[verifier::ext_equal]
pub struct ClientView {
    /// The lines that were handed to the writer, in order, and whether it took each.
    pub lines: Seq<(Seq<char>, bool)>,
    /// For each wish to kill the process, whether it was taken.
    pub kills: Seq<bool>,
}

impl ClientView {
    /// The client after one more line, which the writer has `taken` or not.
    pub open spec fn with_line(self, line: Seq<char>, taken: bool) -> ClientView {
        ClientView { lines: self.lines.push((line, taken)), ..self }
    }

    /// The client after one more wish to kill the process, which was `taken` or not.
    pub open spec fn with_kill(self, taken: bool) -> ClientView {
        ClientView { kills: self.kills.push(taken), ..self }
    }

    /// Whether `ended` is this client after it was asked once to end its process.
    pub open spec fn ended_as(self, ended: RpcClient) -> bool {
        exists|taken: bool| ended@ == #[trigger] self.with_kill(taken)
    }
}

impl View for RpcClient {
    type V = ClientView;

    closed spec fn view(&self) -> ClientView {
        ClientView { lines: handed(self.stdin), kills: kills(self.kill) }
    }
}

/// What a caller is told when the channel answered `taken`.
pub fn handed_over(taken: bool) -> (res: Result<(), RpcError>)
    ensures
        taken ==> res is Ok,
        !taken ==> res is Err && res->Err_0@ == RpcErrorView::WriterClosed,
{
    if taken {
        Ok(())
    } else {
        Err(RpcError::WriterClosed)
    }
}

impl RpcClient {
    /// A client that hands its lines to whoever receives from `stdin`, and its wish to kill the
    /// process to whoever receives from `kill`.
    pub fn new(stdin: Sender<String>, kill: Sender<()>) -> (client: RpcClient)
        ensures
            client@ == (ClientView { lines: handed(stdin), kills: kills(kill) }),
    {
        RpcClient { stdin, kill }
    }

    /// Hands the line that spells `command` to the writer, once, and nothing else. It fails only
    /// where the channel does not take the line.
    pub fn send(&mut self, command: RpcCommand) -> (res: Result<(), RpcError>)
        ensures
            final(self)@ == old(self)@.with_line(command@.line(), res is Ok),
            json::json_reading(final(self)@.lines.last().0) == Some(
                JsonView::Object(command@.members()),
            ),
            res is Err ==> res->Err_0@ == RpcErrorView::WriterClosed,
    {
        match command.to_json_line() {
            Ok(line) => handed_over(hand_over(&mut self.stdin, line)),
            Err(error) => Err(error),
        }
    }

    /// Hands `line` to the writer, ended by a newline, once, and nothing else. It fails only where
    /// the channel does not take the line.
    pub fn send_json_line(&mut self, line: String) -> (res: Result<(), RpcError>)
        ensures
            final(self)@ == old(self)@.with_line(line@ + "\n"@, res is Ok),
            res is Err ==> res->Err_0@ == RpcErrorView::WriterClosed,
    {
        handed_over(hand_over(&mut self.stdin, line.concat("\n")))
    }

    /// Asks once for the process to be killed, whatever the channel answers.
    pub fn kill(&mut self)
        ensures
            old(self)@.ended_as(*final(self)),
        opens_invariants none
        no_unwind
    {
        let ghost before = self@;
        let taken: bool = ask_to_kill(&mut self.kill);
        assert(self@ == before.with_kill(taken));
    }
}

impl Drop for RpcClient {
    /// A client that is given up asks for the process to be killed.
    fn drop(&mut self)
        ensures
            old(self)@.ended_as(*final(self)),
        opens_invariants none
        no_unwind
    {
        self.kill();
    }
}

/// `std::path::PathBuf`, a path of the file system.
#[verifier::external_type_specification]
#[verifier::external_body]
pub struct ExPathBuf(std::path::PathBuf);

/// `PathBuf`'s `clone` gives the same path.
pub assume_specification[ <std::path::PathBuf as Clone>::clone ](path: &std::path::PathBuf) -> (copy:
    std::path::PathBuf)
    ensures
        copy == *path,
;

/// How the Zepi process is started.
#[derive(Debug, Clone, PartialEq, Eq)]
pub struct ZepiCommand {
    pub program: PathBuf,
    pub args: Vec<String>,
    pub zepi_root: PathBuf,
}

/// The place of the launcher below a Zepi checkout.
pub open spec fn launcher_place(windows: bool) -> Seq<Seq<char>> {
    seq![
        "scripts"@,
        "bin"@,
        if windows {
            "zepi.cmd"@
        } else {
            "zepi"@
        },
    ]
}

/// The place of the extensions below a Zepi checkout.
pub open spec fn extensions_place() -> Seq<Seq<char>> {
    seq!["packages"@, "zepi-pi-extensions"@]
}

/// The place of Pi below a Zepi checkout.
pub open spec fn pi_place() -> Seq<Seq<char>> {
    seq!["pi"@]
}

/// What `Path::join` makes of a path and a component.
pub uninterp spec fn path_joined(path: PathBuf, component: Seq<char>) -> PathBuf;

/// Calls `Path::join`. Claimed: the path that comes back depends on the two arguments alone.
#[verifier::external_body]
fn join_path(path: &PathBuf, component: &str) -> (longer: PathBuf)
    ensures
        longer == path_joined(*path, component@),
{
    path.join(component)
}

/// How `Path::display` shows a path.
pub uninterp spec fn path_shown(path: PathBuf) -> Seq<char>;

/// Calls `Path::display`, and takes what it displays as a string. Claimed: the words depend on the
/// path alone.
#[verifier::external_body]
fn show_path(path: &PathBuf) -> (shown: String)
    ensures
        shown@ == path_shown(*path),
{
    path.display().to_string()
}

/// The path that leads from `root` through the components of `place`, one after the other.
pub open spec fn place_below(root: PathBuf, place: Seq<Seq<char>>) -> PathBuf
    decreases place.len(),
{
    if place.len() == 0 {
        root
    } else {
        path_joined(place_below(root, place.drop_last()), place.last())
    }
}

/// The launcher of the Zepi checkout `root`.
pub fn launcher_of(root: &PathBuf, windows: bool) -> (program: PathBuf)
    ensures
        program == place_below(*root, launcher_place(windows)),
{
    proof {
        reveal_with_fuel(place_below, 4);
        let place = launcher_place(windows);
        assert(place.drop_last() =~= seq!["scripts"@, "bin"@]);
        assert(place.drop_last().drop_last() =~= seq!["scripts"@]);
    }
    let bin: PathBuf = join_path(&join_path(root, "scripts"), "bin");
    if windows {
        join_path(&bin, "zepi.cmd")
    } else {
        join_path(&bin, "zepi")
    }
}

/// The extensions of the Zepi checkout `root`.
pub fn extensions_of(root: &PathBuf) -> (extensions: PathBuf)
    ensures
        extensions == place_below(*root, extensions_place()),
{
    proof {
        reveal_with_fuel(place_below, 3);
        assert(extensions_place().drop_last() =~= seq!["packages"@]);
    }
    join_path(&join_path(root, "packages"), "zepi-pi-extensions")
}

/// Pi in the Zepi checkout `root`.
pub fn pi_of(root: &PathBuf) -> (pi: PathBuf)
    ensures
        pi == place_below(*root, pi_place()),
{
    proof {
        reveal_with_fuel(place_below, 2);
    }
    join_path(root, "pi")
}

/// A directory that may be a Zepi checkout, and which of the places that make it one exist.
#[derive(Debug)]
pub struct RootProbe {
    pub path: PathBuf,
    /// Whether there is something at `launcher_of` the path.
    pub launcher_exists: bool,
    /// Whether there is something at `extensions_of` the path.
    pub extensions_exist: bool,
    /// Whether there is something at `pi_of` the path.
    pub pi_exists: bool,
}

impl RootProbe {
    /// A Zepi checkout has a launcher, the extensions and Pi.
    pub open spec fn is_root(self) -> bool {
        self.launcher_exists && self.extensions_exist && self.pi_exists
    }
}

/// Whether the directory is a Zepi checkout.
pub fn looks_like_zepi_root(probe: &RootProbe) -> (b: bool)
    ensures
        b == probe.is_root(),
{
    probe.launcher_exists && probe.extensions_exist && probe.pi_exists
}

/// A place from which the search for a Zepi checkout goes upward.
#[derive(Debug)]
pub struct StartProbe {
    pub is_file: bool,
    /// The place itself, its parent, the parent of that, and so on.
    pub ancestors: Vec<RootProbe>,
}

impl StartProbe {
    /// The directories to look at, in order: a file itself is none of them, unless it has no parent.
    pub open spec fn candidates(self) -> Seq<RootProbe> {
        if self.is_file && self.ancestors@.len() > 1 {
            self.ancestors@.skip(1)
        } else {
            self.ancestors@
        }
    }
}

/// The first Zepi checkout among the candidates.
pub open spec fn first_root(candidates: Seq<RootProbe>) -> Option<PathBuf>
    decreases candidates.len(),
{
    if candidates.len() == 0 {
        None
    } else if candidates[0].is_root() {
        Some(candidates[0].path)
    } else {
        first_root(candidates.drop_first())
    }
}

/// The first Zepi checkout above the starts, an earlier start before a later one.
pub open spec fn first_root_above(starts: Seq<StartProbe>) -> Option<PathBuf>
    decreases starts.len(),
{
    if starts.len() == 0 {
        None
    } else {
        match first_root(starts[0].candidates()) {
            Some(root) => Some(root),
            None => first_root_above(starts.drop_first()),
        }
    }
}

proof fn lemma_first_root_from(candidates: Seq<RootProbe>, i: int)
    requires
        0 <= i < candidates.len(),
    ensures
        first_root(candidates.skip(i)) == if candidates[i].is_root() {
            Some(candidates[i].path)
        } else {
            first_root(candidates.skip(i + 1))
        },
{
    assert(candidates.skip(i).drop_first() =~= candidates.skip(i + 1));
}

/// The first Zepi checkout above one start.
fn root_above(start: StartProbe) -> (found: Option<PathBuf>)
    ensures
        found == first_root(start.candidates()),
{
    let ghost all = start.ancestors@;
    let mut skip: bool = start.is_file && start.ancestors.len() > 1;
    assert(all.skip(0) =~= all);
    for probe in it: start.ancestors
        invariant
            it.seq() == all,
            skip ==> it.index() == 0 && first_root(start.candidates()) == first_root(all.skip(1)),
            !skip ==> first_root(start.candidates()) == first_root(all.skip(it.index())),
    {
        if skip {
            skip = false;
        } else {
            proof {
                lemma_first_root_from(all, it.index());
            }
            if looks_like_zepi_root(&probe) {
                return Some(probe.path);
            }
        }
    }
    None
}

/// The root of the Zepi checkout: the one that the environment names, or else the first above the
/// starts.
pub fn resolve_zepi_root(named: Option<PathBuf>, starts: Vec<StartProbe>) -> (res: Result<
    PathBuf,
    RpcError,
>)
    ensures
        match named {
            Some(root) => res == Ok::<PathBuf, RpcError>(root),
            None => match first_root_above(starts@) {
                Some(root) => res == Ok::<PathBuf, RpcError>(root),
                None => res is Err && res->Err_0@ == RpcErrorView::RootNotFound,
            },
        },
{
    if let Some(root) = named {
        return Ok(root);
    }
    let ghost all = starts@;
    assert(all.skip(0) =~= all);
    for start in it: starts
        invariant
            it.seq() == all,
            first_root_above(all) == first_root_above(all.skip(it.index())),
            named is None,
            all == starts@,
    {
        assert(all.skip(it.index()).drop_first() =~= all.skip(it.index() + 1));
        if let Some(root) = root_above(start) {
            return Ok(root);
        }
    }
    Err(RpcError::RootNotFound)
}

/// How the Zepi process of the checkout `zepi_root` is started, where something exists at
/// `launcher_of` it; else refused.
pub fn resolve_zepi_command(zepi_root: PathBuf, windows: bool, launcher_exists: bool) -> (res:
    Result<ZepiCommand, RpcError>)
    ensures
        match res {
            Ok(command) => {
                &&& launcher_exists
                &&& command.program == place_below(zepi_root, launcher_place(windows))
                &&& command.zepi_root == zepi_root
                &&& text::texts(command.args@) == seq!["--mode"@, "rpc"@]
            },
            Err(error) => !launcher_exists && error@ == RpcErrorView::LauncherNotFound(
                path_shown(place_below(zepi_root, launcher_place(windows))),
            ),
        },
{
    let program: PathBuf = launcher_of(&zepi_root, windows);
    if !launcher_exists {
        return Err(RpcError::LauncherNotFound(show_path(&program)));
    }
    let mut args: Vec<String> = Vec::new();
    args.push("--mode".to_owned());
    args.push("rpc".to_owned());
    assert(text::texts(args@) =~= seq!["--mode"@, "rpc"@]);
    Ok(ZepiCommand { program, args, zepi_root })
}

/// How `String::from_utf8` words its refusal of bytes that are not UTF-8.
pub uninterp spec fn utf8_refusal(bytes: Seq<u8>) -> Seq<char>;

/// Calls `String::from_utf8`. Claimed: it takes exactly the bytes that are UTF-8 and gives the text
/// that they encode, and the words of a refusal depend on the bytes alone.
#[verifier::external_body]
fn decode_text(bytes: Vec<u8>) -> (res: Result<String, String>)
    ensures
        match res {
            Ok(decoded) => vstd::utf8::valid_utf8(bytes@) && decoded@ == vstd::utf8::decode_utf8(
                bytes@,
            ),
            Err(words) => !vstd::utf8::valid_utf8(bytes@) && words@ == utf8_refusal(bytes@),
        },
{
    String::from_utf8(bytes).map_err(|err| err.to_string())
}

/// The bytes of a line without the carriage return that may end it.
pub open spec fn without_return(bytes: Seq<u8>) -> Seq<u8> {
    if bytes.len() > 0 && bytes.last() == 13 {
        bytes.drop_last()
    } else {
        bytes
    }
}

/// What is reported of a line that the process has written.
pub open spec fn line_event(bytes: Seq<u8>) -> EventView {
    let line = without_return(bytes);
    if vstd::utf8::valid_utf8(line) {
        EventView::StdoutLine(vstd::utf8::decode_utf8(line))
    } else {
        EventView::Failed(utf8_refusal(line))
    }
}

/// A report, and whether there may be more to read after it.
#[derive(Debug)]
pub struct StreamStep {
    pub event: RpcClientEvent,
    pub more: bool,
}

/// What follows from one read of the process's output, up to a newline that is left out: a line is
/// reported and reading goes on, a failure is reported and ends it.
pub fn stdout_step(read: Result<Vec<u8>, String>) -> (step: StreamStep)
    ensures
        match read {
            Ok(bytes) => step.event@ == line_event(bytes@) && step.more,
            Err(error) => step.event@ == EventView::Failed(error@) && !step.more,
        },
{
    match read {
        Ok(read_bytes) => {
            let mut bytes: Vec<u8> = read_bytes;
            let n: usize = bytes.len();
            if n > 0 && bytes[n - 1] == 13 {
                bytes.truncate(n - 1);
            }
            assert(bytes@ =~= without_return(read_bytes@));
            let event = match decode_text(bytes) {
                Ok(line) => RpcClientEvent::StdoutLine(line),
                Err(words) => RpcClientEvent::Failed(words),
            };
            StreamStep { event, more: true }
        },
        Err(error) => StreamStep { event: RpcClientEvent::Failed(error), more: false },
    }
}

/// What follows from one read of a line of the process's diagnostics: a line is reported and reading
/// goes on, a failure is reported and ends it.
pub fn stderr_step(read: Result<String, String>) -> (step: StreamStep)
    ensures
        match read {
            Ok(line) => step.event@ == EventView::StderrLine(line@) && step.more,
            Err(error) => step.event@ == EventView::Failed(error@) && !step.more,
        },
{
    match read {
        Ok(line) => StreamStep { event: RpcClientEvent::StderrLine(line), more: true },
        Err(error) => StreamStep { event: RpcClientEvent::Failed(error), more: false },
    }
}

/// What follows from one write to the process: a failure is reported and ends the writing.
pub fn writer_step(written: Result<(), String>) -> (report: Option<RpcClientEvent>)
    ensures
        match written {
            Ok(_) => report is None,
            Err(error) => report is Some && report->0@ == EventView::Failed(error@),
        },
{
    match written {
        Ok(_) => None,
        Err(error) => Some(RpcClientEvent::Failed(error)),
    }
}

/// What a look at the process shows.
#[derive(Debug)]
pub enum WaitOutcome {
    Exited(Option<i32>),
    Running,
    Failed(String),
}

/// What follows from one look at the process: its end, or a failure to look, is reported and ends
/// the waiting; while it runs there is nothing to report.
pub fn wait_step(outcome: WaitOutcome) -> (report: Option<RpcClientEvent>)
    ensures
        match outcome {
            WaitOutcome::Exited(code) => report is Some && report->0@ == EventView::Exited(code),
            WaitOutcome::Running => report is None,
            WaitOutcome::Failed(error) => report is Some && report->0@ == EventView::Failed(error@),
        },
{
    match outcome {
        WaitOutcome::Exited(code) => Some(RpcClientEvent::Exited(code)),
        WaitOutcome::Running => None,
        WaitOutcome::Failed(error) => Some(RpcClientEvent::Failed(error)),
    }
}

} // verus!
