//! What holds of the lines that go to the Zepi process and come back, and of the search for it.
use crate::json::JsonView;
use crate::rpc::{
    ClientView, CommandView, EventView, Pipe, RootProbe, RpcClient, RpcClientEvent, RpcCommand,
    RpcError, RpcErrorView, StartProbe,
};
use crate::state::ResponseView;
use crate::{json, rpc, text};
use std::path::PathBuf;
use vstd::prelude::*;

verus! {

/// Whether `text` holds neither a newline nor a carriage return.
pub open spec fn unbroken(text: Seq<char>) -> bool {
    forall|i: int| 0 <= i < text.len() ==> #[trigger] text[i] != '\n' && text[i] != '\r'
}

/// Whether `text` is one line: it ends with a newline, and nothing before that breaks it.
pub open spec fn one_line(text: Seq<char>) -> bool {
    text.len() > 0 && text.last() == '\n' && unbroken(text.drop_last())
}

proof fn lemma_escape_unbroken(c: char)
    ensures
        unbroken(json::escape(c)),
{
}

proof fn lemma_escaped_unbroken(text: Seq<char>)
    ensures
        unbroken(json::escaped(text)),
    decreases text.len(),
{
    if text.len() > 0 {
        lemma_escaped_unbroken(text.drop_last());
        lemma_escape_unbroken(text.last());
    }
}

/// A JSON string breaks no line, whatever text it spells.
pub proof fn law_quoted_text_is_unbroken(text: Seq<char>)
    ensures
        unbroken(json::quoted(text)),
{
    lemma_escaped_unbroken(text);
}

proof fn lemma_joined_unbroken(parts: Seq<Seq<char>>, between: Seq<char>)
    requires
        unbroken(between),
        forall|i: int| 0 <= i < parts.len() ==> unbroken(#[trigger] parts[i]),
    ensures
        unbroken(text::joined_by(parts, between)),
    decreases parts.len(),
{
    if parts.len() > 1 {
        assert forall|i: int| 0 <= i < parts.len() - 1 implies unbroken(
            #[trigger] parts.drop_last()[i],
        ) by {
            assert(unbroken(parts[i]));
        }
        lemma_joined_unbroken(parts.drop_last(), between);
        assert(unbroken(parts[parts.len() - 1]));
    } else if parts.len() == 1 {
        assert(unbroken(parts[0]));
    }
}

/// An object of texts and flags is written without a break, whatever its names and texts hold.
pub proof fn law_written_objects_are_unbroken(members: Seq<(Seq<char>, JsonView)>)
    ensures
        unbroken(json::object_text(members)),
{
    let parts = Seq::new(members.len(), |i: int| json::member_text(members[i].0, members[i].1));
    reveal_strlit("{");
    reveal_strlit(":");
    reveal_strlit(",");
    reveal_strlit("}");
    reveal_strlit("true");
    reveal_strlit("false");
    assert forall|i: int| 0 <= i < parts.len() implies unbroken(#[trigger] parts[i]) by {
        law_quoted_text_is_unbroken(members[i].0);
        if let JsonView::Text(value) = members[i].1 {
            law_quoted_text_is_unbroken(value);
        }
    }
    lemma_joined_unbroken(parts, ","@);
}

/// Every command is spelled as one line, whatever the prompt holds.
pub proof fn law_commands_are_one_line(command: CommandView)
    ensures
        one_line(command.line()),
{
    reveal_strlit("\n");
    law_written_objects_are_unbroken(command.members());
    assert(command.line().drop_last() =~= command.json());
}

/// Every answer to an extension is spelled as one line, whatever its id holds.
pub proof fn law_answers_are_one_line(answer: ResponseView)
    ensures
        one_line(answer.line()),
{
    reveal_strlit("\n");
    law_written_objects_are_unbroken(answer.members());
    assert(answer.line().drop_last() =~= answer.json());
}

/// Whether a JSON string spells every character of `text` as itself.
pub open spec fn plain(text: Seq<char>) -> bool {
    forall|i: int|
        0 <= i < text.len() ==> #[trigger] text[i] as nat >= 0x20 && text[i] != '"' && text[i]
            != '\\'
}

proof fn lemma_plain_text_is_not_escaped(text: Seq<char>)
    requires
        plain(text),
    ensures
        json::escaped(text) == text,
    decreases text.len(),
{
    if text.len() > 0 {
        lemma_plain_text_is_not_escaped(text.drop_last());
        assert(json::escape(text.last()) =~= seq![text.last()]);
        assert(json::escaped(text) =~= text);
    } else {
        assert(json::escaped(text) =~= text);
    }
}

/// An object with one member is its spelling between braces.
proof fn lemma_one_member(member: (Seq<char>, JsonView))
    ensures
        json::object_text(seq![member]) == "{"@ + json::member_text(member.0, member.1) + "}"@,
{
    let members = seq![member];
    let parts = Seq::new(members.len(), |i: int| json::member_text(members[i].0, members[i].1));
    assert(text::joined_by(parts, ","@) == parts[0]);
}

/// An object with one member more goes on with a comma.
proof fn lemma_two_members(first: (Seq<char>, JsonView), second: (Seq<char>, JsonView))
    ensures
        json::object_text(seq![first, second]) == "{"@ + json::member_text(first.0, first.1) + ","@
            + json::member_text(second.0, second.1) + "}"@,
{
    let members = seq![first, second];
    let parts = Seq::new(members.len(), |i: int| json::member_text(members[i].0, members[i].1));
    assert(parts.drop_last().len() == 1);
    assert(text::joined_by(parts.drop_last(), ","@) == parts[0]);
    assert(json::object_text(members) =~= "{"@ + json::member_text(first.0, first.1) + ","@
        + json::member_text(second.0, second.1) + "}"@);
}

/// What each command looks like.
pub proof fn law_commands_are_spelled_out(command: CommandView)
    ensures
        command.json() == match command {
            CommandView::Prompt { message } => "{\"type\":\"prompt\",\"message\":"@ + json::quoted(
                message,
            ) + "}"@,
            CommandView::Abort => "{\"type\":\"abort\"}"@,
            CommandView::NewSession => "{\"type\":\"new_session\"}"@,
            CommandView::GetCommands => "{\"type\":\"get_commands\"}"@,
        },
{
    reveal_strlit("{");
    reveal_strlit(":");
    reveal_strlit(",");
    reveal_strlit("}");
    reveal_strlit("type");
    reveal_strlit("message");
    reveal_strlit("prompt");
    reveal_strlit("abort");
    reveal_strlit("new_session");
    reveal_strlit("get_commands");
    reveal_strlit("{\"type\":\"prompt\",\"message\":");
    reveal_strlit("{\"type\":\"abort\"}");
    reveal_strlit("{\"type\":\"new_session\"}");
    reveal_strlit("{\"type\":\"get_commands\"}");
    lemma_plain_text_is_not_escaped("type"@);
    lemma_plain_text_is_not_escaped(command.kind());
    let kind = ("type"@, JsonView::Text(command.kind()));
    match command {
        CommandView::Prompt { message } => {
            lemma_plain_text_is_not_escaped("message"@);
            lemma_two_members(kind, ("message"@, JsonView::Text(message)));
            assert(command.json() =~= "{\"type\":\"prompt\",\"message\":"@ + json::quoted(message)
                + "}"@);
        },
        CommandView::Abort => {
            lemma_one_member(kind);
            assert(command.json() =~= "{\"type\":\"abort\"}"@);
        },
        CommandView::NewSession => {
            lemma_one_member(kind);
            assert(command.json() =~= "{\"type\":\"new_session\"}"@);
        },
        CommandView::GetCommands => {
            lemma_one_member(kind);
            assert(command.json() =~= "{\"type\":\"get_commands\"}"@);
        },
    }
}

/// What each answer to an extension looks like.
pub proof fn law_answers_are_spelled_out(answer: ResponseView)
    ensures
        answer.json() == "{\"type\":"@ + json::quoted(answer.message_type) + ",\"id\":"@
            + json::quoted(answer.id) + (if answer.cancelled {
            ",\"cancelled\":true}"@
        } else {
            ",\"cancelled\":false}"@
        }),
{
    reveal_strlit("{");
    reveal_strlit(":");
    reveal_strlit(",");
    reveal_strlit("}");
    reveal_strlit("true");
    reveal_strlit("false");
    reveal_strlit("type");
    reveal_strlit("id");
    reveal_strlit("cancelled");
    reveal_strlit("{\"type\":");
    reveal_strlit(",\"id\":");
    reveal_strlit(",\"cancelled\":true}");
    reveal_strlit(",\"cancelled\":false}");
    lemma_plain_text_is_not_escaped("type"@);
    lemma_plain_text_is_not_escaped("id"@);
    lemma_plain_text_is_not_escaped("cancelled"@);
    let members = answer.members();
    let parts = Seq::new(members.len(), |i: int| json::member_text(members[i].0, members[i].1));
    reveal_with_fuel(text::joined_by, 3);
    assert(text::joined_by(parts, ","@) == parts[0] + ","@ + parts[1] + ","@ + parts[2]);
    assert(answer.json() =~= "{\"type\":"@ + json::quoted(answer.message_type) + ",\"id\":"@
        + json::quoted(answer.id) + (if answer.cancelled {
        ",\"cancelled\":true}"@
    } else {
        ",\"cancelled\":false}"@
    }));
}

proof fn lemma_hex_chars_differ(a: nat, b: nat)
    requires
        a < 16,
        b < 16,
        json::hex_char(a) == json::hex_char(b),
    ensures
        a == b,
{
}

/// The spelling of one character is no beginning of the spelling of another.
proof fn lemma_escape_reads_back(c: char, d: char, x: Seq<char>, y: Seq<char>)
    requires
        json::escape(c) + x == json::escape(d) + y,
    ensures
        c == d,
        x == y,
{
    let left = json::escape(c) + x;
    let right = json::escape(d) + y;
    assert(left[0] == right[0]);
    assert(left[0] == json::escape(c)[0]);
    assert(right[0] == json::escape(d)[0]);
    if json::escape(c).len() > 1 {
        assert(left[1] == json::escape(c)[1]);
        assert(right[1] == json::escape(d)[1]);
        if json::escape(c).len() > 2 {
            assert(left[4] == json::escape(c)[4]);
            assert(right[4] == json::escape(d)[4]);
            assert(left[5] == json::escape(c)[5]);
            assert(right[5] == json::escape(d)[5]);
            lemma_hex_chars_differ(c as nat / 16, d as nat / 16);
            lemma_hex_chars_differ(c as nat % 16, d as nat % 16);
        }
    }
    assert(c == d);
    assert(x =~= left.skip(json::escape(c).len() as int));
    assert(y =~= right.skip(json::escape(d).len() as int));
}

proof fn lemma_escaped_from_the_front(text: Seq<char>)
    requires
        text.len() > 0,
    ensures
        json::escaped(text) == json::escape(text[0]) + json::escaped(text.drop_first()),
    decreases text.len(),
{
    if text.len() == 1 {
        assert(text.drop_last() =~= Seq::<char>::empty());
        assert(text.drop_first() =~= Seq::<char>::empty());
        assert(json::escaped(text) =~= json::escape(text[0]) + json::escaped(text.drop_first()));
    } else {
        lemma_escaped_from_the_front(text.drop_last());
        assert(text.drop_last().drop_first() =~= text.drop_first().drop_last());
        assert(json::escaped(text) =~= json::escape(text[0]) + json::escaped(text.drop_first()));
    }
}

proof fn lemma_escaped_reads_back(a: Seq<char>, b: Seq<char>)
    requires
        json::escaped(a) == json::escaped(b),
    ensures
        a == b,
    decreases a.len(),
{
    if a.len() > 0 {
        lemma_escaped_from_the_front(a);
    }
    if b.len() > 0 {
        lemma_escaped_from_the_front(b);
    }
    if a.len() == 0 {
        if b.len() > 0 {
            assert(json::escape(b[0]).len() > 0);
            assert(json::escaped(b).len() > 0);
            assert(json::escaped(a).len() == 0);
        }
        assert(a =~= b);
    } else {
        assert(json::escape(a[0]).len() > 0);
        assert(json::escaped(a).len() > 0);
        assert(b.len() > 0);
        lemma_escape_reads_back(
            a[0],
            b[0],
            json::escaped(a.drop_first()),
            json::escaped(b.drop_first()),
        );
        lemma_escaped_reads_back(a.drop_first(), b.drop_first());
        assert(a =~= seq![a[0]] + a.drop_first());
        assert(b =~= seq![b[0]] + b.drop_first());
    }
}

/// Two commands that are spelled alike are the same, down to the text of the prompt.
pub proof fn law_commands_are_told_apart(a: CommandView, b: CommandView)
    requires
        a.line() == b.line(),
    ensures
        a == b,
{
    reveal_strlit("{\"type\":\"prompt\",\"message\":");
    reveal_strlit("}");
    reveal_strlit("{\"type\":\"abort\"}");
    reveal_strlit("{\"type\":\"new_session\"}");
    reveal_strlit("{\"type\":\"get_commands\"}");
    reveal_strlit("\n");
    law_commands_are_spelled_out(a);
    law_commands_are_spelled_out(b);
    assert(a.line()[9] == b.line()[9]);
    assert(a.line()[9] == a.json()[9]);
    assert(b.line()[9] == b.json()[9]);
    if let CommandView::Prompt { message: said } = a {
        assert(b is Prompt);
        let other = b->message;
        let start = "{\"type\":\"prompt\",\"message\":"@.len() + 1;
        assert(json::escaped(said) =~= a.line().subrange(start as int, a.line().len() - 3));
        assert(json::escaped(other) =~= b.line().subrange(start as int, b.line().len() - 3));
        lemma_escaped_reads_back(said, other);
    }
}

proof fn lemma_last_byte(text: Seq<char>)
    requires
        text.len() > 0,
    ensures
        vstd::utf8::encode_utf8(text).len() > 0,
        vstd::utf8::encode_utf8(text).last() == 13 ==> text.last() == '\r',
    decreases text.len(),
{
    let scalar = text[0] as u32;
    let first = vstd::utf8::encode_scalar(scalar);
    let rest = vstd::utf8::encode_utf8(text.drop_first());
    assert(0x80u8 | ((scalar & 0x3f) as u8) != 13) by (bit_vector);
    assert(scalar <= 0x7f ==> (scalar & 0x7f) as u8 == scalar) by (bit_vector);
    if text.len() == 1 {
        vstd::utf8::char_is_scalar(text[0]);
        vstd::utf8::char_u32_cast(text[0], scalar);
        assert(text.drop_first().len() == 0);
        assert(vstd::utf8::encode_utf8(text) =~= first);
        if first.last() == 13 {
            assert(scalar == 13);
        }
    } else {
        lemma_last_byte(text.drop_first());
        assert(vstd::utf8::encode_utf8(text).last() == rest.last());
    }
}

/// A text that the process writes comes back as the line that is reported, whether the line ended
/// with a newline alone or with a carriage return before it. A text that itself ends with a carriage
/// return comes back only from the second.
pub proof fn law_written_lines_come_back(text: Seq<char>)
    ensures
        (text.len() > 0 ==> text.last() != '\r') ==> rpc::line_event(
            vstd::utf8::encode_utf8(text),
        ) == EventView::StdoutLine(text),
        rpc::line_event(vstd::utf8::encode_utf8(text).push(13)) == EventView::StdoutLine(text),
{
    let bytes = vstd::utf8::encode_utf8(text);
    vstd::utf8::encode_utf8_valid_utf8(text);
    vstd::utf8::encode_utf8_decode_utf8(text);
    assert(rpc::without_return(bytes.push(13)) =~= bytes);
    if text.len() > 0 {
        lemma_last_byte(text);
    }
}

/// The first root among the candidates is a Zepi checkout, and no candidate before it is one; where
/// there is none, no candidate is one.
proof fn lemma_first_root(candidates: Seq<RootProbe>)
    ensures
        match rpc::first_root(candidates) {
            Some(root) => exists|i: int|
                #![trigger candidates[i]]
                0 <= i < candidates.len() && candidates[i].is_root() && candidates[i].path == root
                    && forall|j: int| 0 <= j < i ==> !(#[trigger] candidates[j]).is_root(),
            None => forall|i: int|
                0 <= i < candidates.len() ==> !(#[trigger] candidates[i]).is_root(),
        },
    decreases candidates.len(),
{
    if candidates.len() > 0 && !candidates[0].is_root() {
        let rest = candidates.drop_first();
        lemma_first_root(rest);
        match rpc::first_root(candidates) {
            Some(root) => {
                let i = choose|i: int|
                    #![trigger rest[i]]
                    0 <= i < rest.len() && rest[i].is_root() && rest[i].path == root && forall|
                        j: int,
                    |
                        0 <= j < i ==> !(#[trigger] rest[j]).is_root();
                assert(candidates[i + 1] == rest[i]);
                assert forall|j: int| 0 <= j < i + 1 implies !(
                #[trigger] candidates[j]).is_root() by {
                    if j > 0 {
                        assert(candidates[j] == rest[j - 1]);
                    }
                }
            },
            None => {
                assert forall|i: int| 0 <= i < candidates.len() implies !(
                #[trigger] candidates[i]).is_root() by {
                    if i > 0 {
                        assert(candidates[i] == rest[i - 1]);
                    }
                }
            },
        }
    }
}

/// Whether the directory `i` above the start `s` is a Zepi checkout, and none before it is: neither
/// one above an earlier start, nor one that is nearer to the same start.
pub open spec fn first_at(starts: Seq<StartProbe>, s: int, i: int) -> bool {
    &&& 0 <= s < starts.len()
    &&& 0 <= i < starts[s].candidates().len()
    &&& starts[s].candidates()[i].is_root()
    &&& forall|t: int, j: int|
        #![trigger starts[t].candidates()[j]]
        0 <= t <= s && 0 <= j < starts[t].candidates().len() && (t < s || j < i)
            ==> !starts[t].candidates()[j].is_root()
}

/// What the search finds is the first Zepi checkout above the starts; it finds one unless none of
/// the directories above the starts is one.
pub proof fn law_the_search_finds_the_first_checkout(starts: Seq<StartProbe>)
    ensures
        match rpc::first_root_above(starts) {
            Some(root) => exists|s: int, i: int| #[trigger]
                first_at(starts, s, i) && starts[s].candidates()[i].path == root,
            None => forall|s: int, i: int|
                #![trigger starts[s].candidates()[i]]
                0 <= s < starts.len() && 0 <= i < starts[s].candidates().len()
                    ==> !starts[s].candidates()[i].is_root(),
        },
    decreases starts.len(),
{
    if starts.len() > 0 {
        let rest = starts.drop_first();
        let nearest = starts[0].candidates();
        lemma_first_root(nearest);
        match rpc::first_root(nearest) {
            Some(root) => {
                let i = choose|i: int|
                    #![trigger nearest[i]]
                    0 <= i < nearest.len() && nearest[i].is_root() && nearest[i].path == root
                        && forall|j: int| 0 <= j < i ==> !(#[trigger] nearest[j]).is_root();
                assert(first_at(starts, 0, i));
            },
            None => {
                law_the_search_finds_the_first_checkout(rest);
                match rpc::first_root_above(rest) {
                    Some(root) => {
                        let (s, i) = choose|s: int, i: int| #[trigger]
                            first_at(rest, s, i) && rest[s].candidates()[i].path == root;
                        assert forall|t: int, j: int|
                            #![trigger starts[t].candidates()[j]]
                            0 <= t <= s + 1 && 0 <= j < starts[t].candidates().len() && (t < s + 1
                                || j < i) implies !starts[t].candidates()[j].is_root() by {
                            if t > 0 {
                                assert(starts[t] == rest[t - 1]);
                                assert(!rest[t - 1].candidates()[j].is_root());
                            }
                        }
                        assert(starts[s + 1] == rest[s]);
                        assert(first_at(starts, s + 1, i));
                    },
                    None => {
                        assert forall|s: int, i: int|
                            #![trigger starts[s].candidates()[i]]
                            0 <= s < starts.len() && 0 <= i
                                < starts[s].candidates().len() implies !starts[s].candidates()[i].is_root() by {
                            if s > 0 {
                                assert(starts[s] == rest[s - 1]);
                                assert(!rest[s - 1].candidates()[i].is_root());
                            }
                        }
                    },
                }
            },
        }
    }
}

/// What each command looks like as a line.
pub open spec fn spelling(command: CommandView) -> Seq<char> {
    match command {
        CommandView::Prompt { message } => "{\"type\":\"prompt\",\"message\":"@ + json::quoted(
            message,
        ) + "}\n"@,
        CommandView::Abort => "{\"type\":\"abort\"}\n"@,
        CommandView::NewSession => "{\"type\":\"new_session\"}\n"@,
        CommandView::GetCommands => "{\"type\":\"get_commands\"}\n"@,
    }
}

/// Each command is written as the line that belongs to it, a prompt with its message as it is.
pub proof fn law_each_command_has_its_line(command: CommandView)
    ensures
        command.line() == spelling(command),
{
    law_commands_are_spelled_out(command);
    reveal_strlit("\n");
    reveal_strlit("}");
    reveal_strlit("}\n");
    reveal_strlit("{\"type\":\"abort\"}");
    reveal_strlit("{\"type\":\"abort\"}\n");
    reveal_strlit("{\"type\":\"new_session\"}");
    reveal_strlit("{\"type\":\"new_session\"}\n");
    reveal_strlit("{\"type\":\"get_commands\"}");
    reveal_strlit("{\"type\":\"get_commands\"}\n");
    assert("}"@ + "\n"@ =~= "}\n"@);
    assert(command.line() =~= spelling(command));
}

/// The members that a command reads back as: its kind, and of a prompt the message as it is.
pub proof fn law_each_command_has_its_members(command: CommandView)
    ensures
        command.members() == match command {
            CommandView::Prompt { message } => seq![
                ("type"@, JsonView::Text("prompt"@)),
                ("message"@, JsonView::Text(message)),
            ],
            CommandView::Abort => seq![("type"@, JsonView::Text("abort"@))],
            CommandView::NewSession => seq![("type"@, JsonView::Text("new_session"@))],
            CommandView::GetCommands => seq![("type"@, JsonView::Text("get_commands"@))],
        },
{
}

/// The members that an answer reads back as, and its line: the object that spells it and a newline.
pub proof fn law_each_answer_has_its_members(answer: ResponseView)
    ensures
        answer.members() == seq![
            ("type"@, JsonView::Text(answer.message_type)),
            ("id"@, JsonView::Text(answer.id)),
            ("cancelled"@, JsonView::Bool(answer.cancelled)),
        ],
        answer.line() == answer.json() + "\n"@,
{
}

/// What a command, a report and an error hold is seen as it is.
pub proof fn law_commands_and_reports_are_seen_as_they_are(
    said: String,
    code: Option<i32>,
    args: Vec<String>,
    pipe: Pipe,
)
    ensures
        (RpcCommand::Prompt { message: said })@ == (CommandView::Prompt { message: said@ }),
        RpcCommand::Abort@ == CommandView::Abort,
        RpcCommand::NewSession@ == CommandView::NewSession,
        RpcCommand::GetCommands@ == CommandView::GetCommands,
        RpcClientEvent::StdoutLine(said)@ == EventView::StdoutLine(said@),
        RpcClientEvent::StderrLine(said)@ == EventView::StderrLine(said@),
        RpcClientEvent::Exited(code)@ == EventView::Exited(code),
        RpcClientEvent::Failed(said)@ == EventView::Failed(said@),
        RpcError::Encoding(said)@ == RpcErrorView::Encoding(said@),
        RpcError::WriterClosed@ == RpcErrorView::WriterClosed,
        RpcError::LauncherNotFound(said)@ == RpcErrorView::LauncherNotFound(said@),
        RpcError::RootNotFound@ == RpcErrorView::RootNotFound,
        RpcError::NotStarted(said, args)@ == RpcErrorView::NotStarted(said@, text::texts(args@)),
        RpcError::NoPipe(pipe)@ == RpcErrorView::NoPipe(pipe),
{
}

/// Each error in words.
pub proof fn law_errors_have_their_words(said: Seq<char>, args: Seq<Seq<char>>)
    ensures
        RpcErrorView::Encoding(said).words() == said,
        RpcErrorView::WriterClosed.words() == "Zepi RPC stdin writer is closed"@,
        RpcErrorView::LauncherNotFound(said).words() == "Zepi launcher not found at "@ + said,
        RpcErrorView::RootNotFound.words()
            == "ZEPI_ROOT is not set and no Zepi checkout could be inferred"@,
        RpcErrorView::NotStarted(said, args).words() == "spawning "@ + said + " "@
            + text::joined_by(args, " "@),
        RpcErrorView::NoPipe(Pipe::Stdin).words() == "taking Zepi RPC stdin"@,
        RpcErrorView::NoPipe(Pipe::Stdout).words() == "taking Zepi RPC stdout"@,
        RpcErrorView::NoPipe(Pipe::Stderr).words() == "taking Zepi RPC stderr"@,
{
}

/// What a client has done is a record that only grows: by a line with the writer's answer, or by a
/// wish to kill the process, and by nothing else at the same time.
pub proof fn law_clients_keep_a_record(
    link: ClientView,
    line: Seq<char>,
    taken: bool,
    ended: RpcClient,
)
    ensures
        link.with_line(line, taken) == (ClientView {
            lines: link.lines.push((line, taken)),
            kills: link.kills,
        }),
        link.with_kill(taken) == (ClientView {
            lines: link.lines,
            kills: link.kills.push(taken),
        }),
        link.ended_as(ended) <==> {
            &&& ended@.lines == link.lines
            &&& ended@.kills.len() == link.kills.len() + 1
            &&& ended@.kills.drop_last() == link.kills
        },
{
    if ended@.lines == link.lines && ended@.kills.len() == link.kills.len() + 1
        && ended@.kills.drop_last() == link.kills {
        assert(ended@ =~= link.with_kill(ended@.kills.last()));
    }
    if link.ended_as(ended) {
        assert(ended@.kills.drop_last() =~= link.kills);
    }
}

/// Where the launcher, the extensions and Pi stand below a Zepi checkout.
pub proof fn law_the_places_below_a_checkout(root: PathBuf)
    ensures
        ({
            let bin = rpc::path_joined(rpc::path_joined(root, "scripts"@), "bin"@);
            &&& rpc::place_below(root, rpc::launcher_place(false)) == rpc::path_joined(
                bin,
                "zepi"@,
            )
            &&& rpc::place_below(root, rpc::launcher_place(true)) == rpc::path_joined(
                bin,
                "zepi.cmd"@,
            )
        }),
        rpc::place_below(root, rpc::extensions_place()) == rpc::path_joined(
            rpc::path_joined(root, "packages"@),
            "zepi-pi-extensions"@,
        ),
        rpc::place_below(root, rpc::pi_place()) == rpc::path_joined(root, "pi"@),
{
    reveal_with_fuel(rpc::place_below, 4);
    assert(rpc::launcher_place(false).drop_last() =~= seq!["scripts"@, "bin"@]);
    assert(rpc::launcher_place(true).drop_last() =~= seq!["scripts"@, "bin"@]);
    assert(seq!["scripts"@, "bin"@].drop_last() =~= seq!["scripts"@]);
    assert(rpc::extensions_place().drop_last() =~= seq!["packages"@]);
}

/// A directory is a Zepi checkout if and only if the launcher, the extensions and Pi are there.
pub proof fn law_what_a_checkout_is(probe: RootProbe)
    ensures
        probe.is_root() <==> probe.launcher_exists && probe.extensions_exist && probe.pi_exists,
{
}

/// Whether the search looks at this ancestor of a start: at every one but the start itself where
/// that is a file with a parent.
pub open spec fn looked_at(start: StartProbe, i: int) -> bool {
    0 <= i < start.ancestors@.len() && (start.is_file && start.ancestors@.len() > 1 ==> i >= 1)
}

/// Whether this ancestor of a start has a launcher, the extensions and Pi.
pub open spec fn checkout_at(start: StartProbe, i: int) -> bool {
    let probe = start.ancestors@[i];
    probe.launcher_exists && probe.extensions_exist && probe.pi_exists
}

proof fn lemma_candidates_are_ancestors(start: StartProbe, i: int)
    requires
        looked_at(start, i),
    ensures
        ({
            let skipped: int = if start.is_file && start.ancestors@.len() > 1 {
                1
            } else {
                0
            };
            &&& start.candidates().len() == start.ancestors@.len() - skipped
            &&& start.candidates()[i - skipped] == start.ancestors@[i]
            &&& start.candidates()[i - skipped].is_root() == checkout_at(start, i)
        }),
{
}

/// The search finds the first checkout in the order of the starts, and then of their ancestors, up
/// to the last of them; it finds none only where no ancestor that it looks at is one.
pub proof fn law_every_ancestor_is_looked_at(starts: Seq<StartProbe>)
    ensures
        match rpc::first_root_above(starts) {
            Some(root) => exists|s: int, i: int|
                #![trigger checkout_at(starts[s], i)]
                0 <= s < starts.len() && looked_at(starts[s], i) && checkout_at(starts[s], i)
                    && starts[s].ancestors@[i].path == root && forall|t: int, j: int|
                    #![trigger checkout_at(starts[t], j)]
                    0 <= t <= s && looked_at(starts[t], j) && (t < s || j < i) ==> !checkout_at(
                        starts[t],
                        j,
                    ),
            None => forall|s: int, i: int|
                #![trigger checkout_at(starts[s], i)]
                0 <= s < starts.len() && looked_at(starts[s], i) ==> !checkout_at(starts[s], i),
        },
{
    law_the_search_finds_the_first_checkout(starts);
    match rpc::first_root_above(starts) {
        Some(root) => {
            let (s, c) = choose|s: int, c: int| #[trigger]
                first_at(starts, s, c) && starts[s].candidates()[c].path == root;
            let i = if starts[s].is_file && starts[s].ancestors@.len() > 1 {
                c + 1
            } else {
                c
            };
            lemma_candidates_are_ancestors(starts[s], i);
            assert forall|t: int, j: int|
                #![trigger checkout_at(starts[t], j)]
                0 <= t <= s && looked_at(starts[t], j) && (t < s || j < i) implies !checkout_at(
                starts[t],
                j,
            ) by {
                lemma_candidates_are_ancestors(starts[t], j);
                let d = if starts[t].is_file && starts[t].ancestors@.len() > 1 {
                    j - 1
                } else {
                    j
                };
                assert(!starts[t].candidates()[d].is_root());
            }
            assert(checkout_at(starts[s], i));
        },
        None => {
            assert forall|s: int, i: int|
                #![trigger checkout_at(starts[s], i)]
                0 <= s < starts.len() && looked_at(starts[s], i) implies !checkout_at(
                starts[s],
                i,
            ) by {
                lemma_candidates_are_ancestors(starts[s], i);
                let c = if starts[s].is_file && starts[s].ancestors@.len() > 1 {
                    i - 1
                } else {
                    i
                };
                assert(!starts[s].candidates()[c].is_root());
            }
        },
    }
}

/// What is reported of the bytes of a line, with and without a carriage return behind them: the text
/// that they encode, or that they encode none. One carriage return at the end is not part of the
/// line; a second one is.
pub proof fn law_bytes_are_reported_as_the_text_they_encode(bytes: Seq<u8>)
    ensures
        ({
            let report = if vstd::utf8::valid_utf8(bytes) {
                EventView::StdoutLine(vstd::utf8::decode_utf8(bytes))
            } else {
                EventView::Failed(rpc::utf8_refusal(bytes))
            };
            &&& rpc::line_event(bytes.push(13)) == report
            &&& bytes.len() == 0 || bytes.last() != 13 ==> rpc::line_event(bytes) == report
        }),
{
    assert(rpc::without_return(bytes.push(13)) =~= bytes);
}

} // verus!
