//! Status reads and command injection: the JSON views of the roster and the
//! console, the FIFO command queue that feeds the child process's input, and
//! the shutdown/restart protocol over the shared status.
use vstd::prelude::*;

verus! {

use std::collections::VecDeque;
use crate::shared_data::{
    entries_of, names_of, GeneralState, MinecraftServerState, ServerSharedData, StatusModel,
};
use crate::text::{dec_str, escape_line, json_escape, u32_to_string};

/// The queue of command lines awaiting forwarding to the child process.
/// Commands leave in the order they were enqueued; a closed queue accepts
/// nothing, which is how an enqueue after the child's teardown is refused.
pub struct CommandQueue {
    pub commands: VecDeque<String>,
    pub open: bool,
}

/// The mathematical value of a [`CommandQueue`].
#[verifier::ext_equal]
pub struct QueueModel {
    pub commands: Seq<Seq<char>>,
    pub open: bool,
}

impl View for CommandQueue {
    type V = QueueModel;

    open spec fn view(&self) -> QueueModel {
        QueueModel { commands: names_of(self.commands@), open: self.open }
    }
}

impl CommandQueue {
    pub fn new() -> (r: CommandQueue)
        ensures
            r@.commands =~= Seq::<Seq<char>>::empty(),
            r@.open,
    {
        CommandQueue { commands: VecDeque::<String>::new(), open: true }
    }

    /// Adds a command at the back; refused when the queue is closed.
    pub fn enqueue(&mut self, cmd: String) -> (ok: bool)
        ensures
            ok == old(self)@.open,
            final(self)@.open == old(self)@.open,
            ok ==> final(self)@.commands =~= old(self)@.commands.push(cmd@),
            !ok ==> final(self)@ =~= old(self)@,
    {
        if self.open {
            self.commands.push_back(cmd);
            proof {
                assert(final(self)@.commands =~= old(self)@.commands.push(cmd@));
            }
            true
        } else {
            false
        }
    }

    /// Removes and returns the oldest command, if any.
    pub fn dequeue(&mut self) -> (r: Option<String>)
        ensures
            final(self)@.open == old(self)@.open,
            match r {
                Some(cmd) => old(self)@.commands.len() > 0 && cmd@ == old(self)@.commands[0]
                    && final(self)@.commands =~= old(self)@.commands.skip(1),
                None => old(self)@.commands.len() == 0 && final(self)@ =~= old(self)@,
            },
    {
        let r = self.commands.pop_front();
        proof {
            if old(self).commands@.len() > 0 {
                assert(final(self)@.commands =~= old(self)@.commands.skip(1));
            }
        }
        r
    }

    /// Marks the queue as no longer accepting commands; what is already
    /// queued stays.
    pub fn close(&mut self)
        ensures
            final(self)@.commands =~= old(self)@.commands,
            !final(self)@.open,
    {
        self.open = false;
    }
}

/// One poll of the command forwarder: the oldest queued command, newline
/// terminated and ready to be written to the child's input stream, or
/// nothing when the queue is empty.
pub fn forwarder_poll(queue: &mut CommandQueue) -> (r: Option<String>)
    ensures
        final(queue)@.open == old(queue)@.open,
        match r {
            Some(line) => old(queue)@.commands.len() > 0 && line@ == old(queue)@.commands[0]
                + "\n"@ && final(queue)@.commands =~= old(queue)@.commands.skip(1),
            None => old(queue)@.commands.len() == 0 && final(queue)@ =~= old(queue)@,
        },
{
    match queue.dequeue() {
        Some(mut cmd) => {
            cmd.append("\n");
            Some(cmd)
        },
        None => None,
    }
}

/// The underscore-to-space rewriting of a query.
pub open spec fn underscores_to_spaces(s: Seq<char>) -> Seq<char> {
    Seq::new(
        s.len(),
        |i: int|
            if s[i] == '_' {
                ' '
            } else {
                s[i]
            },
    )
}

/// The command text carried by a `send` query: everything after the leading
/// `?`, with underscores turned into spaces.
pub open spec fn spec_query_string(q: Seq<char>) -> Seq<char> {
    if q.len() == 0 {
        Seq::<char>::empty()
    } else {
        underscores_to_spaces(q.skip(1))
    }
}

/// Drops the query's first character and replaces each `_` with a space.
pub fn query_string(query: &str) -> (r: String)
    ensures
        r@ == spec_query_string(query@),
{
    let n = query.unicode_len();
    let mut out = String::new();
    if n == 0 {
        return out;
    }
    let mut i: usize = 1;
    while i < n
        invariant
            n == query@.len(),
            n >= 1,
            1 <= i <= n,
            out@ =~= underscores_to_spaces(query@.skip(1)).take(i - 1),
        decreases n - i,
    {
        let c = query.get_char(i);
        if c == '_' {
            out.append(" ");
            proof {
                reveal_strlit(" ");
                assert(out@ =~= underscores_to_spaces(query@.skip(1)).take(i as int));
            }
        } else {
            let piece = query.substring_char(i, i + 1);
            out.append(piece);
            proof {
                assert(piece@ =~= seq![query@[i as int]]);
                assert(out@ =~= underscores_to_spaces(query@.skip(1)).take(i as int));
            }
        }
        i = i + 1;
    }
    proof {
        assert(underscores_to_spaces(query@.skip(1)).take(n - 1) =~= underscores_to_spaces(
            query@.skip(1),
        ));
    }
    out
}

/// Translates the query into a command, enqueues it, and reports acceptance:
/// a `201 Created` response when the queue took the command, `500` when the
/// queue is closed.
pub fn send_command(command: &str, queue: &mut CommandQueue) -> (r: String)
    ensures
        final(queue)@.open == old(queue)@.open,
        old(queue)@.open ==> final(queue)@.commands =~= old(queue)@.commands.push(
            spec_query_string(command@),
        ) && r@ == "HTTP/1.1 201 Created\r\nContent-Type: text/plain\r\nConnection: Close"@,
        !old(queue)@.open ==> final(queue)@ =~= old(queue)@ && r@
            == "HTTP/1.1 500 Internal Server Error\r\nContent-Type: text/plain\r\nConnection: Close"@,
{
    let cmd = query_string(command);
    if queue.enqueue(cmd) {
        String::from_str("HTTP/1.1 201 Created\r\nContent-Type: text/plain\r\nConnection: Close")
    } else {
        String::from_str(
            "HTTP/1.1 500 Internal Server Error\r\nContent-Type: text/plain\r\nConnection: Close",
        )
    }
}

/// The rendered roster list: each name followed by a comma and a space.
pub open spec fn players_list(players: Seq<Seq<char>>) -> Seq<char>
    decreases players.len(),
{
    if players.len() == 0 {
        Seq::<char>::empty()
    } else {
        players_list(players.drop_last()) + players.last() + ", "@
    }
}

/// The body of the players view.
pub open spec fn players_json(count: nat, max: nat, players: Seq<Seq<char>>) -> Seq<char> {
    "{\"playerCount\": \""@ + dec_str(count) + "\", \"playerCountMax\": \""@ + dec_str(max)
        + "\", \"player\": ["@ + players_list(players) + "]}"@
}

/// The whole players response: status line, headers, blank line, body.
pub open spec fn players_response(count: nat, max: nat, players: Seq<Seq<char>>) -> Seq<char> {
    "HTTP/1.1 200 OK\r\nContent-Type: text/plain\r\nConnection: Close\r\n\r\n"@ + players_json(
        count,
        max,
        players,
    )
}

/// Renders the current player data as a complete response.
pub fn get_players(player_count: u32, player_count_max: u32, players: &Vec<String>) -> (r: String)
    ensures
        r@ == players_response(player_count as nat, player_count_max as nat, names_of(players@)),
{
    let ghost names = names_of(players@);
    let mut out = String::from_str(
        "HTTP/1.1 200 OK\r\nContent-Type: text/plain\r\nConnection: Close\r\n\r\n",
    );
    out.append("{\"playerCount\": \"");
    let count_str = u32_to_string(player_count);
    out.append(count_str.as_str());
    out.append("\", \"playerCountMax\": \"");
    let max_str = u32_to_string(player_count_max);
    out.append(max_str.as_str());
    out.append("\", \"player\": [");
    let ghost head = out@;
    proof {
        assert(players_list(names.take(0)) =~= Seq::<char>::empty());
        assert(out@ =~= head + players_list(names.take(0)));
    }
    let n = players.len();
    let mut i: usize = 0;
    while i < n
        invariant
            n == players@.len(),
            0 <= i <= n,
            names == names_of(players@),
            out@ =~= head + players_list(names.take(i as int)),
        decreases n - i,
    {
        out.append(players[i].as_str());
        out.append(", ");
        proof {
            assert(names.take(i + 1).drop_last() =~= names.take(i as int));
            assert(names.take(i + 1).last() == players@[i as int]@);
            assert(out@ =~= head + players_list(names.take(i + 1)));
        }
        i = i + 1;
    }
    out.append("]}");
    proof {
        assert(names.take(n as int) =~= names);
        assert(out@ =~= players_response(
            player_count as nat,
            player_count_max as nat,
            names_of(players@),
        ));
    }
    out
}

/// One rendered console entry: the sequence number and the escaped line.
pub open spec fn console_entry(e: (nat, Seq<char>)) -> Seq<char> {
    "\""@ + dec_str(e.0) + "\":\""@ + json_escape(e.1) + "\",\n"@
}

/// The rendered console entries, newest first as stored.
pub open spec fn console_list(entries: Seq<(nat, Seq<char>)>) -> Seq<char>
    decreases entries.len(),
{
    if entries.len() == 0 {
        Seq::<char>::empty()
    } else {
        console_list(entries.drop_last()) + console_entry(entries.last())
    }
}

/// The whole console response: status line, headers, blank line, body.
pub open spec fn console_response(entries: Seq<(nat, Seq<char>)>) -> Seq<char> {
    "HTTP/1.1 200 OK\r\nContent-Type: text/plain\r\nConnection: Close\r\n\r\n"@ + "{\"chat\": {\n"@
        + console_list(entries) + "}}"@
}

/// Renders the console buffer as a complete response, each line JSON-escaped.
pub fn get_console(chat: &VecDeque<(u32, String)>) -> (r: String)
    ensures
        r@ == console_response(entries_of(chat@)),
{
    let ghost entries = entries_of(chat@);
    let mut out = String::from_str(
        "HTTP/1.1 200 OK\r\nContent-Type: text/plain\r\nConnection: Close\r\n\r\n",
    );
    out.append("{\"chat\": {\n");
    let ghost head = out@;
    proof {
        assert(console_list(entries.take(0)) =~= Seq::<char>::empty());
        assert(out@ =~= head + console_list(entries.take(0)));
    }
    let n = chat.len();
    let mut i: usize = 0;
    while i < n
        invariant
            n == chat@.len(),
            0 <= i <= n,
            entries == entries_of(chat@),
            out@ =~= head + console_list(entries.take(i as int)),
        decreases n - i,
    {
        let line = &chat[i];
        out.append("\"");
        let num_str = u32_to_string(line.0);
        out.append(num_str.as_str());
        out.append("\":\"");
        let escaped = escape_line(line.1.as_str());
        out.append(escaped.as_str());
        out.append("\",\n");
        proof {
            assert(entries.take(i + 1).drop_last() =~= entries.take(i as int));
            assert(entries.take(i + 1).last() == entries[i as int]);
            assert(out@ =~= head + console_list(entries.take(i + 1)));
        }
        i = i + 1;
    }
    out.append("}}");
    proof {
        assert(entries.take(n as int) =~= entries);
        assert(out@ =~= console_response(entries_of(chat@)));
    }
    out
}

/// The corrected wait predicate of the shutdown/restart protocol: waiting is
/// over exactly when the child process has reached `Off`.
pub fn stop_wait_done(data: &ServerSharedData) -> (r: bool)
    ensures
        r == (data@.process == MinecraftServerState::Off),
{
    match data.mcserver_state {
        MinecraftServerState::Off => true,
        _ => false,
    }
}

/// Begins the shutdown protocol. When the child process is `Running` a
/// `stop` command is enqueued (if the queue is open) and the caller must
/// wait for the process to reach `Off` before calling [`finish_shutdown`];
/// otherwise there is nothing to wait for, no command is enqueued, and the
/// supervisor state is set to `ShutDown` at once.
pub fn request_shutdown(data: &mut ServerSharedData, queue: &mut CommandQueue) -> (must_wait: bool)
    ensures
        must_wait == (old(data)@.process == MinecraftServerState::Running),
        !must_wait ==> final(data)@ =~= (StatusModel {
            supervisor: GeneralState::ShutDown,
            ..old(data)@
        }) && final(queue)@ =~= old(queue)@,
        must_wait ==> final(data)@ =~= old(data)@ && final(queue)@.open == old(queue)@.open && (
        if old(queue)@.open {
            final(queue)@.commands =~= old(queue)@.commands.push("stop"@)
        } else {
            final(queue)@ =~= old(queue)@
        }),
{
    if needs_stop(data) {
        let cmd = String::from_str("stop");
        let _accepted = queue.enqueue(cmd);
        true
    } else {
        data.transition_supervisor_state(GeneralState::ShutDown);
        false
    }
}

/// Begins the restart protocol; the same steps as [`request_shutdown`] with
/// `Restart` as the final supervisor state and [`finish_restart`] as the
/// finishing call.
pub fn request_restart(data: &mut ServerSharedData, queue: &mut CommandQueue) -> (must_wait: bool)
    ensures
        must_wait == (old(data)@.process == MinecraftServerState::Running),
        !must_wait ==> final(data)@ =~= (StatusModel {
            supervisor: GeneralState::Restart,
            ..old(data)@
        }) && final(queue)@ =~= old(queue)@,
        must_wait ==> final(data)@ =~= old(data)@ && final(queue)@.open == old(queue)@.open && (
        if old(queue)@.open {
            final(queue)@.commands =~= old(queue)@.commands.push("stop"@)
        } else {
            final(queue)@ =~= old(queue)@
        }),
{
    if needs_stop(data) {
        let cmd = String::from_str("stop");
        let _accepted = queue.enqueue(cmd);
        true
    } else {
        data.transition_supervisor_state(GeneralState::Restart);
        false
    }
}

/// Whether the child process is `Running`, so that a stop must be issued.
fn needs_stop(data: &ServerSharedData) -> (r: bool)
    ensures
        r == (data@.process == MinecraftServerState::Running),
{
    match data.mcserver_state {
        MinecraftServerState::Running => true,
        _ => false,
    }
}

/// Ends the shutdown protocol after the wait: the supervisor state becomes
/// `ShutDown` unconditionally.
pub fn finish_shutdown(data: &mut ServerSharedData)
    ensures
        final(data)@ =~= (StatusModel { supervisor: GeneralState::ShutDown, ..old(data)@ }),
{
    data.transition_supervisor_state(GeneralState::ShutDown);
}

/// Ends the restart protocol after the wait: the supervisor state becomes
/// `Restart` unconditionally.
pub fn finish_restart(data: &mut ServerSharedData)
    ensures
        final(data)@ =~= (StatusModel { supervisor: GeneralState::Restart, ..old(data)@ }),
{
    data.transition_supervisor_state(GeneralState::Restart);
}

/// The per-iteration decision of a generation's scanner and forwarder loops:
/// once the child process is `Off` the loops must end — and a supervisor
/// still marked `Running` is switched to `Restart` so that the run loop
/// relaunches; while the process is not `Off` the loops go on.
pub fn check_generation_end(data: &mut ServerSharedData) -> (exit: bool)
    ensures
        exit == (old(data)@.process == MinecraftServerState::Off),
        old(data)@.process == MinecraftServerState::Off && old(data)@.supervisor
            == GeneralState::Running ==> final(data)@ =~= (StatusModel {
            supervisor: GeneralState::Restart,
            ..old(data)@
        }),
        !(old(data)@.process == MinecraftServerState::Off && old(data)@.supervisor
            == GeneralState::Running) ==> final(data)@ =~= old(data)@,
{
    if stop_wait_done(data) {
        let still_running = match data.gen_state {
            GeneralState::Running => true,
            _ => false,
        };
        if still_running {
            data.transition_supervisor_state(GeneralState::Restart);
        }
        true
    } else {
        false
    }
}

/// The run loop's decision after a generation ends: `Restart` relaunches and
/// resets the two states for the new generation, `ShutDown` stops the run
/// loop, and a supervisor still marked `Running` relaunches unchanged.
pub fn supervisor_next(data: &mut ServerSharedData) -> (relaunch: bool)
    ensures
        relaunch == (old(data)@.supervisor != GeneralState::ShutDown),
        old(data)@.supervisor == GeneralState::Restart ==> final(data)@ =~= (StatusModel {
            supervisor: GeneralState::Running,
            process: MinecraftServerState::Starting,
            ..old(data)@
        }),
        old(data)@.supervisor != GeneralState::Restart ==> final(data)@ =~= old(data)@,
{
    match data.gen_state {
        GeneralState::Restart => {
            data.transition_supervisor_state(GeneralState::Running);
            data.transition_process_state(MinecraftServerState::Starting);
            true
        },
        GeneralState::ShutDown => false,
        GeneralState::Running => true,
    }
}

} // verus!
