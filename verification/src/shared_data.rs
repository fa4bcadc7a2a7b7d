//! The shared status store: the console buffer, the player roster with its
//! derived count, the reported capacity, and the two lifecycle states. All
//! mutation of live status goes through the methods here; each method's
//! contract ties the new state to a mathematical transition on [`StatusModel`].
use vstd::prelude::*;

verus! {

use std::collections::VecDeque;

/// Lifecycle phase of the supervised child process, derived from its output.
#[derive(Clone, Copy, PartialEq, Eq, Structural, Debug)]
pub enum MinecraftServerState {
    Eula,
    Starting,
    Running,
    Off,
}

/// Control state of the outer supervisor run loop.
#[derive(Clone, Copy, PartialEq, Eq, Structural, Debug)]
pub enum GeneralState {
    Running,
    Restart,
    ShutDown,
}

/// The mathematical value of a [`ServerSharedData`]: console entries newest
/// first, roster names in join order, and the plain counters and states.
#[verifier::ext_equal]
pub struct StatusModel {
    pub console: Seq<(nat, Seq<char>)>,
    pub next_seq: nat,
    pub players: Seq<Seq<char>>,
    pub player_count: nat,
    pub max_players: nat,
    pub process: MinecraftServerState,
    pub supervisor: GeneralState,
}

impl StatusModel {
    /// The console invariant: at most 1000 entries, every sequence number
    /// below the next one to be handed out, and numbers strictly decreasing
    /// from the front (the front is the newest entry).
    pub open spec fn console_wf(self) -> bool {
        &&& self.console.len() <= 1000
        &&& forall|i: int| 0 <= i < self.console.len() ==> (#[trigger] self.console[i]).0
            < self.next_seq
        &&& forall|i: int, j: int|
            0 <= i < j < self.console.len() ==> (#[trigger] self.console[i]).0 > (
            #[trigger] self.console[j]).0
    }

    /// The roster invariant: no name twice, and the count equal to the
    /// number of names.
    pub open spec fn roster_wf(self) -> bool {
        &&& self.player_count == self.players.len()
        &&& forall|i: int, j: int|
            0 <= i < j < self.players.len() ==> #[trigger] self.players[i] != #[trigger] self.players[j]
    }

    pub open spec fn wf(self) -> bool {
        self.console_wf() && self.roster_wf()
    }

    /// Whether `name` is on the roster.
    pub open spec fn roster_has(self, name: Seq<char>) -> bool {
        exists|i: int| 0 <= i < self.players.len() && self.players[i] == name
    }
}

/// Appending a line to the console: the next sequence number is assigned,
/// the entry goes to the front, and the oldest entries beyond 1000 fall off
/// the back.
pub open spec fn m_append(m: StatusModel, line: Seq<char>) -> StatusModel {
    let pushed = seq![(m.next_seq, line)] + m.console;
    StatusModel {
        console: if pushed.len() > 1000 {
            pushed.take(1000)
        } else {
            pushed
        },
        next_seq: m.next_seq + 1,
        ..m
    }
}

/// A player joining: a no-op if the name is already present, otherwise the
/// name is added and the count rises by one.
pub open spec fn m_joined(m: StatusModel, name: Seq<char>) -> StatusModel {
    if m.roster_has(name) {
        m
    } else {
        StatusModel { players: m.players.push(name), player_count: m.player_count + 1, ..m }
    }
}

/// A player leaving: a no-op if the name is absent, otherwise the name is
/// removed and the count falls by one.
pub open spec fn m_left(m: StatusModel, name: Seq<char>) -> StatusModel {
    if m.roster_has(name) {
        let i = choose|i: int| 0 <= i < m.players.len() && m.players[i] == name;
        StatusModel {
            players: m.players.remove(i),
            player_count: (m.player_count - 1) as nat,
            ..m
        }
    } else {
        m
    }
}

/// The capacity announcement: an unconditional overwrite.
pub open spec fn m_set_max(m: StatusModel, n: nat) -> StatusModel {
    StatusModel { max_players: n, ..m }
}

/// The state after appending every line of `lines` to the console, oldest
/// first.
pub open spec fn m_append_all(m: StatusModel, lines: Seq<Seq<char>>) -> StatusModel
    decreases lines.len(),
{
    if lines.len() == 0 {
        m
    } else {
        m_append(m_append_all(m, lines.drop_last()), lines.last())
    }
}

/// One console append preserves the console invariant and leaves the roster
/// untouched.
pub proof fn lemma_m_append_wf(m: StatusModel, line: Seq<char>)
    ensures
        m.console_wf() ==> m_append(m, line).console_wf(),
        m.roster_wf() ==> m_append(m, line).roster_wf(),
{
}

/// After any number of appends the console holds exactly the most recent
/// entries — at most 1000 of them, newest first — and their sequence numbers
/// are consecutive and strictly increasing in insertion order. In particular,
/// after more than 1000 appends the length is exactly 1000.
pub proof fn lemma_console_after_appends(m: StatusModel, lines: Seq<Seq<char>>)
    requires
        m.console.len() <= 1000,
    ensures
        m_append_all(m, lines).next_seq == m.next_seq + lines.len(),
        m_append_all(m, lines).console.len() == if m.console.len() + lines.len() > 1000 {
            1000nat
        } else {
            m.console.len() + lines.len()
        },
        forall|i: int|
            0 <= i < lines.len() && i < 1000 ==> #[trigger] m_append_all(m, lines).console[i] == ((
            m.next_seq + lines.len() - 1 - i) as nat, lines[lines.len() - 1 - i]),
        forall|i: int|
            lines.len() <= i < m_append_all(m, lines).console.len()
                ==> #[trigger] m_append_all(m, lines).console[i] == m.console[i - lines.len()],
    decreases lines.len(),
{
    if lines.len() > 0 {
        lemma_console_after_appends(m, lines.drop_last());
        let prev = m_append_all(m, lines.drop_last());
        let r = m_append_all(m, lines);
        let pushed = seq![(prev.next_seq, lines.last())] + prev.console;
        assert(r == m_append(prev, lines.last()));
        assert forall|i: int| 0 <= i < lines.len() && i < 1000 implies #[trigger] r.console[i]
            == ((m.next_seq + lines.len() - 1 - i) as nat, lines[lines.len() - 1 - i]) by {
            if i == 0 {
                assert(r.console[0] == pushed[0]);
            } else {
                assert(r.console[i] == prev.console[i - 1]);
                if i - 1 < lines.len() - 1 {
                    assert(prev.console[i - 1] == ((m.next_seq + lines.drop_last().len() - 1 - (i
                        - 1)) as nat, lines.drop_last()[lines.drop_last().len() - 1 - (i - 1)]));
                    assert(lines.drop_last()[lines.len() - 1 - i] == lines[lines.len() - 1 - i]);
                } else {
                    assert(prev.console[i - 1] == m.console[i - 1 - lines.drop_last().len()]);
                }
            }
        }
        assert forall|i: int| lines.len() <= i < r.console.len() implies #[trigger] r.console[i]
            == m.console[i - lines.len()] by {
            assert(r.console[i] == prev.console[i - 1]);
            assert(prev.console[i - 1] == m.console[i - 1 - lines.drop_last().len()]);
        }
    }
}

/// Joining is idempotent: a second join of the same name changes nothing.
pub proof fn lemma_player_joined_idempotent(m: StatusModel, name: Seq<char>)
    ensures
        m_joined(m_joined(m, name), name) == m_joined(m, name),
{
    if !m.roster_has(name) {
        let m1 = m_joined(m, name);
        assert(m1.players[m.players.len() as int] == name);
        assert(m1.roster_has(name));
    }
}

/// Leaving when absent changes nothing.
pub proof fn lemma_player_left_absent(m: StatusModel, name: Seq<char>)
    requires
        !m.roster_has(name),
    ensures
        m_left(m, name) == m,
{
}

/// A join preserves the roster invariant and leaves the console untouched.
pub proof fn lemma_m_joined_wf(m: StatusModel, name: Seq<char>)
    ensures
        m.roster_wf() ==> m_joined(m, name).roster_wf(),
        m.console_wf() ==> m_joined(m, name).console_wf(),
{
    if m.roster_wf() && !m.roster_has(name) {
        let p = m_joined(m, name).players;
        assert forall|i: int, j: int| 0 <= i < j < p.len() implies #[trigger] p[i]
            != #[trigger] p[j] by {
            if j == p.len() - 1 {
                assert(p[i] == m.players[i]);
                assert(!(exists|k: int| 0 <= k < m.players.len() && m.players[k] == name));
            }
        }
    }
}

/// A leave preserves the roster invariant and leaves the console untouched.
pub proof fn lemma_m_left_wf(m: StatusModel, name: Seq<char>)
    ensures
        m.roster_wf() ==> m_left(m, name).roster_wf(),
        m.console_wf() ==> m_left(m, name).console_wf(),
{
    if m.roster_wf() && m.roster_has(name) {
        let w = choose|i: int| 0 <= i < m.players.len() && m.players[i] == name;
        let p = m_left(m, name).players;
        assert forall|i: int, j: int| 0 <= i < j < p.len() implies #[trigger] p[i]
            != #[trigger] p[j] by {
            let i0 = if i < w {
                i
            } else {
                i + 1
            };
            let j0 = if j < w {
                j
            } else {
                j + 1
            };
            assert(p[i] == m.players[i0] && p[j] == m.players[j0]);
            assert(m.players[i0] != m.players[j0]);
        }
    }
}

/// The live status store. One value of this type is shared by the output
/// scanner, the request dispatcher and the lifecycle control; the embedding
/// program arbitrates access to it.
pub struct ServerSharedData {
    pub server_output: VecDeque<(u32, String)>,
    pub next_line_num: u32,
    pub current_player_count: u32,
    pub current_players: Vec<String>,
    pub max_player_count: u32,
    pub mcserver_state: MinecraftServerState,
    pub gen_state: GeneralState,
}

/// The console entries as the model sees them.
pub open spec fn entries_of(s: Seq<(u32, String)>) -> Seq<(nat, Seq<char>)> {
    Seq::new(s.len(), |i: int| (s[i].0 as nat, s[i].1@))
}

/// The player names as the model sees them.
pub open spec fn names_of(s: Seq<String>) -> Seq<Seq<char>> {
    Seq::new(s.len(), |i: int| s[i]@)
}

impl View for ServerSharedData {
    type V = StatusModel;

    open spec fn view(&self) -> StatusModel {
        StatusModel {
            console: entries_of(self.server_output@),
            next_seq: self.next_line_num as nat,
            players: names_of(self.current_players@),
            player_count: self.current_player_count as nat,
            max_players: self.max_player_count as nat,
            process: self.mcserver_state,
            supervisor: self.gen_state,
        }
    }
}

impl ServerSharedData {
    pub fn new() -> (r: ServerSharedData)
        ensures
            r@.console =~= Seq::<(nat, Seq<char>)>::empty(),
            r@.next_seq == 0,
            r@.players =~= Seq::<Seq<char>>::empty(),
            r@.player_count == 0,
            r@.max_players == 0,
            r@.process == MinecraftServerState::Starting,
            r@.supervisor == GeneralState::Running,
            r@.wf(),
    {
        ServerSharedData {
            server_output: VecDeque::<(u32, String)>::new(),
            next_line_num: 0,
            current_player_count: 0,
            current_players: Vec::<String>::new(),
            max_player_count: 0,
            mcserver_state: MinecraftServerState::Starting,
            gen_state: GeneralState::Running,
        }
    }

    /// Appends one output line to the console buffer and returns the
    /// sequence number it was given.
    pub fn append_console_line(&mut self, line: String) -> (seq_num: u32)
        requires
            old(self).next_line_num < u32::MAX,
        ensures
            final(self)@ =~= m_append(old(self)@, line@),
            seq_num == old(self).next_line_num,
            old(self)@.wf() ==> final(self)@.wf(),
    {
        proof {
            lemma_m_append_wf(old(self)@, line@);
        }
        let n = self.next_line_num;
        let ghost old_out = self.server_output@;
        self.server_output.push_front((n, line));
        let ghost pushed = self.server_output@;
        proof {
            assert(self.server_output@ =~= pushed.take(self.server_output@.len() as int));
        }
        while self.server_output.len() > 1000
            invariant
                pushed == seq![(n, line)] + old_out,
                self.server_output@.len() <= pushed.len(),
                self.server_output@ =~= pushed.take(self.server_output@.len() as int),
                self.server_output@.len() >= 1000 || self.server_output@.len() == pushed.len(),
                self.next_line_num == old(self).next_line_num,
                self.current_player_count == old(self).current_player_count,
                self.current_players == old(self).current_players,
                self.max_player_count == old(self).max_player_count,
                self.mcserver_state == old(self).mcserver_state,
                self.gen_state == old(self).gen_state,
            decreases self.server_output@.len(),
        {
            let ghost k = self.server_output@.len() as int;
            let _evicted = self.server_output.pop_back();
            proof {
                assert(pushed.take(k).subrange(0, k - 1) =~= pushed.take(k - 1));
            }
        }
        self.next_line_num = n + 1;
        proof {
            let m = m_append(old(self)@, line@);
            assert forall|i: int| 0 <= i < self.server_output@.len() implies (
            #[trigger] self@.console[i]) == m.console[i] by {
                assert(self.server_output@[i] == pushed[i]);
                if i > 0 {
                    assert(pushed[i] == old_out[i - 1]);
                }
            }
            assert(final(self)@.console =~= m.console);
        }
        n
    }

    /// Records that `name` joined; idempotent.
    pub fn player_joined(&mut self, name: String)
        requires
            old(self).current_player_count < u32::MAX,
        ensures
            final(self)@ =~= m_joined(old(self)@, name@),
            old(self)@.wf() ==> final(self)@.wf(),
    {
        proof {
            lemma_m_joined_wf(old(self)@, name@);
        }
        if !roster_contains(&self.current_players, name.as_str()) {
            proof {
                assert(!old(self)@.roster_has(name@));
            }
            self.current_players.push(name);
            self.current_player_count = self.current_player_count + 1;
            proof {
                assert(final(self)@.players =~= m_joined(old(self)@, name@).players);
                assert(final(self)@ =~= m_joined(old(self)@, name@));
            }
        } else {
            proof {
                let i = choose|i: int|
                    0 <= i < old(self).current_players@.len() && old(self).current_players@[i]@
                        == name@;
                assert(old(self)@.players[i] == name@);
                assert(old(self)@.roster_has(name@));
            }
        }
    }

    /// Records that `name` left; a no-op when the name is absent. With a
    /// well-formed roster the removed entry is the only one with that name.
    pub fn player_left(&mut self, name: &str)
        requires
            old(self)@.roster_wf(),
        ensures
            final(self)@ =~= m_left(old(self)@, name@),
            old(self)@.wf() ==> final(self)@.wf(),
    {
        proof {
            lemma_m_left_wf(old(self)@, name@);
        }
        match roster_position(&self.current_players, name) {
            Some(i) => {
                proof {
                    assert(old(self)@.players[i as int] == name@);
                    assert(old(self)@.roster_has(name@));
                    let w = choose|w: int|
                        0 <= w < old(self)@.players.len() && old(self)@.players[w] == name@;
                    assert(old(self)@.players[w] == name@);
                    if w != i {
                        assert(old(self)@.players[w] != old(self)@.players[i as int]);
                    }
                }
                self.current_players.remove(i);
                self.current_player_count = self.current_player_count - 1;
                proof {
                    assert(final(self)@.players =~= m_left(old(self)@, name@).players);
                }
            },
            None => {
                proof {
                    assert(!old(self)@.roster_has(name@));
                }
            },
        }
    }

    /// Overwrites the reported maximum capacity.
    pub fn set_max_capacity(&mut self, n: u32)
        ensures
            final(self)@ =~= m_set_max(old(self)@, n as nat),
    {
        self.max_player_count = n;
    }

    /// Overwrites the child-process lifecycle state. Callers validate
    /// legality; no transition table is enforced here.
    pub fn transition_process_state(&mut self, new_state: MinecraftServerState)
        ensures
            final(self)@ =~= (StatusModel { process: new_state, ..old(self)@ }),
    {
        self.mcserver_state = new_state;
    }

    /// Overwrites the supervisor state. Callers validate legality.
    pub fn transition_supervisor_state(&mut self, new_state: GeneralState)
        ensures
            final(self)@ =~= (StatusModel { supervisor: new_state, ..old(self)@ }),
    {
        self.gen_state = new_state;
    }
}

/// Whether `name` occurs among `players`.
pub fn roster_contains(players: &Vec<String>, name: &str) -> (r: bool)
    ensures
        r == exists|i: int| 0 <= i < players@.len() && players@[i]@ == name@,
{
    match roster_position(players, name) {
        Some(_) => true,
        None => false,
    }
}

/// The first position of `name` among `players`, if any.
pub fn roster_position(players: &Vec<String>, name: &str) -> (r: Option<usize>)
    ensures
        match r {
            Some(i) => i < players@.len() && players@[i as int]@ == name@,
            None => forall|i: int| 0 <= i < players@.len() ==> players@[i]@ != name@,
        },
{
    let n = players.len();
    let mut i: usize = 0;
    while i < n
        invariant
            n == players@.len(),
            0 <= i <= n,
            forall|j: int| 0 <= j < i ==> players@[j]@ != name@,
        decreases n - i,
    {
        if crate::text::str_eq(players[i].as_str(), name) {
            return Some(i);
        }
        i = i + 1;
    }
    None
}

} // verus!
