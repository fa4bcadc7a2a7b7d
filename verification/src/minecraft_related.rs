//! Output-line classification: turning one line of the child process's
//! output into a status event and applying it to the shared status. The
//! classification is total — a malformed line is inert, never an error.
use vstd::prelude::*;

verus! {

use crate::shared_data::{
    lemma_m_append_wf, lemma_m_joined_wf, lemma_m_left_wf, m_append, m_joined, m_left, m_set_max,
    MinecraftServerState, ServerSharedData, StatusModel,
};
use crate::text::{
    all_digits, chomp, dec_val, find_char, find_sub, first_match_of, first_of, has_prefix,
    parse_u32, starts_with, str_eq,
};

/// A username is non-empty and made of ASCII alphanumerics and underscores.
pub open spec fn is_name_char(c: char) -> bool {
    ||| ('a' <= c && c <= 'z')
    ||| ('A' <= c && c <= 'Z')
    ||| ('0' <= c && c <= '9')
    ||| c == '_'
}

/// See [`valid_username`].
pub open spec fn spec_valid_username(s: Seq<char>) -> bool {
    s.len() > 0 && forall|i: int| 0 <= i < s.len() ==> is_name_char(s[i])
}

/// Accepts exactly the non-empty strings of ASCII alphanumerics and `_`.
pub fn valid_username(name: &str) -> (r: bool)
    ensures
        r == spec_valid_username(name@),
{
    let n = name.unicode_len();
    if n == 0 {
        return false;
    }
    let mut i: usize = 0;
    while i < n
        invariant
            n == name@.len(),
            0 <= i <= n,
            forall|j: int| 0 <= j < i ==> is_name_char(name@[j]),
        decreases n - i,
    {
        let c = name.get_char(i);
        let v = c as u32;
        let ok = (97 <= v && v <= 122) || (65 <= v && v <= 90) || (48 <= v && v <= 57) || v == 95;
        if !ok {
            assert(!is_name_char(name@[i as int]));
            return false;
        }
        i = i + 1;
    }
    true
}

/// What one output line means for the status, at the specification level.
pub enum SpecEvent {
    MaxPlayers(nat),
    Ready,
    Closing,
    Joined(Seq<char>),
    Left(Seq<char>),
    Inert,
}

/// What one output line means for the status.
pub enum LineEvent {
    MaxPlayers(u32),
    Ready,
    Closing,
    Joined(String),
    Left(String),
    Inert,
}

impl View for LineEvent {
    type V = SpecEvent;

    open spec fn view(&self) -> SpecEvent {
        match self {
            LineEvent::MaxPlayers(v) => SpecEvent::MaxPlayers(*v as nat),
            LineEvent::Ready => SpecEvent::Ready,
            LineEvent::Closing => SpecEvent::Closing,
            LineEvent::Joined(name) => SpecEvent::Joined(name@),
            LineEvent::Left(name) => SpecEvent::Left(name@),
            LineEvent::Inert => SpecEvent::Inert,
        }
    }
}

/// The capacity announcement `There are <current> of a max of <max> players`:
/// the number after the first space and the fixed ` of a max of ` filler is
/// the reported maximum. Anything that does not fit the shape is inert.
pub open spec fn capacity_event(line: Seq<char>) -> SpecEvent {
    let list = line.skip(10);
    match first_of(list, ' ') {
        Some(sp) => if sp + 13 > list.len() {
            SpecEvent::Inert
        } else {
            let latter = list.skip(sp + 13);
            let num = match first_of(latter, ' ') {
                Some(e) => latter.take(e),
                None => latter,
            };
            if num.len() > 0 && all_digits(num) && dec_val(num) <= u32::MAX {
                SpecEvent::MaxPlayers(dec_val(num))
            } else {
                SpecEvent::Inert
            }
        },
        None => SpecEvent::Inert,
    }
}

/// Classification of one output line of the child process: the capacity
/// announcement, the startup-complete announcement, the shutdown
/// announcement, and join/leave lines with a valid username; everything else
/// is inert chat. A single trailing newline is ignored throughout.
pub open spec fn spec_classify(content: Seq<char>) -> SpecEvent {
    let line = chomp(content);
    if starts_with(line, "There are "@) {
        capacity_event(line)
    } else if starts_with(line, "Done ("@) {
        match first_match_of(line, ")!"@) {
            Some(i) => if line.skip(i) == ")! For help, type \"help\""@ {
                SpecEvent::Ready
            } else {
                SpecEvent::Inert
            },
            None => SpecEvent::Inert,
        }
    } else if line == "Closing Server"@ {
        SpecEvent::Closing
    } else {
        match first_of(line, ' ') {
            Some(sp) => {
                let name = line.take(sp);
                let rest = line.skip(sp + 1);
                if !spec_valid_username(name) {
                    SpecEvent::Inert
                } else if rest == "joined the game"@ {
                    SpecEvent::Joined(name)
                } else if rest == "left the game"@ {
                    SpecEvent::Left(name)
                } else {
                    SpecEvent::Inert
                }
            },
            None => SpecEvent::Inert,
        }
    }
}

/// Classifies one output line, totally: a malformed line yields
/// [`LineEvent::Inert`].
pub fn classify_line(content: &str) -> (e: LineEvent)
    ensures
        e@ == spec_classify(content@),
{
    let n0 = content.unicode_len();
    let line: &str = if n0 > 0 && content.get_char(n0 - 1) == '\n' {
        content.substring_char(0, n0 - 1)
    } else {
        content
    };
    proof {
        assert(chomp(content@) =~= line@);
    }
    let n = line.unicode_len();
    if has_prefix(line, "There are ") {
        proof {
            reveal_strlit("There are ");
        }
        let list = line.substring_char(10, n);
        let list_len = n - 10;
        match find_char(list, ' ') {
            Some(sp) => {
                if list_len < 13 || sp > list_len - 13 {
                    LineEvent::Inert
                } else {
                    let latter = list.substring_char(sp + 13, list_len);
                    proof {
                        assert(latter@ =~= list@.skip(sp + 13));
                    }
                    let num: &str = match find_char(latter, ' ') {
                        Some(e) => latter.substring_char(0, e),
                        None => latter,
                    };
                    match parse_u32(num) {
                        Some(v) => LineEvent::MaxPlayers(v),
                        None => LineEvent::Inert,
                    }
                }
            },
            None => LineEvent::Inert,
        }
    } else if has_prefix(line, "Done (") {
        match find_sub(line, ")!") {
            Some(i) => {
                let tail = line.substring_char(i, n);
                proof {
                    assert(tail@ =~= line@.skip(i as int));
                }
                if str_eq(tail, ")! For help, type \"help\"") {
                    LineEvent::Ready
                } else {
                    LineEvent::Inert
                }
            },
            None => LineEvent::Inert,
        }
    } else if str_eq(line, "Closing Server") {
        LineEvent::Closing
    } else {
        match find_char(line, ' ') {
            Some(sp) => {
                let name = line.substring_char(0, sp);
                let rest = line.substring_char(sp + 1, n);
                proof {
                    assert(name@ =~= line@.take(sp as int));
                    assert(rest@ =~= line@.skip(sp + 1));
                }
                if !valid_username(name) {
                    LineEvent::Inert
                } else if str_eq(rest, "joined the game") {
                    LineEvent::Joined(String::from_str(name))
                } else if str_eq(rest, "left the game") {
                    LineEvent::Left(String::from_str(name))
                } else {
                    LineEvent::Inert
                }
            },
            None => LineEvent::Inert,
        }
    }
}

/// The status after one classified line is applied.
pub open spec fn m_apply(m: StatusModel, e: SpecEvent) -> StatusModel {
    match e {
        SpecEvent::MaxPlayers(v) => m_set_max(m, v),
        SpecEvent::Ready => StatusModel { process: MinecraftServerState::Running, ..m },
        SpecEvent::Closing => StatusModel { process: MinecraftServerState::Off, ..m },
        SpecEvent::Joined(name) => m_joined(m, name),
        SpecEvent::Left(name) => m_left(m, name),
        SpecEvent::Inert => m,
    }
}

/// Applying any classified event preserves the status invariant.
pub proof fn lemma_m_apply_wf(m: StatusModel, e: SpecEvent)
    ensures
        m.wf() ==> m_apply(m, e).wf(),
{
    match e {
        SpecEvent::Joined(name) => lemma_m_joined_wf(m, name),
        SpecEvent::Left(name) => lemma_m_left_wf(m, name),
        _ => {},
    }
}

/// Classifies one already-stripped output line and applies the resulting
/// event to the shared status.
pub fn server_output_scanning(line_content: &str, data: &mut ServerSharedData)
    requires
        old(data)@.roster_wf(),
        old(data).current_player_count < u32::MAX,
    ensures
        final(data)@ == m_apply(old(data)@, spec_classify(line_content@)),
        old(data)@.wf() ==> final(data)@.wf(),
{
    proof {
        lemma_m_apply_wf(old(data)@, spec_classify(line_content@));
    }
    let event = classify_line(line_content);
    match event {
        LineEvent::MaxPlayers(v) => data.set_max_capacity(v),
        LineEvent::Ready => data.transition_process_state(MinecraftServerState::Running),
        LineEvent::Closing => data.transition_process_state(MinecraftServerState::Off),
        LineEvent::Joined(name) => data.player_joined(name),
        LineEvent::Left(name) => data.player_left(name.as_str()),
        LineEvent::Inert => {},
    }
}

/// The status after one raw output line of the child process: a non-empty
/// line is appended to the console, and once the fixed 17-character
/// timestamp/log-level prefix is stripped the remainder is classified and
/// applied. A line too short to carry the prefix yields no event.
pub open spec fn m_process_line(m: StatusModel, line: Seq<char>) -> StatusModel {
    let m1 = if line.len() > 0 {
        m_append(m, line)
    } else {
        m
    };
    if line.len() >= 17 {
        m_apply(m1, spec_classify(line.skip(17)))
    } else {
        m1
    }
}

/// One full step of the output scanner on one raw line.
pub fn process_output_line(line: String, data: &mut ServerSharedData)
    requires
        old(data)@.roster_wf(),
        old(data).next_line_num < u32::MAX,
        old(data).current_player_count < u32::MAX,
    ensures
        final(data)@ == m_process_line(old(data)@, line@),
        old(data)@.wf() ==> final(data)@.wf(),
{
    proof {
        let m1 = if line@.len() > 0 {
            m_append(old(data)@, line@)
        } else {
            old(data)@
        };
        lemma_m_append_wf(old(data)@, line@);
        if line@.len() >= 17 {
            lemma_m_apply_wf(m1, spec_classify(line@.skip(17)));
        }
    }
    let n = line.as_str().unicode_len();
    let content: Option<String> = if n >= 17 {
        Some(String::from_str(line.as_str().substring_char(17, n)))
    } else {
        None
    };
    if n > 0 {
        data.append_console_line(line);
    }
    match content {
        Some(c) => {
            proof {
                assert(c@ =~= line@.skip(17));
            }
            server_output_scanning(c.as_str(), data);
        },
        None => {},
    }
}

} // verus!
