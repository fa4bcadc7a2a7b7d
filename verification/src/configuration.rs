//! Validation of startup-configuration values. Each `verify_*` function
//! accepts or rejects one setting; rejection is an `Option::None` for the
//! embedding program to treat as fatal at startup. Reading the configuration
//! file and the command line is the embedding program's job.
use vstd::prelude::*;

verus! {

use crate::text::{
    all_digits, dec_val, find_char, first_of, has_suffix, parse_u16, parse_u32, str_eq,
};

/// Which of the child process's and the web server's events are echoed to
/// the terminal.
#[derive(Clone, Copy, PartialEq, Eq, Structural, Debug)]
pub enum Verbosity {
    Silent,
    Mine,
    Web,
    MineWeb,
}

/// A valid dotted-quad octet: one to three digits, value at most 255, no
/// leading zero.
pub open spec fn spec_octet_ok(s: Seq<char>) -> bool {
    &&& 1 <= s.len() <= 3
    &&& all_digits(s)
    &&& dec_val(s) <= 255
    &&& (s[0] == '0' ==> s.len() == 1)
}

/// A numeral of at most three digits stays below 1000.
proof fn lemma_dec_val_three_digits(s: Seq<char>)
    requires
        all_digits(s),
        s.len() <= 3,
    ensures
        dec_val(s) <= 999,
    decreases s.len(),
{
    if s.len() > 0 {
        let p = s.drop_last();
        assert(all_digits(p));
        lemma_dec_val_three_digits(p);
        if s.len() == 1 {
            assert(dec_val(p) == 0);
        } else if s.len() == 2 {
            assert(dec_val(p) <= 9) by {
                assert(p.len() == 1);
                assert(dec_val(p.drop_last()) == 0);
            }
        } else {
            assert(dec_val(p) <= 99) by {
                assert(dec_val(p.drop_last()) <= 9) by {
                    assert(dec_val(p.drop_last().drop_last()) == 0);
                }
            }
        }
        assert(crate::text::digit_val(s.last()) <= 9);
    }
}

/// Parses one dotted-quad octet.
fn parse_octet(s: &str) -> (r: Option<u8>)
    ensures
        match r {
            Some(v) => spec_octet_ok(s@) && v == dec_val(s@),
            None => !spec_octet_ok(s@),
        },
{
    let n = s.unicode_len();
    if n == 0 || n > 3 {
        return None;
    }
    if n > 1 && s.get_char(0) == '0' {
        return None;
    }
    match parse_u32(s) {
        Some(v) => {
            if v <= 255 {
                Some(v as u8)
            } else {
                None
            }
        },
        None => {
            proof {
                if all_digits(s@) {
                    lemma_dec_val_three_digits(s@);
                }
            }
            None
        },
    }
}

/// The dotted-quad reading of an address: four valid octets separated by
/// exactly three dots.
pub open spec fn spec_parse_ipv4(s: Seq<char>) -> Option<(nat, nat, nat, nat)> {
    match first_of(s, '.') {
        Some(d1) => {
            let a = s.take(d1);
            let r1 = s.skip(d1 + 1);
            match first_of(r1, '.') {
                Some(d2) => {
                    let b = r1.take(d2);
                    let r2 = r1.skip(d2 + 1);
                    match first_of(r2, '.') {
                        Some(d3) => {
                            let c = r2.take(d3);
                            let d = r2.skip(d3 + 1);
                            if first_of(d, '.') == None::<int> && spec_octet_ok(a) && spec_octet_ok(
                                b,
                            ) && spec_octet_ok(c) && spec_octet_ok(d) {
                                Some((dec_val(a), dec_val(b), dec_val(c), dec_val(d)))
                            } else {
                                None
                            }
                        },
                        None => None,
                    }
                },
                None => None,
            }
        },
        None => None,
    }
}

/// Validates a web-server address: a dotted quad, returned as its four
/// octets.
pub fn verify_address(arg: String) -> (r: Option<(u8, u8, u8, u8)>)
    ensures
        match r {
            Some(q) => spec_parse_ipv4(arg@) == Some(
                (q.0 as nat, q.1 as nat, q.2 as nat, q.3 as nat),
            ),
            None => spec_parse_ipv4(arg@) == None::<(nat, nat, nat, nat)>,
        },
{
    let s = arg.as_str();
    let n = s.unicode_len();
    match find_char(s, '.') {
        Some(d1) => {
            let part_a = s.substring_char(0, d1);
            let rest1 = s.substring_char(d1 + 1, n);
            proof {
                assert(part_a@ =~= s@.take(d1 as int));
                assert(rest1@ =~= s@.skip(d1 + 1));
            }
            let n1 = n - d1 - 1;
            match find_char(rest1, '.') {
                Some(d2) => {
                    let part_b = rest1.substring_char(0, d2);
                    let rest2 = rest1.substring_char(d2 + 1, n1);
                    proof {
                        assert(part_b@ =~= rest1@.take(d2 as int));
                        assert(rest2@ =~= rest1@.skip(d2 + 1));
                    }
                    let n2 = n1 - d2 - 1;
                    match find_char(rest2, '.') {
                        Some(d3) => {
                            let part_c = rest2.substring_char(0, d3);
                            let part_d = rest2.substring_char(d3 + 1, n2);
                            proof {
                                assert(part_c@ =~= rest2@.take(d3 as int));
                                assert(part_d@ =~= rest2@.skip(d3 + 1));
                            }
                            match find_char(part_d, '.') {
                                Some(_) => None,
                                None => {
                                    let a = parse_octet(part_a);
                                    let b = parse_octet(part_b);
                                    let c = parse_octet(part_c);
                                    let d = parse_octet(part_d);
                                    match (a, b, c, d) {
                                        (Some(a), Some(b), Some(c), Some(d)) => Some((a, b, c, d)),
                                        _ => None,
                                    }
                                },
                            }
                        },
                        None => None,
                    }
                },
                None => None,
            }
        },
        None => None,
    }
}

/// Validates a port: a decimal number that fits in sixteen bits.
pub fn verify_port(arg: String) -> (r: Option<u16>)
    ensures
        match r {
            Some(p) => arg@.len() > 0 && all_digits(arg@) && dec_val(arg@) <= u16::MAX && p
                == dec_val(arg@),
            None => arg@.len() == 0 || !all_digits(arg@) || dec_val(arg@) > u16::MAX,
        },
{
    parse_u16(arg.as_str())
}

/// Validates a server-archive name: it must name something before a `.jar`
/// extension.
pub fn verify_jar(arg: String) -> (r: Option<String>)
    ensures
        match r {
            Some(s) => s == arg && arg@.len() > 4 && arg@.skip(arg@.len() - 4) == ".jar"@,
            None => !(arg@.len() > 4 && arg@.skip(arg@.len() - 4) == ".jar"@),
        },
{
    proof {
        reveal_strlit(".jar");
    }
    let n = arg.as_str().unicode_len();
    if n > 4 && has_suffix(arg.as_str(), ".jar") {
        Some(arg)
    } else {
        None
    }
}

/// Resolves the general-arguments setting: the word `off` means none.
pub fn verify_general_args(arg: String) -> (r: Option<String>)
    ensures
        arg@ == "off"@ ==> r == None::<String>,
        arg@ != "off"@ ==> (r matches Some(s) && s == arg),
{
    if str_eq(arg.as_str(), "off") {
        None
    } else {
        Some(arg)
    }
}

/// A valid RAM amount: a non-empty number followed by a `K`, `M` or `G`
/// unit.
pub open spec fn spec_ram_ok(s: Seq<char>) -> bool {
    &&& s.len() >= 2
    &&& (s.last() == 'K' || s.last() == 'M' || s.last() == 'G')
    &&& all_digits(s.drop_last())
    &&& dec_val(s.drop_last()) <= u32::MAX
}

/// Validates the minimum-RAM setting.
pub fn verify_min_ram(arg: String) -> (r: Option<String>)
    ensures
        match r {
            Some(s) => s == arg && spec_ram_ok(arg@),
            None => !spec_ram_ok(arg@),
        },
{
    verify_ram_amount(arg)
}

/// Validates the maximum-RAM setting.
pub fn verify_max_ram(arg: String) -> (r: Option<String>)
    ensures
        match r {
            Some(s) => s == arg && spec_ram_ok(arg@),
            None => !spec_ram_ok(arg@),
        },
{
    verify_ram_amount(arg)
}

/// See [`spec_ram_ok`].
fn verify_ram_amount(arg: String) -> (r: Option<String>)
    ensures
        match r {
            Some(s) => s == arg && spec_ram_ok(arg@),
            None => !spec_ram_ok(arg@),
        },
{
    let s = arg.as_str();
    let n = s.unicode_len();
    if n < 2 {
        return None;
    }
    let unit = s.get_char(n - 1);
    if !(unit == 'K' || unit == 'M' || unit == 'G') {
        return None;
    }
    let prefix = s.substring_char(0, n - 1);
    proof {
        assert(prefix@ =~= arg@.drop_last());
    }
    match parse_u32(prefix) {
        Some(_) => Some(arg),
        None => None,
    }
}

/// Validates the web-log flag: the words `true` and `false` only.
pub fn verify_web_log(arg: String) -> (r: Option<bool>)
    ensures
        arg@ == "true"@ ==> r == Some(true),
        arg@ == "false"@ ==> r == Some(false),
        arg@ != "true"@ && arg@ != "false"@ ==> r == None::<bool>,
{
    parse_bool_word(arg.as_str())
}

/// Validates the download-web-directory flag: `true` and `false` only.
pub fn verify_download_web(arg: String) -> (r: Option<bool>)
    ensures
        arg@ == "true"@ ==> r == Some(true),
        arg@ == "false"@ ==> r == Some(false),
        arg@ != "true"@ && arg@ != "false"@ ==> r == None::<bool>,
{
    parse_bool_word(arg.as_str())
}

/// The words `true` and `false`, and nothing else.
fn parse_bool_word(s: &str) -> (r: Option<bool>)
    ensures
        s@ == "true"@ ==> r == Some(true),
        s@ == "false"@ ==> r == Some(false),
        s@ != "true"@ && s@ != "false"@ ==> r == None::<bool>,
{
    proof {
        reveal_strlit("true");
        reveal_strlit("false");
        assert("true"@.len() == 4);
        assert("false"@.len() == 5);
    }
    if str_eq(s, "true") {
        Some(true)
    } else if str_eq(s, "false") {
        Some(false)
    } else {
        None
    }
}

/// Validates the verbosity setting.
pub fn verify_verbosity(arg: String) -> (r: Option<Verbosity>)
    ensures
        arg@ == "none"@ ==> r == Some(Verbosity::Silent),
        arg@ == "mine"@ ==> r == Some(Verbosity::Mine),
        arg@ == "web"@ ==> r == Some(Verbosity::Web),
        arg@ == "mineweb"@ ==> r == Some(Verbosity::MineWeb),
        arg@ != "none"@ && arg@ != "mine"@ && arg@ != "web"@ && arg@ != "mineweb"@ ==> r
            == None::<Verbosity>,
{
    proof {
        reveal_strlit("none");
        reveal_strlit("mine");
        reveal_strlit("web");
        reveal_strlit("mineweb");
        assert("none"@.len() == 4 && "none"@[0] == 'n');
        assert("mine"@.len() == 4 && "mine"@[0] == 'm');
        assert("web"@.len() == 3);
        assert("mineweb"@.len() == 7);
    }
    let s = arg.as_str();
    if str_eq(s, "none") {
        Some(Verbosity::Silent)
    } else if str_eq(s, "mine") {
        Some(Verbosity::Mine)
    } else if str_eq(s, "web") {
        Some(Verbosity::Web)
    } else if str_eq(s, "mineweb") {
        Some(Verbosity::MineWeb)
    } else {
        None
    }
}

/// One line of the configuration file: ignorable, a key/value setting, or
/// malformed.
pub enum ConfigLine {
    Skip,
    Entry(String, String),
    Malformed,
}

/// How one configuration line reads: empty lines and `#` comments are
/// skipped; otherwise the key runs up to the first `=`, the value starts two
/// characters after it, and the line's last character is dropped; a line
/// without `=` or without room for a value is malformed.
pub open spec fn spec_config_line(line: Seq<char>) -> Option<Option<(Seq<char>, Seq<char>)>> {
    if line.len() == 0 || line[0] == '#' {
        Some(None)
    } else {
        match first_of(line, '=') {
            Some(eq) => if eq + 2 <= line.len() - 1 {
                Some(Some((line.take(eq), line.subrange(eq + 2, line.len() - 1))))
            } else {
                None
            },
            None => None,
        }
    }
}

/// Splits one configuration line; see [`spec_config_line`].
pub fn split_config_line(line: &str) -> (r: ConfigLine)
    ensures
        match r {
            ConfigLine::Skip => spec_config_line(line@) == Some(None::<(Seq<char>, Seq<char>)>),
            ConfigLine::Entry(k, v) => spec_config_line(line@) == Some(Some((k@, v@))),
            ConfigLine::Malformed => spec_config_line(line@) == None::<
                Option<(Seq<char>, Seq<char>)>,
            >,
        },
{
    let n = line.unicode_len();
    if n == 0 || line.get_char(0) == '#' {
        return ConfigLine::Skip;
    }
    match find_char(line, '=') {
        Some(eq) => {
            if n - eq >= 3 {
                let key = line.substring_char(0, eq);
                let value = line.substring_char(eq + 2, n - 1);
                proof {
                    assert(key@ =~= line@.take(eq as int));
                    assert(value@ =~= line@.subrange(eq + 2, line@.len() - 1));
                }
                ConfigLine::Entry(String::from_str(key), String::from_str(value))
            } else {
                ConfigLine::Malformed
            }
        },
        None => ConfigLine::Malformed,
    }
}

} // verus!
