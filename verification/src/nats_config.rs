//! Reading the messaging server's configuration text: key/value lines, a
//! `websocket { ... }` block, and a `listen: host:port` address, folded into
//! a configuration value with defaults for everything the text leaves out.
//! The caller reads the file and hands the lines over.

use vstd::prelude::*;
use crate::text::char_index;
use crate::text::chars_eq_str;
use crate::text::chars_to_string;
use crate::text::copy_range;
use crate::text::count_char;
use crate::text::count_char_exec;
use crate::text::dec_val;
use crate::text::digits_body;
use crate::text::find_char;
use crate::text::is_valid_dec;
use crate::text::parse_u16;
use crate::text::push_str_chars;
use crate::text::str_to_chars;
use crate::text::trim_chars;
use crate::text::trim_quote_chars;
use crate::text::trim_quotes_spec;
use crate::text::trim_spec;

verus! {

/// The messaging server's addresses: where its websocket listener and its
/// client listener stand.
pub struct NatsConfig {
    pub websocket_host: String,
    pub websocket_port: u16,
    pub listen_host: String,
    pub listen_port: u16,
}

impl Default for NatsConfig {
    /// The local defaults used when the configuration text says nothing.
    fn default() -> (r: Self)
        ensures
            r.websocket_host@ == "127.0.0.1"@,
            r.websocket_port == 9090,
            r.listen_host@ == "127.0.0.1"@,
            r.listen_port == 4222,
    {
        NatsConfig {
            websocket_host: host_default(),
            websocket_port: 9090,
            listen_host: host_default(),
            listen_port: 4222,
        }
    }
}

/// The default host address.
fn host_default() -> (r: String)
    ensures
        r@ == "127.0.0.1"@,
{
    let mut v: Vec<char> = Vec::new();
    push_str_chars(&mut v, "127.0.0.1");
    chars_to_string(&v)
}

/// A key/value line split at its first `:` — or, failing that, its first
/// `=`. The key is trimmed of blanks; the value is trimmed of blanks and
/// then of surrounding quotes.
pub open spec fn parse_key_value_spec(line: Seq<char>) -> Option<(Seq<char>, Seq<char>)> {
    if char_index(line, ':') >= 0 {
        let i = char_index(line, ':');
        Some(
            (
                trim_spec(line.subrange(0, i)),
                trim_quotes_spec(trim_spec(line.subrange(i + 1, line.len() as int))),
            ),
        )
    } else if char_index(line, '=') >= 0 {
        let i = char_index(line, '=');
        Some(
            (
                trim_spec(line.subrange(0, i)),
                trim_quotes_spec(trim_spec(line.subrange(i + 1, line.len() as int))),
            ),
        )
    } else {
        None
    }
}

/// Split one key/value line, as `parse_key_value_spec` describes.
pub fn parse_key_value(line: &str) -> (r: Option<(String, String)>)
    ensures
        match r {
            Some(kv) => parse_key_value_spec(line@) matches Some(m) && kv.0@ == m.0 && kv.1@
                == m.1,
            None => parse_key_value_spec(line@) is None,
        },
{
    let chars = str_to_chars(line);
    let at = match find_char(&chars, ':') {
        Some(i) => Some(i),
        None => find_char(&chars, '='),
    };
    match at {
        Some(i) => {
            let cl: usize = chars.len();
            assert(i < cl);
            let key_raw = copy_range(&chars, 0, i);
            let val_raw = copy_range(&chars, i + 1, cl);
            let key = trim_chars(&key_raw);
            let val = trim_quote_chars(&trim_chars(&val_raw));
            Some((chars_to_string(&key), chars_to_string(&val)))
        },
        None => None,
    }
}

/// An address of the exact shape `host:port` (one colon), split at the
/// colon. Anything else is rejected.
pub open spec fn parse_host_port_spec(addr: Seq<char>) -> Option<(Seq<char>, Seq<char>)> {
    if count_char(addr, ':') == 1 {
        let i = char_index(addr, ':');
        Some((addr.subrange(0, i), addr.subrange(i + 1, addr.len() as int)))
    } else {
        None
    }
}

proof fn lemma_count_one_has_index(addr: Seq<char>, c: char)
    requires
        count_char(addr, c) >= 1,
    ensures
        0 <= char_index(addr, c) < addr.len(),
    decreases addr.len(),
{
    if addr.len() > 0 {
        if addr[0] == c {
        } else {
            if count_char(addr.drop_last(), c) >= 1 {
                lemma_count_one_has_index(addr.drop_last(), c);
                assert(addr.drop_last().drop_first() =~= addr.drop_first().drop_last());
                lemma_char_index_drop_last(addr, c);
            } else {
                assert(addr.last() == c);
                lemma_char_index_last(addr, c);
            }
        }
    }
}

proof fn lemma_char_index_drop_last(s: Seq<char>, c: char)
    requires
        s.len() > 0,
        0 <= char_index(s.drop_last(), c),
    ensures
        char_index(s, c) == char_index(s.drop_last(), c),
    decreases s.len(),
{
    if s.len() > 1 && s[0] != c {
        assert(s.drop_last().drop_first() =~= s.drop_first().drop_last());
        lemma_char_index_drop_last(s.drop_first(), c);
    }
}

proof fn lemma_char_index_last(s: Seq<char>, c: char)
    requires
        s.len() > 0,
        s.last() == c,
    ensures
        0 <= char_index(s, c) < s.len(),
    decreases s.len(),
{
    if s.len() > 1 && s[0] != c {
        lemma_char_index_last(s.drop_first(), c);
    }
}

/// Split a `host:port` address, as `parse_host_port_spec` describes.
pub fn parse_host_port(addr: &str) -> (r: Option<(String, String)>)
    ensures
        match r {
            Some(hp) => parse_host_port_spec(addr@) matches Some(m) && hp.0@ == m.0 && hp.1@
                == m.1,
            None => parse_host_port_spec(addr@) is None,
        },
{
    let chars = str_to_chars(addr);
    let colons = count_char_exec(&chars, ':');
    if colons != 1 {
        return None;
    }
    proof {
        lemma_count_one_has_index(addr@, ':');
    }
    match find_char(&chars, ':') {
        Some(i) => {
            let cl: usize = chars.len();
            assert(i < cl);
            let host = copy_range(&chars, 0, i);
            let port = copy_range(&chars, i + 1, cl);
            Some((chars_to_string(&host), chars_to_string(&port)))
        },
        None => {
            proof {
                assert(false);
            }
            None
        },
    }
}

/// The state of the line-by-line fold: the configuration read so far and
/// whether the cursor stands inside the `websocket { ... }` block.
pub ghost struct NatsParseState {
    pub ws_host: Seq<char>,
    pub ws_port: int,
    pub listen_host: Seq<char>,
    pub listen_port: int,
    pub in_ws: bool,
}

/// The fold's starting state: the defaults, outside any block.
pub open spec fn initial_config_state() -> NatsParseState {
    NatsParseState {
        ws_host: "127.0.0.1"@,
        ws_port: 9090,
        listen_host: "127.0.0.1"@,
        listen_port: 4222,
        in_ws: false,
    }
}

/// `v` denotes a port: a decimal number no larger than `u16::MAX`.
pub open spec fn is_port(v: Seq<char>) -> bool {
    is_valid_dec(v) && dec_val(digits_body(v)) <= u16::MAX
}

/// One configuration line applied to the fold state: comments and blank
/// lines pass; `websocket {` opens and `}` closes the websocket block;
/// inside it, `host` and a well-formed `port` take effect; outside it,
/// `listen` takes a `host:port` address, the port only when it parses.
pub open spec fn config_step(st: NatsParseState, line: Seq<char>) -> NatsParseState {
    let t = trim_spec(line);
    if t.len() == 0 || t[0] == '#' {
        st
    } else if t == "websocket {"@ {
        NatsParseState { in_ws: true, ..st }
    } else if t == "}"@ && st.in_ws {
        NatsParseState { in_ws: false, ..st }
    } else {
        match parse_key_value_spec(t) {
            Some(kv) => {
                if st.in_ws {
                    if kv.0 == "host"@ {
                        NatsParseState { ws_host: kv.1, ..st }
                    } else if kv.0 == "port"@ && is_port(kv.1) {
                        NatsParseState { ws_port: dec_val(digits_body(kv.1)), ..st }
                    } else {
                        st
                    }
                } else if kv.0 == "listen"@ {
                    match parse_host_port_spec(kv.1) {
                        Some(hp) => {
                            let with_host = NatsParseState { listen_host: hp.0, ..st };
                            if is_port(hp.1) {
                                NatsParseState {
                                    listen_port: dec_val(digits_body(hp.1)),
                                    ..with_host
                                }
                            } else {
                                with_host
                            }
                        },
                        None => st,
                    }
                } else {
                    st
                }
            },
            None => st,
        }
    }
}

/// The fold state after all of `lines`, in order.
pub open spec fn run_config(st: NatsParseState, lines: Seq<Seq<char>>) -> NatsParseState
    decreases lines.len(),
{
    if lines.len() == 0 {
        st
    } else {
        run_config(config_step(st, lines[0]), lines.drop_first())
    }
}

/// The views of a list of owned lines.
pub open spec fn lines_view(lines: Seq<String>) -> Seq<Seq<char>> {
    lines.map_values(|s: String| s@)
}

/// Fold the configuration lines into a configuration value, as `run_config`
/// describes from the defaults.
pub fn parse_nats_config(lines: &Vec<String>) -> (c: NatsConfig)
    ensures
        ({
            let m = run_config(initial_config_state(), lines_view(lines@));
            &&& c.websocket_host@ == m.ws_host
            &&& c.websocket_port == m.ws_port
            &&& c.listen_host@ == m.listen_host
            &&& c.listen_port == m.listen_port
        }),
{
    let mut config = NatsConfig::default();
    let mut in_websocket = false;
    let n: usize = lines.len();
    let mut i: usize = 0;
    while i < n
        invariant
            n == lines@.len(),
            i <= n,
            ({
                let m = run_config(initial_config_state(), lines_view(lines@.subrange(0, i as int)));
                &&& config.websocket_host@ == m.ws_host
                &&& config.websocket_port == m.ws_port
                &&& config.listen_host@ == m.listen_host
                &&& config.listen_port == m.listen_port
                &&& in_websocket == m.in_ws
            }),
        decreases n - i,
    {
        let ghost pre = run_config(initial_config_state(), lines_view(lines@.subrange(0, i as int)));
        proof {
            lemma_run_config_snoc(initial_config_state(), lines_view(lines@), i as int);
            assert(lines_view(lines@.subrange(0, i + 1 as int)) =~= lines_view(
                lines@,
            ).subrange(0, i + 1 as int));
            assert(lines_view(lines@.subrange(0, i as int)) =~= lines_view(lines@).subrange(
                0,
                i as int,
            ));
        }
        let line = &lines[i];
        let raw = str_to_chars(line.as_str());
        let t = trim_chars(&raw);
        if t.len() == 0 || t[0] == '#' {
            // comment or blank line
        } else if chars_eq_str(&t, "websocket {") {
            in_websocket = true;
        } else if chars_eq_str(&t, "}") && in_websocket {
            in_websocket = false;
        } else {
            let t_string = chars_to_string(&t);
            match parse_key_value(t_string.as_str()) {
                Some(kv) => {
                    let key_chars = str_to_chars(kv.0.as_str());
                    if in_websocket {
                        if chars_eq_str(&key_chars, "host") {
                            config.websocket_host = kv.1;
                        } else if chars_eq_str(&key_chars, "port") {
                            let port_chars = str_to_chars(kv.1.as_str());
                            match parse_u16(&port_chars) {
                                Some(p) => {
                                    config.websocket_port = p;
                                },
                                None => {},
                            }
                        }
                    } else if chars_eq_str(&key_chars, "listen") {
                        match parse_host_port(kv.1.as_str()) {
                            Some(hp) => {
                                config.listen_host = hp.0;
                                let port_chars = str_to_chars(hp.1.as_str());
                                match parse_u16(&port_chars) {
                                    Some(p) => {
                                        config.listen_port = p;
                                    },
                                    None => {},
                                }
                            },
                            None => {},
                        }
                    }
                },
                None => {},
            }
        }
        proof {
            assert(run_config(
                initial_config_state(),
                lines_view(lines@.subrange(0, i + 1 as int)),
            ) == config_step(pre, lines@[i as int]@));
        }
        i = i + 1;
    }
    proof {
        assert(lines_view(lines@.subrange(0, n as int)) =~= lines_view(lines@));
    }
    config
}

proof fn lemma_run_config_snoc(st: NatsParseState, lines: Seq<Seq<char>>, i: int)
    requires
        0 <= i < lines.len(),
    ensures
        run_config(st, lines.subrange(0, i + 1)) == config_step(
            run_config(st, lines.subrange(0, i)),
            lines[i],
        ),
    decreases i,
{
    if i == 0 {
        assert(lines.subrange(0, 1).drop_first() =~= Seq::<Seq<char>>::empty());
        assert(lines.subrange(0, 1)[0] == lines[0]);
        assert(lines.subrange(0, 0) =~= Seq::<Seq<char>>::empty());
        assert(run_config(st, Seq::<Seq<char>>::empty()) == st);
        assert(run_config(config_step(st, lines[0]), Seq::<Seq<char>>::empty()) == config_step(
            st,
            lines[0],
        ));
        assert(run_config(st, lines.subrange(0, 1)) == run_config(
            config_step(st, lines.subrange(0, 1)[0]),
            lines.subrange(0, 1).drop_first(),
        ));
    } else {
        assert(lines.subrange(0, i + 1)[0] == lines[0]);
        assert(lines.subrange(0, i)[0] == lines[0]);
        assert(lines.subrange(0, i + 1).drop_first() =~= lines.drop_first().subrange(0, i));
        assert(lines.subrange(0, i).drop_first() =~= lines.drop_first().subrange(0, i - 1));
        assert(lines.drop_first()[i - 1] == lines[i]);
        lemma_run_config_snoc(config_step(st, lines[0]), lines.drop_first(), i - 1);
        assert(run_config(st, lines.subrange(0, i + 1)) == run_config(
            config_step(st, lines.subrange(0, i + 1)[0]),
            lines.subrange(0, i + 1).drop_first(),
        ));
        assert(run_config(st, lines.subrange(0, i)) == run_config(
            config_step(st, lines.subrange(0, i)[0]),
            lines.subrange(0, i).drop_first(),
        ));
    }
}

} // verus!
