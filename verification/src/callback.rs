//! The redirect-callback endpoint's logic: extract the `code` query
//! parameter from a redirect request and answer with the fixed confirmation
//! page, and the listener's start-once state machine.
//!
//! The HTTP server itself is I/O and lives outside this crate.

use vstd::prelude::*;
use crate::chars::{str_chars, chars_string};
use vstd::string::StringExecFns;

verus! {

/// Whether `c` is an ASCII hex digit.
pub open spec fn is_hex_digit(c: char) -> bool {
    ('0' <= c && c <= '9') || ('a' <= c && c <= 'f') || ('A' <= c && c <= 'F')
}

/// The value of an ASCII hex digit.
pub open spec fn hex_val(c: char) -> int {
    if '0' <= c && c <= '9' {
        (c as int) - ('0' as int)
    } else if 'a' <= c && c <= 'f' {
        (c as int) - ('a' as int) + 10
    } else {
        (c as int) - ('A' as int) + 10
    }
}

/// The first index of `c` in `s`, or `s.len()` if `c` does not occur.
pub open spec fn find_char(s: Seq<char>, c: char) -> nat
    decreases s.len(),
{
    if s.len() == 0 {
        0
    } else if s[0] == c {
        0
    } else {
        1 + find_char(s.skip(1), c)
    }
}

/// `find_char` returns the first occurrence: it is within bounds, points at
/// `c` when `c` occurs, and nothing before it is `c`.
pub proof fn lemma_find_char(s: Seq<char>, c: char)
    ensures
        0 <= find_char(s, c) <= s.len(),
        find_char(s, c) < s.len() ==> s[find_char(s, c) as int] == c,
        forall|j: int| 0 <= j < find_char(s, c) ==> s[j] != c,
    decreases s.len(),
{
    if s.len() == 0 {
    } else if s[0] == c {
    } else {
        lemma_find_char(s.skip(1), c);
        let f = find_char(s, c);
        assert forall|j: int| 0 <= j < f implies s[j] != c by {
            if j > 0 {
                assert(s.skip(1)[j - 1] == s[j]);
            }
        }
        if f < s.len() {
            assert(s.skip(1)[f - 1] == s[f as int]);
        }
    }
}

/// Scan `v` from `pos` for `c`; the absolute index of the first occurrence,
/// or `v.len()` if there is none at or after `pos`.
pub fn find_char_from(v: &Vec<char>, pos: usize, c: char) -> (r: usize)
    requires
        pos <= v@.len(),
    ensures
        r == pos + find_char(v@.skip(pos as int), c),
        pos <= r <= v@.len(),
{
    let n = v.len();
    let mut i = pos;
    while i < n
        invariant
            pos <= i <= n,
            n == v@.len(),
            forall|j: int| pos <= j < i ==> v@[j] != c,
        decreases n - i,
    {
        if v[i] == c {
            proof {
                lemma_find_char(v@.skip(pos as int), c);
                let s = v@.skip(pos as int);
                let f = find_char(s, c);
                assert(s[i - pos] == v@[i as int]);
                assert(forall|j: int| 0 <= j < f ==> s[j] != c);
                if f < i - pos {
                    assert(v@[f + pos] == s[f as int]);
                }
                if f > i - pos {
                    assert(s[i - pos] != c);
                }
            }
            return i;
        }
        i = i + 1;
    }
    proof {
        lemma_find_char(v@.skip(pos as int), c);
        let s = v@.skip(pos as int);
        let f = find_char(s, c);
        if f < s.len() {
            assert(v@[f + pos] == s[f as int]);
        }
    }
    n
}

/// The `application/x-www-form-urlencoded` decoding of a query component:
/// `+` becomes a space and `%xx` (ASCII only, so `xx < 80`) becomes the
/// escaped character; a truncated, non-hex or non-ASCII escape makes the
/// component undecodable.
pub open spec fn form_decode(s: Seq<char>) -> Option<Seq<char>>
    decreases s.len(),
{
    if s.len() == 0 {
        Some(Seq::empty())
    } else if s[0] == '%' {
        if s.len() >= 3 && is_hex_digit(s[1]) && is_hex_digit(s[2]) && hex_val(s[1]) * 16
            + hex_val(s[2]) < 128 {
            match form_decode(s.skip(3)) {
                None => None,
                Some(r) => Some(
                    seq![((hex_val(s[1]) * 16 + hex_val(s[2])) as u8) as char] + r,
                ),
            }
        } else {
            None
        }
    } else {
        match form_decode(s.skip(1)) {
            None => None,
            Some(r) => Some(seq![if s[0] == '+' { ' ' } else { s[0] }] + r),
        }
    }
}

/// The hex digit's value, or `None` for any other character.
fn hex_digit_value(c: char) -> (r: Option<u8>)
    ensures
        r is Some <==> is_hex_digit(c),
        r is Some ==> r.unwrap() == hex_val(c),
{
    if '0' <= c && c <= '9' {
        Some((c as u8) - ('0' as u8))
    } else if 'a' <= c && c <= 'f' {
        Some((c as u8) - ('a' as u8) + 10)
    } else if 'A' <= c && c <= 'F' {
        Some((c as u8) - ('A' as u8) + 10)
    } else {
        None
    }
}

/// Decode `v` from `pos` on as a form-encoded component.
fn form_decode_from(v: &Vec<char>, pos: usize) -> (r: Option<Vec<char>>)
    requires
        pos <= v@.len(),
    ensures
        r is Some <==> form_decode(v@.skip(pos as int)) is Some,
        r is Some ==> r.unwrap()@ == form_decode(v@.skip(pos as int)).unwrap(),
    decreases v@.len() - pos,
{
    let ghost s = v@.skip(pos as int);
    if pos == v.len() {
        proof {
            assert(s.len() == 0);
        }
        Some(Vec::new())
    } else if v[pos] == '%' {
        proof {
            assert(s[0] == v@[pos as int]);
        }
        if v.len() - pos >= 3 {
            let h1 = hex_digit_value(v[pos + 1]);
            let h2 = hex_digit_value(v[pos + 2]);
            match (h1, h2) {
                (Some(a), Some(b)) => {
                    let value: u8 = a * 16 + b;
                    proof {
                        assert(s[1] == v@[pos + 1]);
                        assert(s[2] == v@[pos + 2]);
                        assert(hex_val(s[1]) < 16 && hex_val(s[2]) < 16);
                    }
                    if value < 128 {
                        match form_decode_from(v, pos + 3) {
                            None => {
                                proof {
                                    assert(s.skip(3) =~= v@.skip(pos + 3 as int));
                                }
                                None
                            },
                            Some(rest) => {
                                let mut out: Vec<char> = Vec::new();
                                out.push(value as char);
                                let mut i: usize = 0;
                                let n = rest.len();
                                while i < n
                                    invariant
                                        i <= n,
                                        n == rest@.len(),
                                        out@ == seq![(value as u8) as char] + rest@.take(i as int),
                                    decreases n - i,
                                {
                                    out.push(rest[i]);
                                    proof {
                                        assert(out@ =~= seq![(value as u8) as char] + rest@.take(
                                            i + 1 as int,
                                        ));
                                    }
                                    i = i + 1;
                                }
                                proof {
                                    assert(rest@.take(n as int) =~= rest@);
                                    assert(s.skip(3) =~= v@.skip(pos + 3 as int));
                                }
                                Some(out)
                            },
                        }
                    } else {
                        None
                    }
                },
                _ => {
                    proof {
                        assert(s[1] == v@[pos + 1]);
                        assert(s[2] == v@[pos + 2]);
                    }
                    None
                },
            }
        } else {
            None
        }
    } else {
        proof {
            assert(s[0] == v@[pos as int]);
        }
        let c = v[pos];
        let decoded = if c == '+' {
            ' '
        } else {
            c
        };
        match form_decode_from(v, pos + 1) {
            None => {
                proof {
                    assert(s.skip(1) =~= v@.skip(pos + 1 as int));
                }
                None
            },
            Some(rest) => {
                let mut out: Vec<char> = Vec::new();
                out.push(decoded);
                let mut i: usize = 0;
                let n = rest.len();
                while i < n
                    invariant
                        i <= n,
                        n == rest@.len(),
                        out@ == seq![decoded] + rest@.take(i as int),
                    decreases n - i,
                {
                    out.push(rest[i]);
                    proof {
                        assert(out@ =~= seq![decoded] + rest@.take(i + 1 as int));
                    }
                    i = i + 1;
                }
                proof {
                    assert(rest@.take(n as int) =~= rest@);
                    assert(s.skip(1) =~= v@.skip(pos + 1 as int));
                }
                Some(out)
            },
        }
    }
}

/// The decoded value of the first `code` parameter of a query string:
/// segments are separated by `&`, a segment's key is what precedes its
/// first `=` (the whole segment when it has none, with an empty value), and
/// the value is form-decoded. `None` when no segment has the key `code`, or
/// when the one found first has an undecodable value.
pub open spec fn first_code_value(s: Seq<char>) -> Option<Seq<char>>
    decreases s.len(),
{
    let e = find_char(s, '&');
    let k = find_char(s, '=');
    let key = s.take(if k < e { k as int } else { e as int });
    let val = if k < e { s.subrange(k + 1 as int, e as int) } else { Seq::<char>::empty() };
    if key == "code"@ {
        form_decode(val)
    } else if e < s.len() {
        first_code_value(s.skip(e + 1 as int))
    } else {
        None
    }
}

/// Scan `v` from `pos` for the first `code` parameter and decode its value.
fn first_code_from(v: &Vec<char>, pos: usize) -> (r: Option<Vec<char>>)
    requires
        pos <= v@.len(),
    ensures
        r is Some <==> first_code_value(v@.skip(pos as int)) is Some,
        r is Some ==> r.unwrap()@ == first_code_value(v@.skip(pos as int)).unwrap(),
    decreases v@.len() - pos,
{
    let ghost s = v@.skip(pos as int);
    let e_abs = find_char_from(v, pos, '&');
    let k_abs = find_char_from(v, pos, '=');
    let ghost e = find_char(s, '&');
    let ghost k = find_char(s, '=');
    let key_end = if k_abs < e_abs {
        k_abs
    } else {
        e_abs
    };
    let ghost key = s.take(if k < e { k as int } else { e as int });
    proof {
        assert(key =~= v@.subrange(pos as int, key_end as int));
        reveal_strlit("code");
        assert("code"@.len() == 4);
    }
    let is_code = key_end - pos == 4 && v[pos] == 'c' && v[pos + 1] == 'o' && v[pos + 2] == 'd'
        && v[pos + 3] == 'e';
    proof {
        if is_code {
            assert(key[0] == 'c' && key[1] == 'o' && key[2] == 'd' && key[3] == 'e');
            assert("code"@[0] == 'c' && "code"@[1] == 'o' && "code"@[2] == 'd' && "code"@[3]
                == 'e');
            assert(key =~= "code"@);
        } else {
            if key.len() == 4 {
                assert(key[0] == v@[pos as int]);
                assert(key[1] == v@[pos + 1]);
                assert(key[2] == v@[pos + 2]);
                assert(key[3] == v@[pos + 3]);
                assert(key != "code"@);
            } else {
                assert(key != "code"@);
            }
        }
    }
    if is_code {
        let mut val: Vec<char> = Vec::new();
        let ghost sval = if k < e { s.subrange(k + 1 as int, e as int) } else { Seq::<char>::empty() };
        if k_abs < e_abs {
            let mut i = k_abs + 1;
            while i < e_abs
                invariant
                    k_abs + 1 <= i <= e_abs,
                    e_abs <= v@.len(),
                    val@ == v@.subrange(k_abs + 1, i as int),
                decreases e_abs - i,
            {
                val.push(v[i]);
                proof {
                    assert(val@ =~= v@.subrange(k_abs + 1, i + 1 as int));
                }
                i = i + 1;
            }
            proof {
                assert(val@ =~= sval);
            }
        } else {
            proof {
                assert(val@ =~= sval);
            }
        }
        let r = form_decode_from(&val, 0);
        proof {
            assert(val@.skip(0) =~= sval);
        }
        r
    } else if e_abs < v.len() {
        let r = first_code_from(v, e_abs + 1);
        proof {
            assert(s.skip(e + 1 as int) =~= v@.skip(e_abs + 1 as int));
        }
        r
    } else {
        None
    }
}

/// The fixed confirmation page returned to the browser on every hit to the
/// callback path, whatever the query holds and however the exchange behind
/// it fares.
pub fn confirmation_html() -> (r: &'static str)
    ensures
        r@
            == "<html><body><h2>Authorization complete.</h2><p>You can close this tab and return to the application.</p></body></html>"@,
{
    "<html><body><h2>Authorization complete.</h2><p>You can close this tab and return to the application.</p></body></html>"
}

/// Answer one GET to the callback path: always the fixed confirmation page,
/// and the decoded `code` parameter when the query carries one — the
/// trigger for an exchange. A query without a usable `code` changes nothing
/// but the page shown: no exchange is triggered.
pub fn handle_callback(query: &str) -> (r: (String, Option<String>))
    ensures
        r.0@
            == "<html><body><h2>Authorization complete.</h2><p>You can close this tab and return to the application.</p></body></html>"@,
        r.1 is Some <==> first_code_value(query@) is Some,
        r.1 is Some ==> r.1.unwrap()@ == first_code_value(query@).unwrap(),
{
    let chars = str_chars(query);
    let code = first_code_from(&chars, 0);
    proof {
        assert(chars@.skip(0) =~= query@);
    }
    let body = String::from_str(confirmation_html());
    match code {
        None => (body, None),
        Some(c) => (body, Some(chars_string(&c))),
    }
}

/// The local port the listener binds; part of the redirect URI registered
/// with the provider, which must match it exactly.
pub fn callback_port() -> (r: u16)
    ensures
        r == 14321,
{
    14321
}

/// The path of the callback endpoint; the other variable part of the
/// registered redirect URI.
pub fn callback_path() -> (r: &'static str)
    ensures
        r@ == "callback"@,
{
    "callback"
}

/// The lifecycle of the callback listener. It is bound at most once per
/// application lifetime and never stops on its own: once listening, it
/// serves any number of callbacks, alternating to `Handling` and back.
#[derive(Clone, Copy, Debug, PartialEq, Eq, Structural)]
pub enum ListenerState {
    Stopped,
    Listening,
    Handling,
}

/// Plan a `start` request: bind the local port only from `Stopped`; a
/// second start finds the listener bound and must not bind again.
pub fn plan_start(state: ListenerState) -> (r: (ListenerState, bool))
    ensures
        r.1 <==> state == ListenerState::Stopped,
        r.0 == (if state == ListenerState::Stopped {
            ListenerState::Listening
        } else {
            state
        }),
{
    match state {
        ListenerState::Stopped => (ListenerState::Listening, true),
        other => (other, false),
    }
}

/// A listening listener takes up an incoming request; in any other state
/// nothing changes (requests are never handled concurrently).
pub fn plan_request(state: ListenerState) -> (r: (ListenerState, bool))
    ensures
        r.1 <==> state == ListenerState::Listening,
        r.0 == (if state == ListenerState::Listening {
            ListenerState::Handling
        } else {
            state
        }),
{
    match state {
        ListenerState::Listening => (ListenerState::Handling, true),
        other => (other, false),
    }
}

/// Finishing a request returns the listener to `Listening`: it stays bound
/// for further callbacks (a re-login in the same session reuses it).
pub fn plan_request_done(state: ListenerState) -> (r: ListenerState)
    ensures
        r == (if state == ListenerState::Handling {
            ListenerState::Listening
        } else {
            state
        }),
{
    match state {
        ListenerState::Handling => ListenerState::Listening,
        other => other,
    }
}

} // verus!
