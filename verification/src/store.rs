//! The persisted documents of the two records: a pretty-printed JSON
//! object each, rendered and read back by the verified codec. Reading is
//! the proven inverse of rendering; any text that is not a rendered record
//! reads as `None`, so a corrupt store is treated as absent.
//!
//! Control characters other than newline, carriage return and tab are
//! written as they stand; OAuth credentials and tokens do not contain
//! them.

use vstd::prelude::*;
use crate::records::{Tokens, TokensV, AppConfig, ConfigV};
use crate::codec::{
    esc_str, unesc_prefix, dec_digits, read_u64, strip_lit, lemma_strip_concat, lemma_unesc_esc,
    lemma_read_dec_digits, push_lit, push_esc, push_dec, unesc_from, match_lit, read_u64_from,
    is_digit,
};
use crate::chars::{str_chars, chars_string};

verus! {

/// The persisted document of a token set.
pub open spec fn tokens_doc(t: TokensV) -> Seq<char> {
    "{\n  \"access_token\": \""@ + (esc_str(t.access_token) + (seq!['"'] + (
    ",\n  \"refresh_token\": \""@ + (esc_str(t.refresh_token) + (seq!['"'] + (
    ",\n  \"expires_in\": "@ + (dec_digits(t.expires_in as nat) + (
    ",\n  \"created_at\": "@ + (dec_digits(t.created_at as nat) + "\n}"@)))))))))
}

/// What a token-set document reads back as: the record iff the text is
/// exactly a rendered record, `None` otherwise.
pub open spec fn tokens_parse(s: Seq<char>) -> Option<TokensV> {
    match strip_lit(s, "{\n  \"access_token\": \""@) {
        None => None,
        Some(s1) => match unesc_prefix(s1) {
            None => None,
            Some(p1) => match strip_lit(p1.1, ",\n  \"refresh_token\": \""@) {
                None => None,
                Some(s2) => match unesc_prefix(s2) {
                    None => None,
                    Some(p2) => match strip_lit(p2.1, ",\n  \"expires_in\": "@) {
                        None => None,
                        Some(s3) => match read_u64(s3) {
                            None => None,
                            Some(n1) => match strip_lit(n1.1, ",\n  \"created_at\": "@) {
                                None => None,
                                Some(s4) => match read_u64(s4) {
                                    None => None,
                                    Some(n2) => match strip_lit(n2.1, "\n}"@) {
                                        None => None,
                                        Some(s5) => if s5.len() == 0 {
                                            Some(TokensV {
                                                access_token: p1.0,
                                                refresh_token: p2.0,
                                                expires_in: n1.0,
                                                created_at: n2.0,
                                            })
                                        } else {
                                            None
                                        },
                                    },
                                },
                            },
                        },
                    },
                },
            },
        },
    }
}

/// Reading a rendered token set yields it back unchanged, for every token
/// set.
pub proof fn lemma_tokens_round_trip(t: TokensV)
    ensures
        tokens_parse(tokens_doc(t)) == Some(t),
{
    let q = seq!['"'];
    let x9 = "\n}"@;
    let x8 = dec_digits(t.created_at as nat) + x9;
    let x7 = ",\n  \"created_at\": "@ + x8;
    let x6 = dec_digits(t.expires_in as nat) + x7;
    let x5 = ",\n  \"expires_in\": "@ + x6;
    let body3 = esc_str(t.refresh_token) + (q + x5);
    let body2 = ",\n  \"refresh_token\": \""@ + body3;
    let body1 = esc_str(t.access_token) + (q + body2);
    let d = tokens_doc(t);
    assert(d == "{\n  \"access_token\": \""@ + body1);
    lemma_strip_concat("{\n  \"access_token\": \""@, body1);
    lemma_unesc_esc(t.access_token, body2);
    assert(body1 =~= (esc_str(t.access_token) + q) + body2);
    lemma_strip_concat(",\n  \"refresh_token\": \""@, body3);
    lemma_unesc_esc(t.refresh_token, x5);
    assert(body3 =~= (esc_str(t.refresh_token) + q) + x5);
    lemma_strip_concat(",\n  \"expires_in\": "@, x6);
    reveal_strlit(",\n  \"created_at\": ");
    assert(x7[0] == ',');
    assert(!is_digit(','));
    lemma_read_dec_digits(t.expires_in, x7);
    lemma_strip_concat(",\n  \"created_at\": "@, x8);
    reveal_strlit("\n}");
    assert(x9[0] == '\n');
    assert(!is_digit('\n'));
    lemma_read_dec_digits(t.created_at, x9);
    lemma_strip_concat("\n}"@, Seq::<char>::empty());
    assert(x9 + Seq::<char>::empty() =~= x9);
    assert(tokens_parse(d) == Some(
        TokensV {
            access_token: t.access_token,
            refresh_token: t.refresh_token,
            expires_in: t.expires_in,
            created_at: t.created_at,
        },
    ));
}

/// Render the persisted document of a token set.
pub fn render_tokens(t: &Tokens) -> (r: String)
    ensures
        r@ == tokens_doc(t@),
{
    let mut out: Vec<char> = Vec::new();
    push_lit(&mut out, "{\n  \"access_token\": \"");
    push_esc(&mut out, t.access_token.as_str());
    out.push('"');
    push_lit(&mut out, ",\n  \"refresh_token\": \"");
    push_esc(&mut out, t.refresh_token.as_str());
    out.push('"');
    push_lit(&mut out, ",\n  \"expires_in\": ");
    push_dec(&mut out, t.expires_in);
    push_lit(&mut out, ",\n  \"created_at\": ");
    push_dec(&mut out, t.created_at);
    push_lit(&mut out, "\n}");
    proof {
        assert(out@ =~= tokens_doc(t@));
    }
    chars_string(&out)
}

/// Read a token-set document; `None` unless the text is exactly a
/// rendered token set.
pub fn parse_tokens(s: &str) -> (r: Option<Tokens>)
    ensures
        r is Some <==> tokens_parse(s@) is Some,
        r is Some ==> r.unwrap()@ == tokens_parse(s@).unwrap(),
{
    let v = str_chars(s);
    proof {
        assert(v@.skip(0) =~= s@);
    }
    let p1 = match match_lit(&v, 0, "{\n  \"access_token\": \"") {
        None => return None,
        Some(p) => p,
    };
    let (access, p2) = match unesc_from(&v, p1) {
        None => return None,
        Some(r) => r,
    };
    let p3 = match match_lit(&v, p2, ",\n  \"refresh_token\": \"") {
        None => return None,
        Some(p) => p,
    };
    let (refresh, p4) = match unesc_from(&v, p3) {
        None => return None,
        Some(r) => r,
    };
    let p5 = match match_lit(&v, p4, ",\n  \"expires_in\": ") {
        None => return None,
        Some(p) => p,
    };
    let (expires, p6) = match read_u64_from(&v, p5) {
        None => return None,
        Some(r) => r,
    };
    let p7 = match match_lit(&v, p6, ",\n  \"created_at\": ") {
        None => return None,
        Some(p) => p,
    };
    let (created, p8) = match read_u64_from(&v, p7) {
        None => return None,
        Some(r) => r,
    };
    let p9 = match match_lit(&v, p8, "\n}") {
        None => return None,
        Some(p) => p,
    };
    if p9 != v.len() {
        return None;
    }
    Some(
        Tokens {
            access_token: chars_string(&access),
            refresh_token: chars_string(&refresh),
            expires_in: expires,
            created_at: created,
        },
    )
}

/// The persisted document of the client credentials.
pub open spec fn config_doc(c: ConfigV) -> Seq<char> {
    "{\n  \"client_id\": \""@ + (esc_str(c.client_id) + (seq!['"'] + (
    ",\n  \"client_secret\": \""@ + (esc_str(c.client_secret) + (seq!['"'] + "\n}"@)))))
}

/// What a credentials document reads back as.
pub open spec fn config_parse(s: Seq<char>) -> Option<ConfigV> {
    match strip_lit(s, "{\n  \"client_id\": \""@) {
        None => None,
        Some(s1) => match unesc_prefix(s1) {
            None => None,
            Some(p1) => match strip_lit(p1.1, ",\n  \"client_secret\": \""@) {
                None => None,
                Some(s2) => match unesc_prefix(s2) {
                    None => None,
                    Some(p2) => match strip_lit(p2.1, "\n}"@) {
                        None => None,
                        Some(s3) => if s3.len() == 0 {
                            Some(ConfigV { client_id: p1.0, client_secret: p2.0 })
                        } else {
                            None
                        },
                    },
                },
            },
        },
    }
}

/// Reading a rendered credentials record yields it back unchanged, for
/// every record.
pub proof fn lemma_config_round_trip(c: ConfigV)
    ensures
        config_parse(config_doc(c)) == Some(c),
{
    let q = seq!['"'];
    let x3 = "\n}"@;
    let body3 = esc_str(c.client_secret) + (q + x3);
    let body2 = ",\n  \"client_secret\": \""@ + body3;
    let body1 = esc_str(c.client_id) + (q + body2);
    let d = config_doc(c);
    assert(d == "{\n  \"client_id\": \""@ + body1);
    lemma_strip_concat("{\n  \"client_id\": \""@, body1);
    lemma_unesc_esc(c.client_id, body2);
    assert(body1 =~= (esc_str(c.client_id) + q) + body2);
    lemma_strip_concat(",\n  \"client_secret\": \""@, body3);
    lemma_unesc_esc(c.client_secret, x3);
    assert(body3 =~= (esc_str(c.client_secret) + q) + x3);
    lemma_strip_concat("\n}"@, Seq::<char>::empty());
    assert(x3 + Seq::<char>::empty() =~= x3);
    assert(config_parse(d) == Some(
        ConfigV { client_id: c.client_id, client_secret: c.client_secret },
    ));
}

/// Render the persisted document of the client credentials.
pub fn render_config(c: &AppConfig) -> (r: String)
    ensures
        r@ == config_doc(c@),
{
    let mut out: Vec<char> = Vec::new();
    push_lit(&mut out, "{\n  \"client_id\": \"");
    push_esc(&mut out, c.client_id.as_str());
    out.push('"');
    push_lit(&mut out, ",\n  \"client_secret\": \"");
    push_esc(&mut out, c.client_secret.as_str());
    out.push('"');
    push_lit(&mut out, "\n}");
    proof {
        assert(out@ =~= config_doc(c@));
    }
    chars_string(&out)
}

/// Read a credentials document; `None` unless the text is exactly a
/// rendered record.
pub fn parse_config(s: &str) -> (r: Option<AppConfig>)
    ensures
        r is Some <==> config_parse(s@) is Some,
        r is Some ==> r.unwrap()@ == config_parse(s@).unwrap(),
{
    let v = str_chars(s);
    proof {
        assert(v@.skip(0) =~= s@);
    }
    let p1 = match match_lit(&v, 0, "{\n  \"client_id\": \"") {
        None => return None,
        Some(p) => p,
    };
    let (id, p2) = match unesc_from(&v, p1) {
        None => return None,
        Some(r) => r,
    };
    let p3 = match match_lit(&v, p2, ",\n  \"client_secret\": \"") {
        None => return None,
        Some(p) => p,
    };
    let (secret, p4) = match unesc_from(&v, p3) {
        None => return None,
        Some(r) => r,
    };
    let p5 = match match_lit(&v, p4, "\n}") {
        None => return None,
        Some(p) => p,
    };
    if p5 != v.len() {
        return None;
    }
    Some(AppConfig { client_id: chars_string(&id), client_secret: chars_string(&secret) })
}

} // verus!
