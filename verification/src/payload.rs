//! Wire form of the secret payload: a flat JSON object of string fields,
//! as the secret store returns it for a database entry.
//!
//! [`encode_credentials`] writes the canonical two-field object; the
//! decoder accepts any flat object of string fields (unknown keys are
//! ignored, a repeated key keeps its last value) and reports which of the
//! two expected fields were present. Inside a string, `\"` and `\\` stand
//! for the quote and the backslash; every other character stands for
//! itself.

use vstd::prelude::*;
use vstd::string::StrSliceExecFns;
use vstd::string::StringExecFns;
use crate::config::str_eq;
use crate::credentials::DbCredentials;
use crate::credentials::SecretPayload;

verus! {

/// How one character is written inside a quoted string.
pub open spec fn escape_char(c: char) -> Seq<char> {
    if c == '"' || c == '\\' {
        seq!['\\', c]
    } else {
        seq![c]
    }
}

/// How a whole string is written inside quotes.
pub open spec fn escape_seq(s: Seq<char>) -> Seq<char>
    decreases s.len(),
{
    if s.len() == 0 {
        Seq::empty()
    } else {
        escape_char(s[0]) + escape_seq(s.drop_first())
    }
}

/// One encoded field: the key (written verbatim, keys carry no escapes),
/// then `":"`, then the escaped value, all quoted.
pub open spec fn field_enc(key: Seq<char>, val: Seq<char>) -> Seq<char> {
    seq!['"'] + key + seq!['"', ':', '"'] + escape_seq(val) + seq!['"']
}

/// The canonical encoding of a credential pair.
pub open spec fn encode_payload_spec(u: Seq<char>, p: Seq<char>) -> Seq<char> {
    seq!['{'] + field_enc("username"@, u) + seq![','] + field_enc("password"@, p) + seq!['}']
}

/// Relies on `String::push`: appends the given character to the end of the
/// string.
#[verifier::external_body]
pub(crate) fn push_char(s: &mut String, c: char)
    ensures
        final(s)@ == old(s)@.push(c),
{
    s.push(c);
}

proof fn lemma_escape_snoc(s: Seq<char>, c: char)
    ensures
        escape_seq(s.push(c)) =~= escape_seq(s) + escape_char(c),
    decreases s.len(),
{
    if s.len() == 0 {
        assert(s.push(c).drop_first() =~= Seq::<char>::empty());
        assert(s =~= Seq::<char>::empty());
    } else {
        assert(s.push(c).drop_first() =~= s.drop_first().push(c));
        lemma_escape_snoc(s.drop_first(), c);
        assert(s.push(c)[0] == s[0]);
    }
}

/// Append the escaped form of `s` to `out`.
fn append_escaped(out: &mut String, s: &str)
    ensures
        final(out)@ == old(out)@ + escape_seq(s@),
{
    let n = s.unicode_len();
    let mut i: usize = 0;
    while i < n
        invariant
            n == s@.len(),
            i <= n,
            out@ == old(out)@ + escape_seq(s@.subrange(0, i as int)),
        decreases n - i,
    {
        let c = s.get_char(i);
        let ghost prefix = s@.subrange(0, i as int);
        if c == '"' || c == '\\' {
            push_char(out, '\\');
            push_char(out, c);
        } else {
            push_char(out, c);
        }
        proof {
            lemma_escape_snoc(prefix, c);
            assert(prefix.push(c) =~= s@.subrange(0, i + 1));
            assert(out@ =~= old(out)@ + escape_seq(s@.subrange(0, i + 1)));
        }
        i += 1;
    }
    proof {
        assert(s@.subrange(0, n as int) =~= s@);
    }
}

/// Scan the remainder of a quoted string; `s` starts just after the opening
/// quote. Yields the unescaped content and what follows the closing quote,
/// or nothing when the quote never closes or the text ends in a lone
/// backslash.
pub open spec fn scan_string_rem(s: Seq<char>) -> Option<(Seq<char>, Seq<char>)>
    decreases s.len(),
{
    if s.len() == 0 {
        None
    } else if s[0] == '"' {
        Some((Seq::empty(), s.drop_first()))
    } else if s[0] == '\\' {
        if s.len() < 2 {
            None
        } else {
            match scan_string_rem(s.subrange(2, s.len() as int)) {
                Some(tr) => Some((seq![s[1]] + tr.0, tr.1)),
                None => None,
            }
        }
    } else {
        match scan_string_rem(s.drop_first()) {
            Some(tr) => Some((seq![s[0]] + tr.0, tr.1)),
            None => None,
        }
    }
}

proof fn lemma_scan_string_rem_shrinks(s: Seq<char>)
    ensures
        scan_string_rem(s) matches Some(tr) ==> tr.1.len() < s.len(),
    decreases s.len(),
{
    if s.len() == 0 {
    } else if s[0] == '"' {
    } else if s[0] == '\\' {
        if s.len() >= 2 {
            lemma_scan_string_rem_shrinks(s.subrange(2, s.len() as int));
        }
    } else {
        lemma_scan_string_rem_shrinks(s.drop_first());
    }
}

/// Scan a list of `"key":"value"` fields up to the closing brace; `s`
/// starts at the first field's opening quote. `u` and `p` carry the values
/// seen so far for the two expected keys; unknown keys are ignored and a
/// repeated key keeps its last value.
pub open spec fn scan_field_list(
    s: Seq<char>,
    u: Option<Seq<char>>,
    p: Option<Seq<char>>,
) -> Option<(Option<Seq<char>>, Option<Seq<char>>)>
    decreases s.len(),
    via scan_field_list_dec
{
    if s.len() == 0 || s[0] != '"' {
        None
    } else {
        match scan_string_rem(s.drop_first()) {
            None => None,
            Some(key_r) => {
                let key = key_r.0;
                let rest1 = key_r.1;
                if rest1.len() == 0 || rest1[0] != ':' {
                    None
                } else {
                    let rest2 = rest1.drop_first();
                    if rest2.len() == 0 || rest2[0] != '"' {
                        None
                    } else {
                        match scan_string_rem(rest2.drop_first()) {
                            None => None,
                            Some(val_r) => {
                                let val = val_r.0;
                                let rest3 = val_r.1;
                                let u_next = if key == "username"@ {
                                    Some(val)
                                } else {
                                    u
                                };
                                let p_next = if key == "password"@ {
                                    Some(val)
                                } else {
                                    p
                                };
                                if rest3.len() == 1 && rest3[0] == '}' {
                                    Some((u_next, p_next))
                                } else if rest3.len() > 1 && rest3[0] == ',' {
                                    scan_field_list(rest3.drop_first(), u_next, p_next)
                                } else {
                                    None
                                }
                            }
                        }
                    }
                }
            }
        }
    }
}

#[via_fn]
proof fn scan_field_list_dec(s: Seq<char>, u: Option<Seq<char>>, p: Option<Seq<char>>) {
    if s.len() > 0 && s[0] == '"' {
        lemma_scan_string_rem_shrinks(s.drop_first());
        match scan_string_rem(s.drop_first()) {
            None => {}
            Some(key_r) => {
                let rest1 = key_r.1;
                if rest1.len() > 0 && rest1[0] == ':' {
                    let rest2 = rest1.drop_first();
                    if rest2.len() > 0 && rest2[0] == '"' {
                        lemma_scan_string_rem_shrinks(rest2.drop_first());
                    }
                }
            }
        }
    }
}

/// What decoding a payload yields: which of the two expected fields were
/// present, or nothing when the text is not a flat object of string fields.
pub open spec fn decode_payload_spec(s: Seq<char>) -> Option<
    (Option<Seq<char>>, Option<Seq<char>>),
> {
    if s.len() == 0 || s[0] != '{' {
        None
    } else if s.len() == 2 && s[1] == '}' {
        Some((None, None))
    } else {
        scan_field_list(s.drop_first(), None, None)
    }
}

pub open spec fn opt_view(o: Option<String>) -> Option<Seq<char>> {
    match o {
        Some(s) => Some(s@),
        None => None,
    }
}

/// Write a credential pair in its canonical wire form.
pub fn encode_credentials(c: &DbCredentials) -> (r: String)
    ensures
        r@ == encode_payload_spec(c.username@, c.password@),
{
    let mut r = String::from_str("{\"username\":\"");
    proof {
        reveal_strlit("{\"username\":\"");
        reveal_strlit("username");
        assert(r@ =~= seq!['{'] + seq!['"'] + "username"@ + seq!['"', ':', '"']);
    }
    append_escaped(&mut r, c.username.as_str());
    r.append("\",\"password\":\"");
    proof {
        reveal_strlit("\",\"password\":\"");
        reveal_strlit("password");
        assert("\",\"password\":\""@ =~= seq!['"'] + seq![','] + seq!['"'] + "password"@ + seq![
            '"',
            ':',
            '"',
        ]);
    }
    append_escaped(&mut r, c.password.as_str());
    r.append("\"}");
    proof {
        reveal_strlit("\"}");
        assert("\"}"@ =~= seq!['"'] + seq!['}']);
        assert(r@ =~= encode_payload_spec(c.username@, c.password@));
    }
    r
}

/// Collect the characters of a string slice.
fn str_chars(s: &str) -> (v: Vec<char>)
    ensures
        v@ == s@,
{
    let n = s.unicode_len();
    let mut v: Vec<char> = Vec::new();
    let mut i: usize = 0;
    assert(v@ =~= s@.subrange(0, 0));
    while i < n
        invariant
            n == s@.len(),
            i <= n,
            v@ == s@.subrange(0, i as int),
        decreases n - i,
    {
        v.push(s.get_char(i));
        assert(v@ =~= s@.subrange(0, i + 1));
        i += 1;
    }
    proof {
        assert(s@.subrange(0, n as int) =~= s@);
    }
    v
}

/// Scan a quoted string in `cs` whose opening quote sits just before
/// `start`: unescape its content and report where the text resumes.
fn scan_string_at(cs: &Vec<char>, start: usize) -> (r: Option<(String, usize)>)
    requires
        start <= cs@.len(),
    ensures
        r is None ==> scan_string_rem(cs@.subrange(start as int, cs@.len() as int)) is None,
        r matches Some(tj) ==> (start < tj.1 <= cs@.len() && scan_string_rem(
            cs@.subrange(start as int, cs@.len() as int),
        ) == Some((tj.0@, cs@.subrange(tj.1 as int, cs@.len() as int)))),
{
    let n = cs.len();
    let mut acc = String::new();
    let mut k: usize = start;
    loop
        invariant
            start <= k <= n,
            n == cs@.len(),
            ({
                let rem0 = cs@.subrange(start as int, n as int);
                let remk = cs@.subrange(k as int, n as int);
                match scan_string_rem(remk) {
                    Some(tr) => scan_string_rem(rem0) == Some((acc@ + tr.0, tr.1)),
                    None => scan_string_rem(rem0) is None,
                }
            }),
        decreases n - k,
    {
        let ghost rem0 = cs@.subrange(start as int, n as int);
        let ghost remk = cs@.subrange(k as int, n as int);
        if k >= n {
            assert(remk.len() == 0);
            return None;
        }
        let c = cs[k];
        assert(remk[0] == c);
        if c == '"' {
            assert(remk.drop_first() =~= cs@.subrange(k + 1, n as int));
            assert(scan_string_rem(remk) == Some(
                (Seq::<char>::empty(), cs@.subrange(k + 1, n as int)),
            ));
            assert(acc@ + Seq::<char>::empty() =~= acc@);
            return Some((acc, k + 1));
        } else if c == '\\' {
            if k + 1 >= n {
                assert(remk.len() < 2);
                return None;
            }
            let d = cs[k + 1];
            assert(remk[1] == d);
            let ghost acc0 = acc@;
            push_char(&mut acc, d);
            proof {
                let remk2 = cs@.subrange(k + 2, n as int);
                assert(remk.subrange(2, remk.len() as int) =~= remk2);
                match scan_string_rem(remk2) {
                    Some(tr) => {
                        assert(scan_string_rem(remk) == Some((seq![d] + tr.0, tr.1)));
                        assert(acc0 + (seq![d] + tr.0) =~= acc@ + tr.0);
                    }
                    None => {
                        assert(scan_string_rem(remk) is None);
                    }
                }
            }
            k = k + 2;
        } else {
            let ghost acc0 = acc@;
            push_char(&mut acc, c);
            proof {
                let remk1 = cs@.subrange(k + 1, n as int);
                assert(remk.drop_first() =~= remk1);
                match scan_string_rem(remk1) {
                    Some(tr) => {
                        assert(scan_string_rem(remk) == Some((seq![c] + tr.0, tr.1)));
                        assert(acc0 + (seq![c] + tr.0) =~= acc@ + tr.0);
                    }
                    None => {
                        assert(scan_string_rem(remk) is None);
                    }
                }
            }
            k = k + 1;
        }
    }
}

/// Read a secret payload off the wire: accepts a flat object of string
/// fields and reports which of the two expected fields it held. Anything
/// else — other value types, nesting, stray text — yields `None`.
pub fn decode_credentials(s: &str) -> (r: Option<SecretPayload>)
    ensures
        r is None <==> decode_payload_spec(s@) is None,
        r matches Some(pl) ==> decode_payload_spec(s@) == Some(
            (opt_view(pl.username), opt_view(pl.password)),
        ),
{
    let cs = str_chars(s);
    let n = cs.len();
    if n == 0 {
        return None;
    }
    if cs[0] != '{' {
        return None;
    }
    if n == 2 {
        if cs[1] == '}' {
            return Some(SecretPayload { username: None, password: None });
        }
    }
    assert(s@.drop_first() =~= cs@.subrange(1, n as int));
    let mut u_acc: Option<String> = None;
    let mut p_acc: Option<String> = None;
    let mut k: usize = 1;
    loop
        invariant
            1 <= k <= n,
            n == cs@.len(),
            cs@ == s@,
            n > 0 && s@[0] == '{',
            !(n == 2 && s@[1] == '}'),
            decode_payload_spec(s@) == scan_field_list(
                cs@.subrange(k as int, n as int),
                opt_view(u_acc),
                opt_view(p_acc),
            ),
        decreases n - k,
    {
        let ghost remk = cs@.subrange(k as int, n as int);
        if k >= n {
            assert(remk.len() == 0);
            return None;
        }
        if cs[k] != '"' {
            assert(remk[0] == cs@[k as int]);
            return None;
        }
        assert(remk[0] == '"');
        assert(remk.drop_first() =~= cs@.subrange(k + 1, n as int));
        match scan_string_at(&cs, k + 1) {
            None => {
                return None;
            }
            Some((key, j)) => {
                let ghost rest1 = cs@.subrange(j as int, n as int);
                if j >= n {
                    assert(rest1.len() == 0);
                    return None;
                }
                if cs[j] != ':' {
                    assert(rest1[0] == cs@[j as int]);
                    return None;
                }
                assert(rest1[0] == ':');
                assert(rest1.drop_first() =~= cs@.subrange(j + 1, n as int));
                let ghost rest2 = cs@.subrange(j + 1, n as int);
                if j + 1 >= n {
                    assert(rest2.len() == 0);
                    return None;
                }
                if cs[j + 1] != '"' {
                    assert(rest2[0] == cs@[j + 1]);
                    return None;
                }
                assert(rest2[0] == '"');
                assert(rest2.drop_first() =~= cs@.subrange(j + 2, n as int));
                match scan_string_at(&cs, j + 2) {
                    None => {
                        return None;
                    }
                    Some((val, m)) => {
                        let ghost rest3 = cs@.subrange(m as int, n as int);
                        let ghost u_next = if key@ == "username"@ {
                            Some(val@)
                        } else {
                            opt_view(u_acc)
                        };
                        let ghost p_next = if key@ == "password"@ {
                            Some(val@)
                        } else {
                            opt_view(p_acc)
                        };
                        let is_u = str_eq(key.as_str(), "username");
                        let is_p = str_eq(key.as_str(), "password");
                        if is_u {
                            u_acc = Some(val.clone());
                        }
                        if is_p {
                            p_acc = Some(val);
                        }
                        assert(opt_view(u_acc) == u_next);
                        assert(opt_view(p_acc) == p_next);
                        if m >= n {
                            assert(rest3.len() == 0);
                            return None;
                        }
                        let cm = cs[m];
                        assert(rest3[0] == cm);
                        if cm == '}' {
                            if m + 1 == n {
                                assert(rest3.len() == 1);
                                return Some(SecretPayload { username: u_acc, password: p_acc });
                            } else {
                                assert(rest3.len() > 1);
                                return None;
                            }
                        } else if cm == ',' {
                            if m + 1 >= n {
                                assert(rest3.len() == 1);
                                return None;
                            }
                            assert(rest3.len() > 1);
                            assert(rest3.drop_first() =~= cs@.subrange(m + 1, n as int));
                            k = m + 1;
                        } else {
                            return None;
                        }
                    }
                }
            }
        }
    }
}

proof fn lemma_scan_escaped(u: Seq<char>, tail: Seq<char>)
    ensures
        scan_string_rem(escape_seq(u) + seq!['"'] + tail) == Some((u, tail)),
    decreases u.len(),
{
    let s = escape_seq(u) + seq!['"'] + tail;
    if u.len() == 0 {
        assert(s =~= seq!['"'] + tail);
        assert(s[0] == '"');
        assert(s.drop_first() =~= tail);
        assert(scan_string_rem(s) == Some((Seq::<char>::empty(), tail)));
        assert(Seq::<char>::empty() =~= u);
    } else {
        let c = u[0];
        let u1 = u.drop_first();
        lemma_scan_escaped(u1, tail);
        let s1 = escape_seq(u1) + seq!['"'] + tail;
        if c == '"' || c == '\\' {
            assert(escape_seq(u) =~= seq!['\\', c] + escape_seq(u1));
            assert(s =~= seq!['\\', c] + s1);
            assert(s[0] == '\\');
            assert(s.len() >= 2);
            assert(s[1] == c);
            assert(s.subrange(2, s.len() as int) =~= s1);
            assert(scan_string_rem(s) == Some((seq![c] + u1, tail)));
            assert(seq![c] + u1 =~= u);
        } else {
            assert(escape_seq(u) =~= seq![c] + escape_seq(u1));
            assert(s =~= seq![c] + s1);
            assert(s[0] == c);
            assert(s.drop_first() =~= s1);
            assert(scan_string_rem(s) == Some((seq![c] + u1, tail)));
            assert(seq![c] + u1 =~= u);
        }
    }
}

proof fn lemma_escape_plain(s: Seq<char>)
    requires
        forall|i: int| 0 <= i < s.len() ==> #[trigger] s[i] != '"' && s[i] != '\\',
    ensures
        escape_seq(s) == s,
    decreases s.len(),
{
    if s.len() == 0 {
        assert(escape_seq(s) =~= s);
    } else {
        lemma_escape_plain(s.drop_first());
        assert(escape_seq(s) =~= seq![s[0]] + s.drop_first());
        assert(seq![s[0]] + s.drop_first() =~= s);
    }
}

proof fn lemma_keys_plain()
    ensures
        escape_seq("username"@) == "username"@,
        escape_seq("password"@) == "password"@,
        "username"@ != "password"@,
        "username"@.len() == 8,
        "password"@.len() == 8,
{
    reveal_strlit("username");
    reveal_strlit("password");
    assert forall|i: int| 0 <= i < "username"@.len() implies #[trigger] "username"@[i] != '"'
        && "username"@[i] != '\\' by {
        assert("username"@.len() == 8);
    }
    lemma_escape_plain("username"@);
    assert forall|i: int| 0 <= i < "password"@.len() implies #[trigger] "password"@[i] != '"'
        && "password"@[i] != '\\' by {
        assert("password"@.len() == 8);
    }
    lemma_escape_plain("password"@);
    assert("username"@[0] == 'u');
    assert("password"@[0] == 'p');
}

/// A well-formed credential pair survives the wire unchanged: decoding the
/// canonical encoding yields exactly the same `username` and `password`,
/// both present, for every pair of strings.
pub proof fn lemma_payload_round_trip(u: Seq<char>, p: Seq<char>)
    ensures
        decode_payload_spec(encode_payload_spec(u, p)) == Some((Some(u), Some(p))),
{
    lemma_keys_plain();
    let ukey = "username"@;
    let pkey = "password"@;
    let enc = encode_payload_spec(u, p);
    let tail1 = seq![','] + field_enc(pkey, p) + seq!['}'];

    // The object opens with `{` and is not the empty object.
    assert(enc[0] == '{');
    assert(enc.len() > 2 && enc[1] == '"');

    // First field: key `username`, value `u`.
    let s1 = enc.drop_first();
    assert(s1 =~= field_enc(ukey, u) + tail1);
    assert(s1[0] == '"');
    let rest1 = seq![':', '"'] + escape_seq(u) + seq!['"'] + tail1;
    assert(s1.drop_first() =~= escape_seq(ukey) + seq!['"'] + rest1);
    lemma_scan_escaped(ukey, rest1);
    assert(scan_string_rem(s1.drop_first()) == Some((ukey, rest1)));
    assert(rest1[0] == ':');
    let rest2 = rest1.drop_first();
    assert(rest2 =~= seq!['"'] + (escape_seq(u) + seq!['"'] + tail1));
    assert(rest2[0] == '"');
    assert(rest2.drop_first() =~= escape_seq(u) + seq!['"'] + tail1);
    lemma_scan_escaped(u, tail1);
    assert(scan_string_rem(rest2.drop_first()) == Some((u, tail1)));
    assert(tail1.len() > 1 && tail1[0] == ',');
    assert(scan_field_list(s1, None, None) == scan_field_list(
        tail1.drop_first(),
        Some(u),
        None,
    ));

    // Second field: key `password`, value `p`.
    let s2 = tail1.drop_first();
    assert(s2 =~= field_enc(pkey, p) + seq!['}']);
    assert(s2[0] == '"');
    let rest3 = seq![':', '"'] + escape_seq(p) + seq!['"'] + seq!['}'];
    assert(s2.drop_first() =~= escape_seq(pkey) + seq!['"'] + rest3);
    lemma_scan_escaped(pkey, rest3);
    assert(scan_string_rem(s2.drop_first()) == Some((pkey, rest3)));
    assert(rest3[0] == ':');
    let rest4 = rest3.drop_first();
    assert(rest4 =~= seq!['"'] + (escape_seq(p) + seq!['"'] + seq!['}']));
    assert(rest4[0] == '"');
    assert(rest4.drop_first() =~= escape_seq(p) + seq!['"'] + seq!['}']);
    lemma_scan_escaped(p, seq!['}']);
    assert(scan_string_rem(rest4.drop_first()) == Some((p, seq!['}'])));
    assert(scan_field_list(s2, Some(u), None) == Some((Some(u), Some(p))));
}

} // verus!
