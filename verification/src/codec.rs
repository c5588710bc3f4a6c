//! The canonical text form of a secret payload, and its parser.
//!
//! A payload is rendered as a single JSON object with a `kind` tag and the
//! variant's fields in declaration order, with the standard JSON string
//! escapes. The form is canonical: every payload has exactly one rendering,
//! and the parser accepts exactly the renderings.
use vstd::prelude::*;

use crate::crypto::hex_digit;
use crate::crypto::hex_digit_char;
use crate::errors::VaultError;
use crate::models::opt_view;
use crate::models::PayloadView;
use crate::models::SecretPayload;
use crate::strutil::push_char;
use crate::strutil::str_chars;
use vstd::string::StrSliceExecFns;
use vstd::string::StringExecFns;

verus! {

/// The escape of one character inside a JSON string literal: quote, backslash
/// and the named control characters get short escapes, other control
/// characters a lowercase `\u00xx` form, and everything else stands as is.
pub open spec fn esc_char(c: char) -> Seq<char> {
    if c == '"' {
        seq!['\\', '"']
    } else if c == '\\' {
        seq!['\\', '\\']
    } else if c == '\u{8}' {
        seq!['\\', 'b']
    } else if c == '\u{c}' {
        seq!['\\', 'f']
    } else if c == '\n' {
        seq!['\\', 'n']
    } else if c == '\r' {
        seq!['\\', 'r']
    } else if c == '\t' {
        seq!['\\', 't']
    } else if (c as u32) < 0x20 {
        seq![
            '\\',
            'u',
            '0',
            '0',
            hex_digit_char(((c as u32) / 16) as u8),
            hex_digit_char(((c as u32) % 16) as u8),
        ]
    } else {
        seq![c]
    }
}

/// The escaped body of a JSON string literal.
pub open spec fn esc(s: Seq<char>) -> Seq<char>
    decreases s.len(),
{
    if s.len() == 0 {
        Seq::empty()
    } else {
        esc_char(s[0]) + esc(s.skip(1))
    }
}

/// A whole JSON string literal: quote, escaped body, quote.
pub open spec fn jstr(s: Seq<char>) -> Seq<char> {
    seq!['"'] + esc(s) + seq!['"']
}

/// An optional string field: a literal, or `null`.
pub open spec fn jopt(s: Option<Seq<char>>) -> Seq<char> {
    match s {
        Some(v) => jstr(v),
        None => "null"@,
    }
}

/// The canonical text form of a payload.
pub open spec fn payload_json(p: PayloadView) -> Seq<char> {
    match p {
        PayloadView::Password { title, login, password, url } => "{\"kind\":\"Password\",\"title\":"@
            + jstr(title) + ",\"login\":"@ + jstr(login) + ",\"password\":"@ + jstr(password)
            + ",\"url\":"@ + jopt(url) + "}"@,
        PayloadView::Note { title, content } => "{\"kind\":\"Note\",\"title\":"@ + jstr(title)
            + ",\"content\":"@ + jstr(content) + "}"@,
        PayloadView::Card { title, holder, number, expiry, cvv } => "{\"kind\":\"Card\",\"title\":"@
            + jstr(title) + ",\"holder\":"@ + jstr(holder) + ",\"number\":"@ + jstr(number)
            + ",\"expiry\":"@ + jstr(expiry) + ",\"cvv\":"@ + jstr(cvv) + "}"@,
    }
}

/// Escaping distributes over concatenation.
pub proof fn lemma_esc_concat(a: Seq<char>, b: Seq<char>)
    ensures
        esc(a + b) == esc(a) + esc(b),
    decreases a.len(),
{
    if a.len() == 0 {
        assert(a + b =~= b);
        assert(esc(a) + esc(b) =~= esc(b));
    } else {
        assert((a + b).len() > 0);
        assert((a + b)[0] == a[0]);
        assert((a + b).skip(1) =~= a.skip(1) + b);
        lemma_esc_concat(a.skip(1), b);
        assert(esc(a + b) =~= esc_char(a[0]) + esc(a.skip(1)) + esc(b));
        assert(esc(a) + esc(b) =~= esc_char(a[0]) + esc(a.skip(1)) + esc(b));
    }
}

/// Escaping one more character appends that character's escape.
pub proof fn lemma_esc_snoc(s: Seq<char>, i: int)
    requires
        0 <= i < s.len(),
    ensures
        esc(s.take(i + 1)) == esc(s.take(i)) + esc_char(s[i]),
{
    assert(s.take(i + 1) =~= s.take(i) + seq![s[i]]);
    lemma_esc_concat(s.take(i), seq![s[i]]);
    assert(esc(seq![s[i]]) =~= esc_char(s[i]) + esc(seq![s[i]].skip(1)));
    assert(seq![s[i]].skip(1) =~= Seq::<char>::empty());
    assert(esc(seq![s[i]]) =~= esc_char(s[i]));
}

/// Append the escaped body of `s` to `out`.
fn append_escaped(out: &mut String, s: &str)
    ensures
        final (out)@ == old(out)@ + esc(s@),
{
    let ghost orig = out@;
    let n = s.unicode_len();
    let mut i: usize = 0;
    while i < n
        invariant
            i <= n,
            n == s@.len(),
            out@ == orig + esc(s@.take(i as int)),
        decreases n - i,
    {
        let c = s.get_char(i);
        if c == '"' {
            push_char(out, '\\');
            push_char(out, '"');
        } else if c == '\\' {
            push_char(out, '\\');
            push_char(out, '\\');
        } else if c == '\u{8}' {
            push_char(out, '\\');
            push_char(out, 'b');
        } else if c == '\u{c}' {
            push_char(out, '\\');
            push_char(out, 'f');
        } else if c == '\n' {
            push_char(out, '\\');
            push_char(out, 'n');
        } else if c == '\r' {
            push_char(out, '\\');
            push_char(out, 'r');
        } else if c == '\t' {
            push_char(out, '\\');
            push_char(out, 't');
        } else if (c as u32) < 0x20 {
            push_char(out, '\\');
            push_char(out, 'u');
            push_char(out, '0');
            push_char(out, '0');
            push_char(out, hex_digit(((c as u32) / 16) as u8));
            push_char(out, hex_digit(((c as u32) % 16) as u8));
        } else {
            push_char(out, c);
        }
        proof {
            lemma_esc_snoc(s@, i as int);
            assert(out@ =~= orig + esc(s@.take(i + 1)));
        }
        i = i + 1;
    }
    proof {
        assert(s@.take(n as int) =~= s@);
    }
}

/// Append the JSON string literal of `s` to `out`.
fn append_jstr(out: &mut String, s: &str)
    ensures
        final (out)@ == old(out)@ + jstr(s@),
{
    push_char(out, '"');
    append_escaped(out, s);
    push_char(out, '"');
    proof {
        assert(out@ =~= old(out)@ + jstr(s@));
    }
}

/// Render a payload in its canonical text form.
pub fn serialize_payload(p: &SecretPayload) -> (r: String)
    ensures
        r@ == payload_json(p@),
{
    let mut out = String::new();
    match p {
        SecretPayload::Password { title, login, password, url } => {
            out.append("{\"kind\":\"Password\",\"title\":");
            append_jstr(&mut out, title.as_str());
            out.append(",\"login\":");
            append_jstr(&mut out, login.as_str());
            out.append(",\"password\":");
            append_jstr(&mut out, password.as_str());
            out.append(",\"url\":");
            match url {
                Some(u) => append_jstr(&mut out, u.as_str()),
                None => out.append("null"),
            }
            out.append("}");
        },
        SecretPayload::Note { title, content } => {
            out.append("{\"kind\":\"Note\",\"title\":");
            append_jstr(&mut out, title.as_str());
            out.append(",\"content\":");
            append_jstr(&mut out, content.as_str());
            out.append("}");
        },
        SecretPayload::Card { title, holder, number, expiry, cvv } => {
            out.append("{\"kind\":\"Card\",\"title\":");
            append_jstr(&mut out, title.as_str());
            out.append(",\"holder\":");
            append_jstr(&mut out, holder.as_str());
            out.append(",\"number\":");
            append_jstr(&mut out, number.as_str());
            out.append(",\"expiry\":");
            append_jstr(&mut out, expiry.as_str());
            out.append(",\"cvv\":");
            append_jstr(&mut out, cvv.as_str());
            out.append("}");
        },
    }
    proof {
        assert(out@ =~= payload_json(p@));
    }
    out
}

} // verus!

verus! {

/// Whether the JSON string literal of `u` stands in `z` at `pos`.
pub open spec fn jstr_at(z: Seq<char>, pos: int, u: Seq<char>) -> bool {
    0 <= pos && pos + jstr(u).len() <= z.len() && z.subrange(pos, pos + jstr(u).len()) == jstr(u)
}

/// The shape of a character's escape: it is never empty, it never starts with
/// a quote, and it either starts with a backslash or is the character itself,
/// which is then printable and needs no escape.
proof fn lemma_esc_char_shape(d: char)
    ensures
        esc_char(d).len() == 1 || esc_char(d).len() == 2 || esc_char(d).len() == 6,
        esc_char(d)[0] != '"',
        esc_char(d)[0] == '\\' || (esc_char(d) =~= seq![d] && d != '"' && d != '\\' && (d as u32)
            >= 0x20),
{
}

/// Hex digit characters are injective on nibbles.
proof fn lemma_hex_digit_char_injective(m: u8, n: u8)
    requires
        m < 16,
        n < 16,
        hex_digit_char(m) == hex_digit_char(n),
    ensures
        m == n,
{
    assert(hex_digit_char(m) as u32 == if m < 10 { (48 + m) as u32 } else { (87 + m) as u32 });
    assert(hex_digit_char(n) as u32 == if n < 10 { (48 + n) as u32 } else { (87 + n) as u32 });
}

/// What the second character of a backslash escape tells about the escaped
/// character: each short escape pins it, and `u` pins it to an unnamed control
/// character spelled `\u00xx` in lowercase hex.
proof fn lemma_esc_char_second(d: char)
    requires
        esc_char(d)[0] == '\\',
    ensures
        esc_char(d).len() == 2 || esc_char(d).len() == 6,
        esc_char(d)[1] == '"' ==> d == '"' && esc_char(d) =~= seq!['\\', '"'],
        esc_char(d)[1] == '\\' ==> d == '\\' && esc_char(d) =~= seq!['\\', '\\'],
        esc_char(d)[1] == 'b' ==> d == '\u{8}' && esc_char(d) =~= seq!['\\', 'b'],
        esc_char(d)[1] == 'f' ==> d == '\u{c}' && esc_char(d) =~= seq!['\\', 'f'],
        esc_char(d)[1] == 'n' ==> d == '\n' && esc_char(d) =~= seq!['\\', 'n'],
        esc_char(d)[1] == 'r' ==> d == '\r' && esc_char(d) =~= seq!['\\', 'r'],
        esc_char(d)[1] == 't' ==> d == '\t' && esc_char(d) =~= seq!['\\', 't'],
        esc_char(d)[1] == 'u' ==> (d as u32) < 0x20 && d != '\u{8}' && d != '\u{c}' && d != '\n'
            && d != '\r' && d != '\t' && esc_char(d) =~= seq![
            '\\',
            'u',
            '0',
            '0',
            hex_digit_char(((d as u32) / 16) as u8),
            hex_digit_char(((d as u32) % 16) as u8),
        ],
        esc_char(d)[1] == '"' || esc_char(d)[1] == '\\' || esc_char(d)[1] == 'b' || esc_char(d)[1]
            == 'f' || esc_char(d)[1] == 'n' || esc_char(d)[1] == 'r' || esc_char(d)[1] == 't'
            || esc_char(d)[1] == 'u',
{
    if (d as u32) < 0x20 && d != '\u{8}' && d != '\u{c}' && d != '\n' && d != '\r' && d != '\t' {
        assert(hex_digit_char(((d as u32) / 16) as u8) != 'u') by {
            let m = ((d as u32) / 16) as u8;
            assert(m < 16);
            assert(hex_digit_char(m) as u32 == if m < 10 { (48 + m) as u32 } else {
                (87 + m) as u32
            });
        }
    }
}

/// Facts holding mid-scan: while `got` is the prefix of `u` scanned so far,
/// the escape stream of what remains of `u` stands in `z` right after it,
/// closed by a quote.
proof fn lemma_scan_state(z: Seq<char>, pos: int, got: Seq<char>, u: Seq<char>)
    requires
        jstr_at(z, pos, u),
        got == u.take(got.len() as int),
        got.len() <= u.len(),
    ensures
        esc(u) == esc(got) + esc(u.skip(got.len() as int)),
        esc(got).len() <= esc(u).len(),
        pos + 2 + esc(u).len() <= z.len(),
        z[pos] == '"',
        z[pos + 1 + esc(u).len()] == '"',
        z.subrange(pos + 1, pos + 1 + esc(u).len()) == esc(u),
        z.subrange(pos + 1 + esc(got).len(), pos + 1 + esc(u).len()) == esc(
            u.skip(got.len() as int),
        ),
{
    assert(u =~= u.take(got.len() as int) + u.skip(got.len() as int));
    lemma_esc_concat(got, u.skip(got.len() as int));
    let l = jstr(u).len();
    let w = z.subrange(pos, pos + l);
    assert(w == jstr(u));
    assert(z[pos] == w[0]);
    assert(z[pos + 1 + esc(u).len()] == w[1 + esc(u).len() as int]);
    assert(z.subrange(pos + 1, pos + 1 + esc(u).len()) =~= jstr(u).subrange(
        1,
        1 + esc(u).len() as int,
    ));
    assert(jstr(u).subrange(1, 1 + esc(u).len() as int) =~= esc(u));
    assert(z.subrange(pos + 1 + esc(got).len(), pos + 1 + esc(u).len()) =~= esc(u).subrange(
        esc(got).len() as int,
        esc(u).len() as int,
    ));
    assert(esc(u).subrange(esc(got).len() as int, esc(u).len() as int) =~= esc(
        u.skip(got.len() as int),
    ));
}

/// The nibble a lowercase hex character stands for.
fn from_hex(c: char) -> (r: Option<u8>)
    ensures
        r matches Some(n) ==> n < 16 && hex_digit_char(n) == c,
        r is None ==> forall|n: u8| n < 16 ==> hex_digit_char(n) != c,
{
    let u = c as u32;
    if 48 <= u && u <= 57 {
        let n = (u - 48) as u8;
        assert(hex_digit_char(n) == c);
        Some(n)
    } else if 97 <= u && u <= 102 {
        let n = (u - 87) as u8;
        assert(hex_digit_char(n) == c);
        Some(n)
    } else {
        proof {
            assert forall|n: u8| n < 16 implies hex_digit_char(n) != c by {
                assert(hex_digit_char(n) as u32 == if n < 10 { (48 + n) as u32 } else {
                    (87 + n) as u32
                });
            }
        }
        None
    }
}

} // verus!

verus! {

/// A JSON string literal is self-delimiting: two literals standing at the
/// same place in the same text are the same literal of the same text.
proof fn lemma_esc_unambiguous(a: Seq<char>, b: Seq<char>, x: Seq<char>, y: Seq<char>)
    requires
        esc(a) + seq!['"'] + x == esc(b) + seq!['"'] + y,
    ensures
        a == b,
        x == y,
    decreases a.len(),
{
    let l = esc(a) + seq!['"'] + x;
    if a.len() == 0 && b.len() == 0 {
        assert(x =~= l.skip(1));
        assert(y =~= l.skip(1));
        assert(a =~= b);
    } else if a.len() == 0 {
        assert(l[0] == '"');
        assert(esc(b) == esc_char(b[0]) + esc(b.skip(1)));
        lemma_esc_char_shape(b[0]);
        assert(l[0] == esc_char(b[0])[0]);
        assert(false);
    } else if b.len() == 0 {
        assert(l[0] == '"');
        assert(esc(a) == esc_char(a[0]) + esc(a.skip(1)));
        lemma_esc_char_shape(a[0]);
        assert(l[0] == esc_char(a[0])[0]);
        assert(false);
    } else {
        assert(esc(a) == esc_char(a[0]) + esc(a.skip(1)));
        assert(esc(b) == esc_char(b[0]) + esc(b.skip(1)));
        lemma_esc_char_shape(a[0]);
        lemma_esc_char_shape(b[0]);
        assert(l[0] == esc_char(a[0])[0]);
        assert(l[0] == esc_char(b[0])[0]);
        if esc_char(a[0])[0] != '\\' {
            assert(esc_char(a[0]) =~= seq![a[0]]);
            assert(esc_char(b[0])[0] != '\\');
            assert(esc_char(b[0]) =~= seq![b[0]]);
            assert(a[0] == l[0] && b[0] == l[0]);
            assert(esc(a.skip(1)) + seq!['"'] + x =~= l.skip(1));
            assert(esc(b.skip(1)) + seq!['"'] + y =~= l.skip(1));
            lemma_esc_unambiguous(a.skip(1), b.skip(1), x, y);
            assert(a =~= seq![a[0]] + a.skip(1));
            assert(b =~= seq![b[0]] + b.skip(1));
        } else {
            lemma_esc_char_second(a[0]);
            assert(esc_char(b[0])[0] == '\\');
            lemma_esc_char_second(b[0]);
            assert(l[1] == esc_char(a[0])[1]);
            assert(l[1] == esc_char(b[0])[1]);
            let e = esc_char(a[0])[1];
            if e == 'u' {
                assert((a[0] as u32) < 0x20 && (b[0] as u32) < 0x20);
                assert(l[4] == esc_char(a[0])[4] && l[5] == esc_char(a[0])[5]);
                assert(l[4] == esc_char(b[0])[4] && l[5] == esc_char(b[0])[5]);
                lemma_hex_digit_char_injective(
                    ((a[0] as u32) / 16) as u8,
                    ((b[0] as u32) / 16) as u8,
                );
                lemma_hex_digit_char_injective(
                    ((a[0] as u32) % 16) as u8,
                    ((b[0] as u32) % 16) as u8,
                );
                let xa = a[0] as u32;
                let xb = b[0] as u32;
                assert(xa / 16 == xb / 16 && xa % 16 == xb % 16);
                assert(xa == 16 * (xa / 16) + xa % 16) by (nonlinear_arith);
                assert(xb == 16 * (xb / 16) + xb % 16) by (nonlinear_arith);
                assert(a[0] as u32 == b[0] as u32);
                vstd::utf8::char_u32_cast(a[0], xa);
                vstd::utf8::char_u32_cast(b[0], xb);
                assert(a[0] == b[0]);
                assert(esc(a.skip(1)) + seq!['"'] + x =~= l.skip(6));
                assert(esc(b.skip(1)) + seq!['"'] + y =~= l.skip(6));
                lemma_esc_unambiguous(a.skip(1), b.skip(1), x, y);
                assert(a =~= seq![a[0]] + a.skip(1));
                assert(b =~= seq![b[0]] + b.skip(1));
            } else {
                assert(a[0] == b[0]);
                assert(esc_char(a[0]).len() == 2);
                assert(esc(a.skip(1)) + seq!['"'] + x =~= l.skip(2));
                assert(esc(b.skip(1)) + seq!['"'] + y =~= l.skip(2));
                lemma_esc_unambiguous(a.skip(1), b.skip(1), x, y);
                assert(a =~= seq![a[0]] + a.skip(1));
                assert(b =~= seq![b[0]] + b.skip(1));
            }
        }
    }
}

/// Two JSON string literals standing at the same position of the same text
/// are the same.
proof fn lemma_jstr_at_unique(z: Seq<char>, pos: int, a: Seq<char>, b: Seq<char>)
    requires
        jstr_at(z, pos, a),
        jstr_at(z, pos, b),
    ensures
        a == b,
{
    let rest_a = z.subrange(pos + jstr(a).len(), z.len() as int);
    let rest_b = z.subrange(pos + jstr(b).len(), z.len() as int);
    assert(Seq::<char>::empty() =~= a.take(0));
    assert(Seq::<char>::empty() =~= b.take(0));
    lemma_scan_state(z, pos, Seq::empty(), a);
    lemma_scan_state(z, pos, Seq::empty(), b);
    assert(esc(a) + seq!['"'] + rest_a =~= z.subrange(pos + 1, z.len() as int)) by {
        assert forall|i: int| 0 <= i < esc(a).len() implies esc(a)[i] == z[pos + 1 + i] by {
            assert(z.subrange(pos + 1, pos + 1 + esc(a).len())[i] == z[pos + 1 + i]);
        }
        assert(z[pos + 1 + esc(a).len()] == '"');
    }
    assert(esc(b) + seq!['"'] + rest_b =~= z.subrange(pos + 1, z.len() as int)) by {
        assert forall|i: int| 0 <= i < esc(b).len() implies esc(b)[i] == z[pos + 1 + i] by {
            assert(z.subrange(pos + 1, pos + 1 + esc(b).len())[i] == z[pos + 1 + i]);
        }
        assert(z[pos + 1 + esc(b).len()] == '"');
    }
    lemma_esc_unambiguous(a, b, rest_a, rest_b);
}

} // verus!

verus! {

/// Escaping one more character at the end of the text appends its escape.
proof fn lemma_esc_push(s: Seq<char>, c: char)
    ensures
        esc(s.push(c)) == esc(s) + esc_char(c),
{
    assert(s.push(c) =~= s + seq![c]);
    lemma_esc_concat(s, seq![c]);
    assert(esc(seq![c]) =~= esc_char(c) + esc(seq![c].skip(1)));
    assert(seq![c].skip(1) =~= Seq::<char>::empty());
    assert(esc(seq![c]) =~= esc_char(c));
}

/// What one scanning step sees: with `got` a strict prefix of the literal's
/// text `u`, the escape of the next character of `u` stands in `z` right where
/// the scan is; with `got` the whole text, the closing quote stands there.
proof fn lemma_scan_step(z: Seq<char>, pos: int, got: Seq<char>, u: Seq<char>)
    requires
        jstr_at(z, pos, u),
        got == u.take(got.len() as int),
        got.len() <= u.len(),
    ensures
        got.len() == u.len() ==> z[pos + 1 + esc(got).len()] == '"',
        got.len() == u.len() ==> pos + 1 + esc(got).len() < z.len(),
        got.len() < u.len() ==> pos + 1 + esc(got).len() + esc_char(u[got.len() as int]).len() + 1
            <= z.len(),
        got.len() < u.len() ==> z.subrange(
            pos + 1 + esc(got).len(),
            pos + 1 + esc(got).len() + esc_char(u[got.len() as int]).len(),
        ) == esc_char(u[got.len() as int]),
        got.len() < u.len() ==> z[pos + 1 + esc(got).len()] == esc_char(u[got.len() as int])[0],
        got.len() < u.len() ==> u.take(got.len() as int + 1) == got.push(u[got.len() as int]),
{
    lemma_scan_state(z, pos, got, u);
    let k = got.len() as int;
    if got.len() == u.len() {
        assert(got =~= u);
    } else {
        let rem = u.skip(k);
        assert(rem.len() > 0);
        assert(rem[0] == u[k]);
        let d = rem[0];
        assert(esc(rem) == esc_char(d) + esc(rem.skip(1)));
        lemma_esc_char_shape(d);
        assert(esc_char(d).len() <= esc(rem).len());
        assert(esc(got).len() + esc(rem).len() == esc(u).len());
        let i = pos + 1 + esc(got).len();
        assert(z.subrange(i, pos + 1 + esc(u).len()) == esc(rem));
        assert(z.subrange(i, i + esc_char(d).len()) =~= esc_char(d)) by {
            assert forall|j: int| 0 <= j < esc_char(d).len() implies z[i + j] == esc_char(d)[j] by {
                assert(z.subrange(i, pos + 1 + esc(u).len())[j] == z[i + j]);
                assert(esc(rem)[j] == esc_char(d)[j]);
            }
        }
        assert(z[i] == z.subrange(i, i + esc_char(d).len())[0]);
        assert(u.take(k + 1) =~= got.push(d));
    }
}

/// Scan the JSON string literal standing at `pos` of `v`. Exactly the
/// canonical literals are accepted: the scanned text comes back with the
/// position just after the closing quote, and it is the only text whose
/// literal stands there.
fn scan_jstring(v: &Vec<char>, pos: usize) -> (r: Option<(String, usize)>)
    requires
        pos <= v@.len(),
    ensures
        r matches Some(t) ==> t.1 == pos + jstr(t.0@).len() && t.1 <= v@.len() && jstr_at(
            v@,
            pos as int,
            t.0@,
        ),
        r matches Some(t) ==> forall|u: Seq<char>| jstr_at(v@, pos as int, u) ==> u == t.0@,
        r is None ==> forall|u: Seq<char>| !jstr_at(v@, pos as int, u),
{
    let ghost z = v@;
    proof {
        assert forall|u: Seq<char>| jstr_at(z, pos as int, u) implies Seq::<char>::empty()
            == u.take(0) && pos + 2 <= z.len() && z[pos as int] == '"' by {
            assert(Seq::<char>::empty() =~= u.take(0));
            lemma_scan_state(z, pos as int, u.take(0), u);
        }
    }
    if pos == v.len() || v[pos] != '"' {
        return None;
    }
    let mut out = String::new();
    let mut i: usize = pos + 1;
    loop
        invariant
            pos + 1 <= i <= v@.len(),
            z == v@,
            z[pos as int] == '"',
            i as int == pos + 1 + esc(out@).len(),
            z.subrange(pos as int + 1, i as int) == esc(out@),
            forall|u: Seq<char>|
                #[trigger] jstr_at(z, pos as int, u) ==> out@.len() <= u.len() && out@ == u.take(
                    out@.len() as int,
                ),
        decreases v@.len() - i,
    {
        proof {
            assert forall|u: Seq<char>| jstr_at(z, pos as int, u) implies out@.len() < u.len()
                || (out@.len() == u.len() && i < z.len() && z[i as int] == '"') by {
                lemma_scan_step(z, pos as int, out@, u);
            }
        }
        if i == v.len() {
            proof {
                assert forall|u: Seq<char>| !jstr_at(z, pos as int, u) by {
                    if jstr_at(z, pos as int, u) {
                        lemma_scan_step(z, pos as int, out@, u);
                        if out@.len() < u.len() {
                            lemma_esc_char_shape(u[out@.len() as int]);
                        }
                    }
                }
            }
            return None;
        }
        let c = v[i];
        if c == '"' {
            proof {
                assert(z.subrange(pos as int, i + 1) =~= jstr(out@));
                assert(jstr_at(z, pos as int, out@));
                assert forall|u: Seq<char>| jstr_at(z, pos as int, u) implies u == out@ by {
                    lemma_jstr_at_unique(z, pos as int, u, out@);
                }
            }
            return Some((out, i + 1));
        }
        proof {
            // The quote did not close the literal, so under any candidate text
            // the escape of its next character starts here.
            assert forall|u: Seq<char>| jstr_at(z, pos as int, u) implies out@.len() < u.len()
                && z[i as int] == esc_char(u[out@.len() as int])[0] && z.subrange(
                i as int,
                i + esc_char(u[out@.len() as int]).len(),
            ) == esc_char(u[out@.len() as int]) && i + esc_char(u[out@.len() as int]).len() + 1
                <= z.len() && u.take(out@.len() as int + 1) == out@.push(u[out@.len() as int]) by {
                lemma_scan_step(z, pos as int, out@, u);
            }
        }
        if c == '\\' {
            if v.len() - i < 3 {
                // Even the shortest escape and the closing quote cannot fit.
                proof {
                    assert forall|u: Seq<char>| !jstr_at(z, pos as int, u) by {
                        if jstr_at(z, pos as int, u) {
                            let d = u[out@.len() as int];
                            lemma_esc_char_shape(d);
                            lemma_esc_char_second(d);
                        }
                    }
                }
                return None;
            }
            let e = v[i + 1];
            proof {
                assert forall|u: Seq<char>| jstr_at(z, pos as int, u) implies esc_char(
                    u[out@.len() as int],
                )[0] == '\\' && esc_char(u[out@.len() as int])[1] == e by {
                    let d = u[out@.len() as int];
                    lemma_esc_char_shape(d);
                    lemma_esc_char_second(d);
                    assert(z.subrange(i as int, i + esc_char(d).len())[1] == z[i + 1]);
                }
            }
            let short: Option<char> = match e {
                '"' => Some('"'),
                '\\' => Some('\\'),
                'b' => Some('\u{8}'),
                'f' => Some('\u{c}'),
                'n' => Some('\n'),
                'r' => Some('\r'),
                't' => Some('\t'),
                _ => None,
            };
            if let Some(dc) = short {
                proof {
                    assert(esc_char(dc) =~= seq!['\\', e]);
                    assert(z.subrange(i as int, i + 2) =~= esc_char(dc));
                    lemma_esc_push(out@, dc);
                    assert(z.subrange(pos as int + 1, i + 2) =~= esc(out@) + esc_char(dc));
                    assert forall|u: Seq<char>| jstr_at(z, pos as int, u) implies out@.push(dc)
                        == u.take(out@.len() as int + 1) by {
                        let d = u[out@.len() as int];
                        lemma_esc_char_second(d);
                        assert(d == dc);
                    }
                }
                push_char(&mut out, dc);
                i = i + 2;
            } else if e == 'u' {
                if v.len() - i < 7 {
                    // A `\u00xx` escape and the closing quote cannot fit.
                    proof {
                        assert forall|u: Seq<char>| !jstr_at(z, pos as int, u) by {
                            if jstr_at(z, pos as int, u) {
                                let d = u[out@.len() as int];
                                lemma_esc_char_second(d);
                            }
                        }
                    }
                    return None;
                }
                proof {
                    assert forall|u: Seq<char>| jstr_at(z, pos as int, u) implies {
                        let d = u[out@.len() as int];
                        &&& (d as u32) < 0x20
                        &&& esc_char(d) =~= seq![
                            '\\',
                            'u',
                            '0',
                            '0',
                            hex_digit_char(((d as u32) / 16) as u8),
                            hex_digit_char(((d as u32) % 16) as u8),
                        ]
                        &&& z[i + 2] == '0'
                        &&& z[i + 3] == '0'
                        &&& z[i + 4] == hex_digit_char(((d as u32) / 16) as u8)
                        &&& z[i + 5] == hex_digit_char(((d as u32) % 16) as u8)
                        &&& d != '\u{8}' && d != '\u{c}' && d != '\n' && d != '\r' && d != '\t'
                    } by {
                        let d = u[out@.len() as int];
                        lemma_esc_char_second(d);
                        assert(z.subrange(i as int, i + 6)[2] == z[i + 2]);
                        assert(z.subrange(i as int, i + 6)[3] == z[i + 3]);
                        assert(z.subrange(i as int, i + 6)[4] == z[i + 4]);
                        assert(z.subrange(i as int, i + 6)[5] == z[i + 5]);
                    }
                }
                if v[i + 2] != '0' || v[i + 3] != '0' {
                    return None;
                }
                let h1 = match from_hex(v[i + 4]) {
                    Some(h) => h,
                    None => {
                        proof {
                            assert forall|u: Seq<char>| !jstr_at(z, pos as int, u) by {
                                if jstr_at(z, pos as int, u) {
                                    let d = u[out@.len() as int];
                                    assert((((d as u32) / 16) as u8) < 16);
                                }
                            }
                        }
                        return None;
                    },
                };
                let h2 = match from_hex(v[i + 5]) {
                    Some(h) => h,
                    None => {
                        proof {
                            assert forall|u: Seq<char>| !jstr_at(z, pos as int, u) by {
                                if jstr_at(z, pos as int, u) {
                                    let d = u[out@.len() as int];
                                    assert((((d as u32) % 16) as u8) < 16);
                                }
                            }
                        }
                        return None;
                    },
                };
                let d8: u8 = 16 * h1 + h2;
                if d8 >= 0x20 || d8 == 0x8 || d8 == 0x9 || d8 == 0xa || d8 == 0xc || d8 == 0xd {
                    // Not canonical: this code point has a shorter escape, or
                    // needs none.
                    proof {
                        assert forall|u: Seq<char>| !jstr_at(z, pos as int, u) by {
                            if jstr_at(z, pos as int, u) {
                                let d = u[out@.len() as int];
                                lemma_hex_digit_char_injective(h1, ((d as u32) / 16) as u8);
                                lemma_hex_digit_char_injective(h2, ((d as u32) % 16) as u8);
                                assert(d as u32 == 16 * ((d as u32) / 16) + (d as u32) % 16) by (nonlinear_arith);
                                assert(d8 == d as u32);
                                assert('\u{8}' as u32 == 0x8 && '\u{c}' as u32 == 0xc && '\n' as u32
                                    == 0xa && '\r' as u32 == 0xd && '\t' as u32 == 0x9);
                                vstd::utf8::char_u32_cast(d, d as u32);
                            }
                        }
                    }
                    return None;
                }
                let dc = d8 as char;
                proof {
                    assert(dc as u32 == d8);
                    assert(esc_char(dc) =~= seq![
                        '\\',
                        'u',
                        '0',
                        '0',
                        hex_digit_char(((dc as u32) / 16) as u8),
                        hex_digit_char(((dc as u32) % 16) as u8),
                    ]) by {
                        assert(dc != '"' && dc != '\\' && dc != '\u{8}' && dc != '\u{c}' && dc
                            != '\n' && dc != '\r' && dc != '\t') by {
                            assert('"' as u32 == 0x22 && '\\' as u32 == 0x5c);
                            assert('\u{8}' as u32 == 0x8 && '\u{c}' as u32 == 0xc && '\n' as u32
                                == 0xa && '\r' as u32 == 0xd && '\t' as u32 == 0x9);
                        }
                    }
                    assert((dc as u32) / 16 == h1 as u32 && (dc as u32) % 16 == h2 as u32) by {
                        assert(d8 == 16 * h1 + h2 && h2 < 16);
                        assert(d8 / 16 == h1 && d8 % 16 == h2) by (nonlinear_arith)
                            requires
                                d8 == 16 * h1 + h2,
                                h1 < 16,
                                h2 < 16,
                        ;
                    }
                    assert(z.subrange(i as int, i + 6) =~= esc_char(dc));
                    lemma_esc_push(out@, dc);
                    assert(z.subrange(pos as int + 1, i + 6) =~= esc(out@) + esc_char(dc));
                    assert forall|u: Seq<char>| jstr_at(z, pos as int, u) implies out@.push(dc)
                        == u.take(out@.len() as int + 1) by {
                        let d = u[out@.len() as int];
                        lemma_esc_char_second(d);
                        lemma_hex_digit_char_injective(h1, ((d as u32) / 16) as u8);
                        lemma_hex_digit_char_injective(h2, ((d as u32) % 16) as u8);
                        assert(d as u32 == 16 * ((d as u32) / 16) + (d as u32) % 16) by (nonlinear_arith);
                        assert(d as u32 == dc as u32);
                        vstd::utf8::char_u32_cast(d, d as u32);
                        vstd::utf8::char_u32_cast(dc, dc as u32);
                        assert(d == dc);
                    }
                }
                push_char(&mut out, dc);
                i = i + 6;
            } else {
                // Not an escape the canonical form uses.
                proof {
                    assert forall|u: Seq<char>| !jstr_at(z, pos as int, u) by {
                        if jstr_at(z, pos as int, u) {
                            let d = u[out@.len() as int];
                            lemma_esc_char_second(d);
                        }
                    }
                }
                return None;
            }
        } else if (c as u32) < 0x20 {
            // A raw control character never stands in the canonical form.
            proof {
                assert forall|u: Seq<char>| !jstr_at(z, pos as int, u) by {
                    if jstr_at(z, pos as int, u) {
                        let d = u[out@.len() as int];
                        lemma_esc_char_shape(d);
                    }
                }
            }
            return None;
        } else {
            proof {
                assert(esc_char(c) =~= seq![c]);
                assert(z.subrange(i as int, i + 1) =~= esc_char(c));
                lemma_esc_push(out@, c);
                assert(z.subrange(pos as int + 1, i + 1) =~= esc(out@) + esc_char(c));
                assert forall|u: Seq<char>| jstr_at(z, pos as int, u) implies out@.push(c)
                    == u.take(out@.len() as int + 1) by {
                    let d = u[out@.len() as int];
                    lemma_esc_char_shape(d);
                }
            }
            push_char(&mut out, c);
            i = i + 1;
        }
    }
}

} // verus!

verus! {

/// Whether `lit` stands in `z` at `pos`.
pub open spec fn lit_at(z: Seq<char>, pos: int, lit: Seq<char>) -> bool {
    0 <= pos && pos + lit.len() <= z.len() && z.subrange(pos, pos + lit.len()) == lit
}

/// Check that the literal `lit` stands at `pos` of `v`, and step past it.
fn expect_lit(v: &Vec<char>, pos: usize, lit: &str) -> (r: Option<usize>)
    requires
        pos <= v@.len(),
    ensures
        r matches Some(np) ==> np == pos + lit@.len() && np <= v@.len() && lit_at(
            v@,
            pos as int,
            lit@,
        ),
        r is None ==> !lit_at(v@, pos as int, lit@),
{
    let m = lit.unicode_len();
    let n = v.len();
    if n - pos < m {
        return None;
    }
    let mut j: usize = 0;
    while j < m
        invariant
            j <= m,
            m == lit@.len(),
            pos + m <= n,
            n == v@.len(),
            v@.subrange(pos as int, pos + j) == lit@.take(j as int),
        decreases m - j,
    {
        if v[pos + j] != lit.get_char(j) {
            proof {
                if lit_at(v@, pos as int, lit@) {
                    assert(v@.subrange(pos as int, pos + lit@.len())[j as int] == v@[pos + j]);
                }
            }
            return None;
        }
        proof {
            assert(v@.subrange(pos as int, pos + j + 1) =~= lit@.take(j + 1));
        }
        j = j + 1;
    }
    proof {
        assert(lit@.take(m as int) =~= lit@);
    }
    Some(pos + m)
}

} // verus!

verus! {

/// The segment layout of a Password payload's canonical text.
proof fn lemma_password_structure(z: Seq<char>, t: Seq<char>, l: Seq<char>, w: Seq<char>, u: Option<
    Seq<char>,
>)
    requires
        z == payload_json(PayloadView::Password { title: t, login: l, password: w, url: u }),
    ensures
        lit_at(z, 0, "{\"kind\":\"Password\",\"title\":"@),
        jstr_at(z, "{\"kind\":\"Password\",\"title\":"@.len() as int, t),
        lit_at(
            z,
            "{\"kind\":\"Password\",\"title\":"@.len() as int + jstr(t).len(),
            ",\"login\":"@,
        ),
        jstr_at(
            z,
            "{\"kind\":\"Password\",\"title\":"@.len() as int + jstr(t).len() + ",\"login\":"@.len(),
            l,
        ),
        lit_at(
            z,
            "{\"kind\":\"Password\",\"title\":"@.len() as int + jstr(t).len() + ",\"login\":"@.len()
                + jstr(l).len(),
            ",\"password\":"@,
        ),
        jstr_at(
            z,
            "{\"kind\":\"Password\",\"title\":"@.len() as int + jstr(t).len() + ",\"login\":"@.len()
                + jstr(l).len() + ",\"password\":"@.len(),
            w,
        ),
        lit_at(
            z,
            "{\"kind\":\"Password\",\"title\":"@.len() as int + jstr(t).len() + ",\"login\":"@.len()
                + jstr(l).len() + ",\"password\":"@.len() + jstr(w).len(),
            ",\"url\":"@,
        ),
        u matches Some(uu) ==> jstr_at(
            z,
            "{\"kind\":\"Password\",\"title\":"@.len() as int + jstr(t).len() + ",\"login\":"@.len()
                + jstr(l).len() + ",\"password\":"@.len() + jstr(w).len() + ",\"url\":"@.len(),
            uu,
        ),
        u is None ==> lit_at(
            z,
            "{\"kind\":\"Password\",\"title\":"@.len() as int + jstr(t).len() + ",\"login\":"@.len()
                + jstr(l).len() + ",\"password\":"@.len() + jstr(w).len() + ",\"url\":"@.len(),
            "null"@,
        ),
        lit_at(
            z,
            "{\"kind\":\"Password\",\"title\":"@.len() as int + jstr(t).len() + ",\"login\":"@.len()
                + jstr(l).len() + ",\"password\":"@.len() + jstr(w).len() + ",\"url\":"@.len()
                + jopt(u).len(),
            "}"@,
        ),
        z.len() == "{\"kind\":\"Password\",\"title\":"@.len() as int + jstr(t).len() + ",\"login\":"@.len()
            + jstr(l).len() + ",\"password\":"@.len() + jstr(w).len() + ",\"url\":"@.len() + jopt(
            u,
        ).len() + 1,
{
    reveal_strlit("}");
    let a0 = "{\"kind\":\"Password\",\"title\":"@;
    let a1 = ",\"login\":"@;
    let a2 = ",\"password\":"@;
    let a3 = ",\"url\":"@;
    let a4 = "}"@;
    assert(z.subrange(0, a0.len() as int) =~= a0);
    let p1 = a0.len() as int;
    assert(z.subrange(p1, p1 + jstr(t).len()) =~= jstr(t));
    let p2 = p1 + jstr(t).len();
    assert(z.subrange(p2, p2 + a1.len()) =~= a1);
    let p3 = p2 + a1.len();
    assert(z.subrange(p3, p3 + jstr(l).len()) =~= jstr(l));
    let p4 = p3 + jstr(l).len();
    assert(z.subrange(p4, p4 + a2.len()) =~= a2);
    let p5 = p4 + a2.len();
    assert(z.subrange(p5, p5 + jstr(w).len()) =~= jstr(w));
    let p6 = p5 + jstr(w).len();
    assert(z.subrange(p6, p6 + a3.len()) =~= a3);
    let p7 = p6 + a3.len();
    assert(z.subrange(p7, p7 + jopt(u).len()) =~= jopt(u));
    let p8 = p7 + jopt(u).len();
    assert(z.subrange(p8, p8 + 1) =~= a4);
}

/// The segment layout of a Note payload's canonical text.
proof fn lemma_note_structure(z: Seq<char>, t: Seq<char>, c: Seq<char>)
    requires
        z == payload_json(PayloadView::Note { title: t, content: c }),
    ensures
        lit_at(z, 0, "{\"kind\":\"Note\",\"title\":"@),
        jstr_at(z, "{\"kind\":\"Note\",\"title\":"@.len() as int, t),
        lit_at(z, "{\"kind\":\"Note\",\"title\":"@.len() as int + jstr(t).len(), ",\"content\":"@),
        jstr_at(
            z,
            "{\"kind\":\"Note\",\"title\":"@.len() as int + jstr(t).len() + ",\"content\":"@.len(),
            c,
        ),
        lit_at(
            z,
            "{\"kind\":\"Note\",\"title\":"@.len() as int + jstr(t).len() + ",\"content\":"@.len() + jstr(
                c,
            ).len(),
            "}"@,
        ),
        z.len() == "{\"kind\":\"Note\",\"title\":"@.len() as int + jstr(t).len() + ",\"content\":"@.len()
            + jstr(c).len() + 1,
{
    reveal_strlit("}");
    let a0 = "{\"kind\":\"Note\",\"title\":"@;
    let a1 = ",\"content\":"@;
    assert(z.subrange(0, a0.len() as int) =~= a0);
    let p1 = a0.len() as int;
    assert(z.subrange(p1, p1 + jstr(t).len()) =~= jstr(t));
    let p2 = p1 + jstr(t).len();
    assert(z.subrange(p2, p2 + a1.len()) =~= a1);
    let p3 = p2 + a1.len();
    assert(z.subrange(p3, p3 + jstr(c).len()) =~= jstr(c));
    let p4 = p3 + jstr(c).len();
    assert(z.subrange(p4, p4 + 1) =~= "}"@);
}

/// The segment layout of a Card payload's canonical text.
#[verifier::rlimit(30)]
proof fn lemma_card_structure(
    z: Seq<char>,
    t: Seq<char>,
    h: Seq<char>,
    n: Seq<char>,
    e: Seq<char>,
    c: Seq<char>,
)
    requires
        z == payload_json(
            PayloadView::Card { title: t, holder: h, number: n, expiry: e, cvv: c },
        ),
    ensures
        lit_at(z, 0, "{\"kind\":\"Card\",\"title\":"@),
        jstr_at(z, "{\"kind\":\"Card\",\"title\":"@.len() as int, t),
        lit_at(z, "{\"kind\":\"Card\",\"title\":"@.len() as int + jstr(t).len(), ",\"holder\":"@),
        jstr_at(
            z,
            "{\"kind\":\"Card\",\"title\":"@.len() as int + jstr(t).len() + ",\"holder\":"@.len(),
            h,
        ),
        lit_at(
            z,
            "{\"kind\":\"Card\",\"title\":"@.len() as int + jstr(t).len() + ",\"holder\":"@.len() + jstr(
                h,
            ).len(),
            ",\"number\":"@,
        ),
        jstr_at(
            z,
            "{\"kind\":\"Card\",\"title\":"@.len() as int + jstr(t).len() + ",\"holder\":"@.len() + jstr(
                h,
            ).len() + ",\"number\":"@.len(),
            n,
        ),
        lit_at(
            z,
            "{\"kind\":\"Card\",\"title\":"@.len() as int + jstr(t).len() + ",\"holder\":"@.len() + jstr(
                h,
            ).len() + ",\"number\":"@.len() + jstr(n).len(),
            ",\"expiry\":"@,
        ),
        jstr_at(
            z,
            "{\"kind\":\"Card\",\"title\":"@.len() as int + jstr(t).len() + ",\"holder\":"@.len() + jstr(
                h,
            ).len() + ",\"number\":"@.len() + jstr(n).len() + ",\"expiry\":"@.len(),
            e,
        ),
        lit_at(
            z,
            "{\"kind\":\"Card\",\"title\":"@.len() as int + jstr(t).len() + ",\"holder\":"@.len() + jstr(
                h,
            ).len() + ",\"number\":"@.len() + jstr(n).len() + ",\"expiry\":"@.len() + jstr(
                e,
            ).len(),
            ",\"cvv\":"@,
        ),
        jstr_at(
            z,
            "{\"kind\":\"Card\",\"title\":"@.len() as int + jstr(t).len() + ",\"holder\":"@.len() + jstr(
                h,
            ).len() + ",\"number\":"@.len() + jstr(n).len() + ",\"expiry\":"@.len() + jstr(
                e,
            ).len() + ",\"cvv\":"@.len(),
            c,
        ),
        lit_at(
            z,
            "{\"kind\":\"Card\",\"title\":"@.len() as int + jstr(t).len() + ",\"holder\":"@.len() + jstr(
                h,
            ).len() + ",\"number\":"@.len() + jstr(n).len() + ",\"expiry\":"@.len() + jstr(
                e,
            ).len() + ",\"cvv\":"@.len() + jstr(c).len(),
            "}"@,
        ),
        z.len() == "{\"kind\":\"Card\",\"title\":"@.len() as int + jstr(t).len() + ",\"holder\":"@.len()
            + jstr(h).len() + ",\"number\":"@.len() + jstr(n).len() + ",\"expiry\":"@.len() + jstr(
            e,
        ).len() + ",\"cvv\":"@.len() + jstr(c).len() + 1,
{
    reveal_strlit("}");
    let a0 = "{\"kind\":\"Card\",\"title\":"@;
    let a1 = ",\"holder\":"@;
    let a2 = ",\"number\":"@;
    let a3 = ",\"expiry\":"@;
    let a4 = ",\"cvv\":"@;
    assert(z.subrange(0, a0.len() as int) =~= a0);
    let p1 = a0.len() as int;
    assert(z.subrange(p1, p1 + jstr(t).len()) =~= jstr(t));
    let p2 = p1 + jstr(t).len();
    assert(z.subrange(p2, p2 + a1.len()) =~= a1);
    let p3 = p2 + a1.len();
    assert(z.subrange(p3, p3 + jstr(h).len()) =~= jstr(h));
    let p4 = p3 + jstr(h).len();
    assert(z.subrange(p4, p4 + a2.len()) =~= a2);
    let p5 = p4 + a2.len();
    assert(z.subrange(p5, p5 + jstr(n).len()) =~= jstr(n));
    let p6 = p5 + jstr(n).len();
    assert(z.subrange(p6, p6 + a3.len()) =~= a3);
    let p7 = p6 + a3.len();
    assert(z.subrange(p7, p7 + jstr(e).len()) =~= jstr(e));
    let p8 = p7 + jstr(e).len();
    assert(z.subrange(p8, p8 + a4.len()) =~= a4);
    let p9 = p8 + a4.len();
    assert(z.subrange(p9, p9 + jstr(c).len()) =~= jstr(c));
    let p10 = p9 + jstr(c).len();
    assert(z.subrange(p10, p10 + 1) =~= "}"@);
}

/// The kind tag standing at the head of the text decides the variant.
proof fn lemma_kind_prefix(p: PayloadView, z: Seq<char>)
    requires
        z == payload_json(p),
    ensures
        p is Password <==> lit_at(z, 0, "{\"kind\":\"Password\",\"title\":"@),
        p is Note <==> lit_at(z, 0, "{\"kind\":\"Note\",\"title\":"@),
        p is Card <==> lit_at(z, 0, "{\"kind\":\"Card\",\"title\":"@),
{
    reveal_strlit("{\"kind\":\"Password\",\"title\":");
    reveal_strlit("{\"kind\":\"Note\",\"title\":");
    reveal_strlit("{\"kind\":\"Card\",\"title\":");
    match p {
        PayloadView::Password { title, login, password, url } => {
            lemma_password_structure(z, title, login, password, url);
            assert(z[9] == "{\"kind\":\"Password\",\"title\":"@[9]);
            assert(z[9] == 'P');
            if lit_at(z, 0, "{\"kind\":\"Note\",\"title\":"@) {
                assert(z[9] == 'N');
            }
            if lit_at(z, 0, "{\"kind\":\"Card\",\"title\":"@) {
                assert(z[9] == 'C');
            }
        },
        PayloadView::Note { title, content } => {
            lemma_note_structure(z, title, content);
            assert(z[9] == "{\"kind\":\"Note\",\"title\":"@[9]);
            assert(z[9] == 'N');
            if lit_at(z, 0, "{\"kind\":\"Password\",\"title\":"@) {
                assert(z[9] == 'P');
            }
            if lit_at(z, 0, "{\"kind\":\"Card\",\"title\":"@) {
                assert(z[9] == 'C');
            }
        },
        PayloadView::Card { title, holder, number, expiry, cvv } => {
            lemma_card_structure(z, title, holder, number, expiry, cvv);
            assert(z[9] == "{\"kind\":\"Card\",\"title\":"@[9]);
            assert(z[9] == 'C');
            if lit_at(z, 0, "{\"kind\":\"Password\",\"title\":"@) {
                assert(z[9] == 'P');
            }
            if lit_at(z, 0, "{\"kind\":\"Note\",\"title\":"@) {
                assert(z[9] == 'N');
            }
        },
    }
}

} // verus!

verus! {

/// If the url segment scanned at `i7` (either the literal `null` or a whole
/// JSON string literal) agrees with the canonical layout of a Password
/// payload, the scan ends exactly where the layout puts the closing brace.
proof fn lemma_pw_url_agrees(
    z: Seq<char>,
    t: Seq<char>,
    l: Seq<char>,
    w: Seq<char>,
    u: Option<Seq<char>>,
    got: Option<Seq<char>>,
    i7: int,
    i8: int,
)
    requires
        z == payload_json(PayloadView::Password { title: t, login: l, password: w, url: u }),
        i7 == "{\"kind\":\"Password\",\"title\":"@.len() as int + jstr(t).len() + ",\"login\":"@.len()
            + jstr(l).len() + ",\"password\":"@.len() + jstr(w).len() + ",\"url\":"@.len(),
        got is None ==> lit_at(z, i7, "null"@) && i8 == i7 + "null"@.len(),
        got matches Some(us) ==> jstr_at(z, i7, us) && i8 == i7 + jstr(us).len(),
    ensures
        opt_view_eq(got, u),
        i8 == i7 + jopt(u).len(),
{
    reveal_strlit("null");
    lemma_password_structure(z, t, l, w, u);
    match got {
        Option::None => {
            match u {
                Option::Some(uu) => {
                    assert(z.subrange(i7, i7 + 4)[0] == z[i7]);
                    assert(z[i7] == 'n');
                    assert(z.subrange(i7, i7 + jstr(uu).len())[0] == z[i7]);
                    assert(jstr(uu)[0] == '"');
                    assert(false);
                },
                Option::None => {
                },
            }
        },
        Option::Some(us) => {
            match u {
                Option::None => {
                    assert(z.subrange(i7, i7 + 4)[0] == z[i7]);
                    assert(z[i7] == 'n');
                    assert(z.subrange(i7, i7 + jstr(us).len())[0] == z[i7]);
                    assert(jstr(us)[0] == '"');
                    assert(false);
                },
                Option::Some(uu) => {
                    lemma_jstr_at_unique(z, i7, us, uu);
                },
            }
        },
    }
}

/// Whether two optional texts are the same.
pub open spec fn opt_view_eq(a: Option<Seq<char>>, b: Option<Seq<char>>) -> bool {
    match (a, b) {
        (Option::None, Option::None) => true,
        (Option::Some(x), Option::Some(y)) => x == y,
        _ => false,
    }
}

/// Whether `z` is the canonical text of some Password payload.
pub open spec fn is_password_json(z: Seq<char>) -> bool {
    exists|t: Seq<char>, l: Seq<char>, w: Seq<char>, u: Option<Seq<char>>|
        z == payload_json(PayloadView::Password { title: t, login: l, password: w, url: u })
}

/// Whether `z` is the canonical text of some Note payload.
pub open spec fn is_note_json(z: Seq<char>) -> bool {
    exists|t: Seq<char>, c: Seq<char>| z == payload_json(PayloadView::Note { title: t, content: c })
}

/// Whether `z` is the canonical text of some Card payload.
pub open spec fn is_card_json(z: Seq<char>) -> bool {
    exists|t: Seq<char>, h: Seq<char>, n: Seq<char>, e: Seq<char>, c: Seq<char>|
        z == payload_json(PayloadView::Card { title: t, holder: h, number: n, expiry: e, cvv: c })
}

/// Parse a canonical Password payload: the whole of `v` must be one.
#[verifier::rlimit(60)]
fn parse_password(v: &Vec<char>) -> (r: Result<SecretPayload, VaultError>)
    ensures
        r matches Ok(p) ==> v@ == payload_json(p@),
        is_password_json(v@) ==> r is Ok,
        r is Err ==> r->Err_0 == VaultError::SerializationError,
{
    let ghost z = v@;
    let i1 = match expect_lit(v, 0, "{\"kind\":\"Password\",\"title\":") {
        Some(i) => i,
        None => {
            proof {
                if is_password_json(z) {
                    let (t, l, w, u) = choose|
                        t: Seq<char>,
                        l: Seq<char>,
                        w: Seq<char>,
                        u: Option<Seq<char>>,
                    |
                        z == payload_json(
                            PayloadView::Password { title: t, login: l, password: w, url: u },
                        );
                    lemma_password_structure(z, t, l, w, u);
                    assert(false);
                }
            }
            return Err(VaultError::SerializationError);
        },
    };
    let (title, i2) = match scan_jstring(v, i1) {
        Some(t) => t,
        None => {
            proof {
                if is_password_json(z) {
                    let (t, l, w, u) = choose|
                        t: Seq<char>,
                        l: Seq<char>,
                        w: Seq<char>,
                        u: Option<Seq<char>>,
                    |
                        z == payload_json(
                            PayloadView::Password { title: t, login: l, password: w, url: u },
                        );
                    lemma_password_structure(z, t, l, w, u);
                    assert(false);
                }
            }
            return Err(VaultError::SerializationError);
        },
    };
    let i3 = match expect_lit(v, i2, ",\"login\":") {
        Some(i) => i,
        None => {
            proof {
                if is_password_json(z) {
                    let (t, l, w, u) = choose|
                        t: Seq<char>,
                        l: Seq<char>,
                        w: Seq<char>,
                        u: Option<Seq<char>>,
                    |
                        z == payload_json(
                            PayloadView::Password { title: t, login: l, password: w, url: u },
                        );
                    lemma_password_structure(z, t, l, w, u);
                    assert(false);
                }
            }
            return Err(VaultError::SerializationError);
        },
    };
    let (login, i4) = match scan_jstring(v, i3) {
        Some(t) => t,
        None => {
            proof {
                if is_password_json(z) {
                    let (t, l, w, u) = choose|
                        t: Seq<char>,
                        l: Seq<char>,
                        w: Seq<char>,
                        u: Option<Seq<char>>,
                    |
                        z == payload_json(
                            PayloadView::Password { title: t, login: l, password: w, url: u },
                        );
                    lemma_password_structure(z, t, l, w, u);
                    assert(false);
                }
            }
            return Err(VaultError::SerializationError);
        },
    };
    let i5 = match expect_lit(v, i4, ",\"password\":") {
        Some(i) => i,
        None => {
            proof {
                if is_password_json(z) {
                    let (t, l, w, u) = choose|
                        t: Seq<char>,
                        l: Seq<char>,
                        w: Seq<char>,
                        u: Option<Seq<char>>,
                    |
                        z == payload_json(
                            PayloadView::Password { title: t, login: l, password: w, url: u },
                        );
                    lemma_password_structure(z, t, l, w, u);
                    assert(false);
                }
            }
            return Err(VaultError::SerializationError);
        },
    };
    let (password, i6) = match scan_jstring(v, i5) {
        Some(t) => t,
        None => {
            proof {
                if is_password_json(z) {
                    let (t, l, w, u) = choose|
                        t: Seq<char>,
                        l: Seq<char>,
                        w: Seq<char>,
                        u: Option<Seq<char>>,
                    |
                        z == payload_json(
                            PayloadView::Password { title: t, login: l, password: w, url: u },
                        );
                    lemma_password_structure(z, t, l, w, u);
                    assert(false);
                }
            }
            return Err(VaultError::SerializationError);
        },
    };
    let i7 = match expect_lit(v, i6, ",\"url\":") {
        Some(i) => i,
        None => {
            proof {
                if is_password_json(z) {
                    let (t, l, w, u) = choose|
                        t: Seq<char>,
                        l: Seq<char>,
                        w: Seq<char>,
                        u: Option<Seq<char>>,
                    |
                        z == payload_json(
                            PayloadView::Password { title: t, login: l, password: w, url: u },
                        );
                    lemma_password_structure(z, t, l, w, u);
                    assert(false);
                }
            }
            return Err(VaultError::SerializationError);
        },
    };
    let (url, i8) = match expect_lit(v, i7, "null") {
        Some(i) => (None, i),
        None => match scan_jstring(v, i7) {
            Some((u, i)) => (Some(u), i),
            None => {
                proof {
                    if is_password_json(z) {
                        let (t, l, w, u) = choose|
                            t: Seq<char>,
                            l: Seq<char>,
                            w: Seq<char>,
                            u: Option<Seq<char>>,
                        |
                            z == payload_json(
                                PayloadView::Password { title: t, login: l, password: w, url: u },
                            );
                        lemma_password_structure(z, t, l, w, u);
                        assert(false);
                    }
                }
                return Err(VaultError::SerializationError);
            },
        },
    };
    let i9 = match expect_lit(v, i8, "}") {
        Some(i) => i,
        None => {
            proof {
                if is_password_json(z) {
                    let (t, l, w, u) = choose|
                        t: Seq<char>,
                        l: Seq<char>,
                        w: Seq<char>,
                        u: Option<Seq<char>>,
                    |
                        z == payload_json(
                            PayloadView::Password { title: t, login: l, password: w, url: u },
                        );
                    lemma_password_structure(z, t, l, w, u);
                    reveal_strlit("null");
                    lemma_pw_url_agrees(z, t, l, w, u, opt_view(url), i7 as int, i8 as int);
                    assert(lit_at(z, i8 as int, "}"@));
                    assert(false);
                }
            }
            return Err(VaultError::SerializationError);
        },
    };
    if i9 != v.len() {
        proof {
            if is_password_json(z) {
                let (t, l, w, u) = choose|
                    t: Seq<char>,
                    l: Seq<char>,
                    w: Seq<char>,
                    u: Option<Seq<char>>,
                |
                    z == payload_json(
                        PayloadView::Password { title: t, login: l, password: w, url: u },
                    );
                lemma_password_structure(z, t, l, w, u);
                reveal_strlit("null");
                lemma_pw_url_agrees(z, t, l, w, u, opt_view(url), i7 as int, i8 as int);
                assert(false);
            }
        }
        return Err(VaultError::SerializationError);
    }
    let p = SecretPayload::Password { title, login, password, url };
    proof {
        reveal_strlit("null");
        let pre = "{\"kind\":\"Password\",\"title\":"@;
        let l1 = ",\"login\":"@;
        let l2 = ",\"password\":"@;
        let l3 = ",\"url\":"@;
        assert(z.subrange(0, i2 as int) =~= pre + jstr(p@->Password_title));
        assert(z.subrange(0, i3 as int) =~= z.subrange(0, i2 as int) + l1);
        assert(z.subrange(0, i4 as int) =~= z.subrange(0, i3 as int) + jstr(p@->Password_login));
        assert(z.subrange(0, i5 as int) =~= z.subrange(0, i4 as int) + l2);
        assert(z.subrange(0, i6 as int) =~= z.subrange(0, i5 as int) + jstr(p@->Password_password));
        assert(z.subrange(0, i7 as int) =~= z.subrange(0, i6 as int) + l3);
        assert(z.subrange(0, i8 as int) =~= z.subrange(0, i7 as int) + jopt(p@->Password_url));
        assert(z.subrange(0, i9 as int) =~= z.subrange(0, i8 as int) + "}"@);
        assert(z =~= z.subrange(0, i9 as int));
        assert(z =~= pre + jstr(p@->Password_title) + l1 + jstr(p@->Password_login) + l2 + jstr(
            p@->Password_password,
        ) + l3 + jopt(p@->Password_url) + "}"@);
    }
    Ok(p)
}

} // verus!

verus! {

/// Parse a canonical Note payload: the whole of `v` must be one.
#[verifier::rlimit(60)]
fn parse_note(v: &Vec<char>) -> (r: Result<SecretPayload, VaultError>)
    ensures
        r matches Ok(p) ==> v@ == payload_json(p@),
        is_note_json(v@) ==> r is Ok,
        r is Err ==> r->Err_0 == VaultError::SerializationError,
{
    let ghost z = v@;
    let i1 = match expect_lit(v, 0, "{\"kind\":\"Note\",\"title\":") {
        Some(i) => i,
        None => {
            proof {
                if is_note_json(z) {
                    let (t, c) = choose|t: Seq<char>, c: Seq<char>|
                        z == payload_json(PayloadView::Note { title: t, content: c });
                    lemma_note_structure(z, t, c);
                    assert(false);
                }
            }
            return Err(VaultError::SerializationError);
        },
    };
    let (title, i2) = match scan_jstring(v, i1) {
        Some(t) => t,
        None => {
            proof {
                if is_note_json(z) {
                    let (t, c) = choose|t: Seq<char>, c: Seq<char>|
                        z == payload_json(PayloadView::Note { title: t, content: c });
                    lemma_note_structure(z, t, c);
                    assert(false);
                }
            }
            return Err(VaultError::SerializationError);
        },
    };
    let i3 = match expect_lit(v, i2, ",\"content\":") {
        Some(i) => i,
        None => {
            proof {
                if is_note_json(z) {
                    let (t, c) = choose|t: Seq<char>, c: Seq<char>|
                        z == payload_json(PayloadView::Note { title: t, content: c });
                    lemma_note_structure(z, t, c);
                    assert(false);
                }
            }
            return Err(VaultError::SerializationError);
        },
    };
    let (content, i4) = match scan_jstring(v, i3) {
        Some(t) => t,
        None => {
            proof {
                if is_note_json(z) {
                    let (t, c) = choose|t: Seq<char>, c: Seq<char>|
                        z == payload_json(PayloadView::Note { title: t, content: c });
                    lemma_note_structure(z, t, c);
                    assert(false);
                }
            }
            return Err(VaultError::SerializationError);
        },
    };
    let i5 = match expect_lit(v, i4, "}") {
        Some(i) => i,
        None => {
            proof {
                if is_note_json(z) {
                    let (t, c) = choose|t: Seq<char>, c: Seq<char>|
                        z == payload_json(PayloadView::Note { title: t, content: c });
                    lemma_note_structure(z, t, c);
                    assert(false);
                }
            }
            return Err(VaultError::SerializationError);
        },
    };
    if i5 != v.len() {
        proof {
            if is_note_json(z) {
                let (t, c) = choose|t: Seq<char>, c: Seq<char>|
                    z == payload_json(PayloadView::Note { title: t, content: c });
                lemma_note_structure(z, t, c);
                assert(false);
            }
        }
        return Err(VaultError::SerializationError);
    }
    let p = SecretPayload::Note { title, content };
    proof {
        let pre = "{\"kind\":\"Note\",\"title\":"@;
        let l1 = ",\"content\":"@;
        assert(z.subrange(0, i2 as int) =~= pre + jstr(p@->Note_title));
        assert(z.subrange(0, i3 as int) =~= z.subrange(0, i2 as int) + l1);
        assert(z.subrange(0, i4 as int) =~= z.subrange(0, i3 as int) + jstr(p@->Note_content));
        assert(z.subrange(0, i5 as int) =~= z.subrange(0, i4 as int) + "}"@);
        assert(z =~= z.subrange(0, i5 as int));
        assert(z =~= pre + jstr(p@->Note_title) + l1 + jstr(p@->Note_content) + "}"@);
    }
    Ok(p)
}

/// Stitch the scanned segments of a Card payload back into its canonical
/// text.
#[verifier::rlimit(100)]
proof fn lemma_card_assemble(
    z: Seq<char>,
    t: Seq<char>,
    h: Seq<char>,
    n: Seq<char>,
    e: Seq<char>,
    c: Seq<char>,
    i1: int,
    i2: int,
    i3: int,
    i4: int,
    i5: int,
    i6: int,
    i7: int,
    i8: int,
    i9: int,
    i10: int,
    i11: int,
)
    requires
        lit_at(z, 0, "{\"kind\":\"Card\",\"title\":"@),
        i1 == "{\"kind\":\"Card\",\"title\":"@.len(),
        jstr_at(z, i1, t),
        i2 == i1 + jstr(t).len(),
        lit_at(z, i2, ",\"holder\":"@),
        i3 == i2 + ",\"holder\":"@.len(),
        jstr_at(z, i3, h),
        i4 == i3 + jstr(h).len(),
        lit_at(z, i4, ",\"number\":"@),
        i5 == i4 + ",\"number\":"@.len(),
        jstr_at(z, i5, n),
        i6 == i5 + jstr(n).len(),
        lit_at(z, i6, ",\"expiry\":"@),
        i7 == i6 + ",\"expiry\":"@.len(),
        jstr_at(z, i7, e),
        i8 == i7 + jstr(e).len(),
        lit_at(z, i8, ",\"cvv\":"@),
        i9 == i8 + ",\"cvv\":"@.len(),
        jstr_at(z, i9, c),
        i10 == i9 + jstr(c).len(),
        lit_at(z, i10, "}"@),
        i11 == i10 + "}"@.len(),
        z.len() == i11,
    ensures
        z == payload_json(PayloadView::Card { title: t, holder: h, number: n, expiry: e, cvv: c }),
{
    let pre = "{\"kind\":\"Card\",\"title\":"@;
    let l1 = ",\"holder\":"@;
    let l2 = ",\"number\":"@;
    let l3 = ",\"expiry\":"@;
    let l4 = ",\"cvv\":"@;
    assert(z.subrange(0, i2) =~= pre + jstr(t));
    assert(z.subrange(0, i3) =~= z.subrange(0, i2) + l1);
    assert(z.subrange(0, i4) =~= z.subrange(0, i3) + jstr(h));
    assert(z.subrange(0, i5) =~= z.subrange(0, i4) + l2);
    assert(z.subrange(0, i6) =~= z.subrange(0, i5) + jstr(n));
    assert(z.subrange(0, i7) =~= z.subrange(0, i6) + l3);
    assert(z.subrange(0, i8) =~= z.subrange(0, i7) + jstr(e));
    assert(z.subrange(0, i9) =~= z.subrange(0, i8) + l4);
    assert(z.subrange(0, i10) =~= z.subrange(0, i9) + jstr(c));
    assert(z.subrange(0, i11) =~= z.subrange(0, i10) + "}"@);
    assert(z =~= z.subrange(0, i11));
    assert(z =~= pre + jstr(t) + l1 + jstr(h) + l2 + jstr(n) + l3 + jstr(e) + l4 + jstr(c) + "}"@);
}

/// Parse a canonical Card payload: the whole of `v` must be one.
#[verifier::rlimit(100)]
fn parse_card(v: &Vec<char>) -> (r: Result<SecretPayload, VaultError>)
    ensures
        r matches Ok(p) ==> v@ == payload_json(p@),
        is_card_json(v@) ==> r is Ok,
        r is Err ==> r->Err_0 == VaultError::SerializationError,
{
    let ghost z = v@;
    let i1 = match expect_lit(v, 0, "{\"kind\":\"Card\",\"title\":") {
        Some(i) => i,
        None => {
            proof {
                if is_card_json(z) {
                    let (t, h, n, e, c) = choose|
                        t: Seq<char>,
                        h: Seq<char>,
                        n: Seq<char>,
                        e: Seq<char>,
                        c: Seq<char>,
                    |
                        z == payload_json(
                            PayloadView::Card { title: t, holder: h, number: n, expiry: e, cvv: c },
                        );
                    lemma_card_structure(z, t, h, n, e, c);
                    assert(false);
                }
            }
            return Err(VaultError::SerializationError);
        },
    };
    let (title, i2) = match scan_jstring(v, i1) {
        Some(t) => t,
        None => {
            proof {
                if is_card_json(z) {
                    let (t, h, n, e, c) = choose|
                        t: Seq<char>,
                        h: Seq<char>,
                        n: Seq<char>,
                        e: Seq<char>,
                        c: Seq<char>,
                    |
                        z == payload_json(
                            PayloadView::Card { title: t, holder: h, number: n, expiry: e, cvv: c },
                        );
                    lemma_card_structure(z, t, h, n, e, c);
                    assert(false);
                }
            }
            return Err(VaultError::SerializationError);
        },
    };
    let i3 = match expect_lit(v, i2, ",\"holder\":") {
        Some(i) => i,
        None => {
            proof {
                if is_card_json(z) {
                    let (t, h, n, e, c) = choose|
                        t: Seq<char>,
                        h: Seq<char>,
                        n: Seq<char>,
                        e: Seq<char>,
                        c: Seq<char>,
                    |
                        z == payload_json(
                            PayloadView::Card { title: t, holder: h, number: n, expiry: e, cvv: c },
                        );
                    lemma_card_structure(z, t, h, n, e, c);
                    assert(false);
                }
            }
            return Err(VaultError::SerializationError);
        },
    };
    let (holder, i4) = match scan_jstring(v, i3) {
        Some(t) => t,
        None => {
            proof {
                if is_card_json(z) {
                    let (t, h, n, e, c) = choose|
                        t: Seq<char>,
                        h: Seq<char>,
                        n: Seq<char>,
                        e: Seq<char>,
                        c: Seq<char>,
                    |
                        z == payload_json(
                            PayloadView::Card { title: t, holder: h, number: n, expiry: e, cvv: c },
                        );
                    lemma_card_structure(z, t, h, n, e, c);
                    assert(false);
                }
            }
            return Err(VaultError::SerializationError);
        },
    };
    let i5 = match expect_lit(v, i4, ",\"number\":") {
        Some(i) => i,
        None => {
            proof {
                if is_card_json(z) {
                    let (t, h, n, e, c) = choose|
                        t: Seq<char>,
                        h: Seq<char>,
                        n: Seq<char>,
                        e: Seq<char>,
                        c: Seq<char>,
                    |
                        z == payload_json(
                            PayloadView::Card { title: t, holder: h, number: n, expiry: e, cvv: c },
                        );
                    lemma_card_structure(z, t, h, n, e, c);
                    assert(false);
                }
            }
            return Err(VaultError::SerializationError);
        },
    };
    let (number, i6) = match scan_jstring(v, i5) {
        Some(t) => t,
        None => {
            proof {
                if is_card_json(z) {
                    let (t, h, n, e, c) = choose|
                        t: Seq<char>,
                        h: Seq<char>,
                        n: Seq<char>,
                        e: Seq<char>,
                        c: Seq<char>,
                    |
                        z == payload_json(
                            PayloadView::Card { title: t, holder: h, number: n, expiry: e, cvv: c },
                        );
                    lemma_card_structure(z, t, h, n, e, c);
                    assert(false);
                }
            }
            return Err(VaultError::SerializationError);
        },
    };
    let i7 = match expect_lit(v, i6, ",\"expiry\":") {
        Some(i) => i,
        None => {
            proof {
                if is_card_json(z) {
                    let (t, h, n, e, c) = choose|
                        t: Seq<char>,
                        h: Seq<char>,
                        n: Seq<char>,
                        e: Seq<char>,
                        c: Seq<char>,
                    |
                        z == payload_json(
                            PayloadView::Card { title: t, holder: h, number: n, expiry: e, cvv: c },
                        );
                    lemma_card_structure(z, t, h, n, e, c);
                    assert(false);
                }
            }
            return Err(VaultError::SerializationError);
        },
    };
    let (expiry, i8) = match scan_jstring(v, i7) {
        Some(t) => t,
        None => {
            proof {
                if is_card_json(z) {
                    let (t, h, n, e, c) = choose|
                        t: Seq<char>,
                        h: Seq<char>,
                        n: Seq<char>,
                        e: Seq<char>,
                        c: Seq<char>,
                    |
                        z == payload_json(
                            PayloadView::Card { title: t, holder: h, number: n, expiry: e, cvv: c },
                        );
                    lemma_card_structure(z, t, h, n, e, c);
                    assert(false);
                }
            }
            return Err(VaultError::SerializationError);
        },
    };
    let i9 = match expect_lit(v, i8, ",\"cvv\":") {
        Some(i) => i,
        None => {
            proof {
                if is_card_json(z) {
                    let (t, h, n, e, c) = choose|
                        t: Seq<char>,
                        h: Seq<char>,
                        n: Seq<char>,
                        e: Seq<char>,
                        c: Seq<char>,
                    |
                        z == payload_json(
                            PayloadView::Card { title: t, holder: h, number: n, expiry: e, cvv: c },
                        );
                    lemma_card_structure(z, t, h, n, e, c);
                    assert(false);
                }
            }
            return Err(VaultError::SerializationError);
        },
    };
    let (cvv, i10) = match scan_jstring(v, i9) {
        Some(t) => t,
        None => {
            proof {
                if is_card_json(z) {
                    let (t, h, n, e, c) = choose|
                        t: Seq<char>,
                        h: Seq<char>,
                        n: Seq<char>,
                        e: Seq<char>,
                        c: Seq<char>,
                    |
                        z == payload_json(
                            PayloadView::Card { title: t, holder: h, number: n, expiry: e, cvv: c },
                        );
                    lemma_card_structure(z, t, h, n, e, c);
                    assert(false);
                }
            }
            return Err(VaultError::SerializationError);
        },
    };
    let i11 = match expect_lit(v, i10, "}") {
        Some(i) => i,
        None => {
            proof {
                if is_card_json(z) {
                    let (t, h, n, e, c) = choose|
                        t: Seq<char>,
                        h: Seq<char>,
                        n: Seq<char>,
                        e: Seq<char>,
                        c: Seq<char>,
                    |
                        z == payload_json(
                            PayloadView::Card { title: t, holder: h, number: n, expiry: e, cvv: c },
                        );
                    lemma_card_structure(z, t, h, n, e, c);
                    assert(false);
                }
            }
            return Err(VaultError::SerializationError);
        },
    };
    if i11 != v.len() {
        proof {
            if is_card_json(z) {
                let (t, h, n, e, c) = choose|
                    t: Seq<char>,
                    h: Seq<char>,
                    n: Seq<char>,
                    e: Seq<char>,
                    c: Seq<char>,
                |
                    z == payload_json(
                        PayloadView::Card { title: t, holder: h, number: n, expiry: e, cvv: c },
                    );
                lemma_card_structure(z, t, h, n, e, c);
                assert(false);
            }
        }
        return Err(VaultError::SerializationError);
    }
    let p = SecretPayload::Card { title, holder, number, expiry, cvv };
    proof {
        lemma_card_assemble(
            z,
            p@->Card_title,
            p@->Card_holder,
            p@->Card_number,
            p@->Card_expiry,
            p@->Card_cvv,
            i1 as int,
            i2 as int,
            i3 as int,
            i4 as int,
            i5 as int,
            i6 as int,
            i7 as int,
            i8 as int,
            i9 as int,
            i10 as int,
            i11 as int,
        );
    }
    Ok(p)
}

} // verus!

verus! {

/// The canonical text form is injective: two payloads with the same rendering
/// are the same payload. With `serialize_payload` and `parse_payload` this
/// gives the round trip: parsing a payload's rendering returns that payload.
pub proof fn lemma_payload_json_injective(a: PayloadView, b: PayloadView)
    requires
        payload_json(a) == payload_json(b),
    ensures
        a == b,
{
    let z = payload_json(a);
    lemma_kind_prefix(a, z);
    lemma_kind_prefix(b, z);
    reveal_strlit("null");
    match (a, b) {
        (
            PayloadView::Password { title: t1, login: l1, password: w1, url: u1 },
            PayloadView::Password { title: t2, login: l2, password: w2, url: u2 },
        ) => {
            lemma_password_structure(z, t1, l1, w1, u1);
            lemma_password_structure(z, t2, l2, w2, u2);
            let p1 = "{\"kind\":\"Password\",\"title\":"@.len() as int;
            lemma_jstr_at_unique(z, p1, t1, t2);
            let p3 = p1 + jstr(t1).len() + ",\"login\":"@.len();
            lemma_jstr_at_unique(z, p3, l1, l2);
            let p5 = p3 + jstr(l1).len() + ",\"password\":"@.len();
            lemma_jstr_at_unique(z, p5, w1, w2);
            let p7 = p5 + jstr(w1).len() + ",\"url\":"@.len();
            match (u1, u2) {
                (Option::None, Option::None) => {
                },
                (Option::Some(x), Option::Some(y)) => {
                    lemma_jstr_at_unique(z, p7, x, y);
                },
                (Option::None, Option::Some(y)) => {
                    assert(z.subrange(p7, p7 + 4)[0] == z[p7]);
                    assert(z.subrange(p7, p7 + jstr(y).len())[0] == z[p7]);
                    assert(jstr(y)[0] == '"');
                    assert(false);
                },
                (Option::Some(x), Option::None) => {
                    assert(z.subrange(p7, p7 + 4)[0] == z[p7]);
                    assert(z.subrange(p7, p7 + jstr(x).len())[0] == z[p7]);
                    assert(jstr(x)[0] == '"');
                    assert(false);
                },
            }
        },
        (
            PayloadView::Note { title: t1, content: c1 },
            PayloadView::Note { title: t2, content: c2 },
        ) => {
            lemma_note_structure(z, t1, c1);
            lemma_note_structure(z, t2, c2);
            let p1 = "{\"kind\":\"Note\",\"title\":"@.len() as int;
            lemma_jstr_at_unique(z, p1, t1, t2);
            let p3 = p1 + jstr(t1).len() + ",\"content\":"@.len();
            lemma_jstr_at_unique(z, p3, c1, c2);
        },
        (
            PayloadView::Card { title: t1, holder: h1, number: n1, expiry: e1, cvv: c1 },
            PayloadView::Card { title: t2, holder: h2, number: n2, expiry: e2, cvv: c2 },
        ) => {
            lemma_card_structure(z, t1, h1, n1, e1, c1);
            lemma_card_structure(z, t2, h2, n2, e2, c2);
            let p1 = "{\"kind\":\"Card\",\"title\":"@.len() as int;
            lemma_jstr_at_unique(z, p1, t1, t2);
            let p3 = p1 + jstr(t1).len() + ",\"holder\":"@.len();
            lemma_jstr_at_unique(z, p3, h1, h2);
            let p5 = p3 + jstr(h1).len() + ",\"number\":"@.len();
            lemma_jstr_at_unique(z, p5, n1, n2);
            let p7 = p5 + jstr(n1).len() + ",\"expiry\":"@.len();
            lemma_jstr_at_unique(z, p7, e1, e2);
            let p9 = p7 + jstr(e1).len() + ",\"cvv\":"@.len();
            lemma_jstr_at_unique(z, p9, c1, c2);
        },
        _ => {
            assert(false);
        },
    }
}

/// Parse the canonical text form back into the payload it renders.
///
/// Exactly the canonical renderings parse: every rendering parses to the
/// payload it came from, and a parsed payload always re-renders to the input.
pub fn parse_payload(s: &str) -> (r: Result<SecretPayload, VaultError>)
    ensures
        r matches Ok(p) ==> s@ == payload_json(p@),
        forall|p: PayloadView| s@ == payload_json(p) ==> r is Ok && r->Ok_0@ == p,
        r is Err ==> r->Err_0 == VaultError::SerializationError,
{
    let v = str_chars(s);
    let ghost z = s@;
    let r = match parse_password(&v) {
        Ok(p) => Ok(p),
        Err(_) => match parse_note(&v) {
            Ok(p) => Ok(p),
            Err(_) => parse_card(&v),
        },
    };
    proof {
        assert forall|p: PayloadView| z == payload_json(p) implies r is Ok && r->Ok_0@ == p by {
            match p {
                PayloadView::Password { title, login, password, url } => {
                    assert(is_password_json(z));
                },
                PayloadView::Note { title, content } => {
                    assert(is_note_json(z));
                },
                PayloadView::Card { title, holder, number, expiry, cvv } => {
                    assert(is_card_json(z));
                },
            }
            assert(r is Ok);
            lemma_payload_json_injective(p, r->Ok_0@);
        }
    }
    r
}

} // verus!
