//! The claim set of a token as text:
//! `{"jti":"..","sub":"..","iat":N,"exp":N,"knd":".."}`, with quotes,
//! backslashes and control characters of identifier and subject escaped.

use vstd::prelude::*;
use crate::text::{
    chars_of, copy_slice, decimal, end_of_digits, end_of_quoted, escape, escaped, find_char,
    find_end_of_digits, find_end_of_quoted, free_of, index_of, is_digit, lemma_decimal,
    lemma_end_of_digits, lemma_end_of_escaped, lemma_field, lemma_unescaped, number_of,
    read_number, same_chars, slice, string_of, u64_to_string, unescape, unescaped,
};
use crate::token::domain::{Payload, PayloadView, TokenKind};

verus! {

pub open spec fn open_jti() -> Seq<char> {
    "{\"jti\":\""@
}

pub open spec fn open_sub() -> Seq<char> {
    "\",\"sub\":\""@
}

pub open spec fn open_iat() -> Seq<char> {
    "\",\"iat\":"@
}

pub open spec fn open_exp() -> Seq<char> {
    ",\"exp\":"@
}

pub open spec fn open_knd() -> Seq<char> {
    ",\"knd\":\""@
}

pub open spec fn close_all() -> Seq<char> {
    "\"}"@
}

/// The claim set of `p` as text.
pub open spec fn claims_text(p: PayloadView) -> Seq<char> {
    open_jti() + escaped(p.jti) + open_sub() + escaped(p.sub) + open_iat() + decimal(
        p.iat as nat,
    ) + open_exp() + decimal(p.exp as nat) + open_knd() + p.knd.spec_name() + close_all()
}

/// The kind that `name` names; a name of no kind reads as a reset, which
/// the comparison with the text that the reading is written back to rejects.
pub open spec fn kind_named(name: Seq<char>) -> TokenKind {
    if name == TokenKind::Session.spec_name() {
        TokenKind::Session
    } else if name == TokenKind::Verification.spec_name() {
        TokenKind::Verification
    } else {
        TokenKind::Reset
    }
}

/// `a + n`, but no more than `len`.
pub open spec fn advance(a: int, n: nat, len: nat) -> int {
    if a + n <= len {
        a + n
    } else {
        len as int
    }
}

/// What `text` says where it is the text of a claim set: each field is
/// taken from where it would stand.
pub open spec fn claims_reading(text: Seq<char>) -> PayloadView {
    let a1 = advance(0, open_jti().len(), text.len());
    let b1 = end_of_quoted(text, a1);
    let a2 = advance(b1, open_sub().len(), text.len());
    let b2 = end_of_quoted(text, a2);
    let a3 = advance(b2, open_iat().len(), text.len());
    let b3 = end_of_digits(text, a3);
    let a4 = advance(b3, open_exp().len(), text.len());
    let b4 = end_of_digits(text, a4);
    let a5 = advance(b4, open_knd().len(), text.len());
    let b5 = index_of(text, '"', a5);
    PayloadView {
        jti: unescaped(slice(text, a1, b1)),
        sub: unescaped(slice(text, a2, b2)),
        iat: number_of(slice(text, a3, b3)),
        exp: number_of(slice(text, a4, b4)),
        knd: kind_named(slice(text, a5, b5)),
    }
}

/// The payload that `text` is the claim set of, if there is one.
pub open spec fn claims_of(text: Seq<char>) -> Option<PayloadView> {
    let p = claims_reading(text);
    if p.wf() && claims_text(p) == text {
        Some(p)
    } else {
        None
    }
}

proof fn lemma_literals()
    ensures
        open_jti().len() == 8,
        open_sub().len() == 9,
        open_sub()[0] == '"',
        open_iat().len() == 8,
        open_iat()[0] == '"',
        open_exp().len() == 7,
        open_exp()[0] == ',',
        open_knd().len() == 8,
        open_knd()[0] == ',',
        close_all().len() == 2,
        close_all()[0] == '"',
        free_of(TokenKind::Session.spec_name(), '"'),
        free_of(TokenKind::Verification.spec_name(), '"'),
        free_of(TokenKind::Reset.spec_name(), '"'),
        TokenKind::Session.spec_name() != TokenKind::Verification.spec_name(),
        TokenKind::Session.spec_name() != TokenKind::Reset.spec_name(),
        TokenKind::Verification.spec_name() != TokenKind::Reset.spec_name(),
{
    reveal_strlit("{\"jti\":\"");
    reveal_strlit("\",\"sub\":\"");
    reveal_strlit("\",\"iat\":");
    reveal_strlit(",\"exp\":");
    reveal_strlit(",\"knd\":\"");
    reveal_strlit("\"}");
    reveal_strlit("session");
    reveal_strlit("verification");
    reveal_strlit("reset");
    assert(TokenKind::Session.spec_name().len() == 7);
    assert(TokenKind::Verification.spec_name().len() == 12);
    assert(TokenKind::Reset.spec_name().len() == 5);
}

/// A numeral `x` is found again between what stands before it and a rest
/// that begins with no digit.
proof fn lemma_number_field(text: Seq<char>, before: Seq<char>, n: u64, rest: Seq<char>)
    requires
        text == before + decimal(n as nat) + rest,
        rest.len() > 0,
        !is_digit(rest[0]),
    ensures
        end_of_digits(text, before.len() as int) == before.len() + decimal(n as nat).len(),
        number_of(
            slice(text, before.len() as int, (before.len() + decimal(n as nat).len()) as int),
        ) == n,
{
    let x = decimal(n as nat);
    lemma_decimal(n as nat);
    let from = before.len() as int;
    let at = (before.len() + x.len()) as int;
    assert forall|k: int| from <= k < at implies is_digit(#[trigger] text[k]) by {
        assert(text[k] == x[k - from]);
    }
    assert(text[at] == rest[0]);
    lemma_end_of_digits(text, from, at);
    assert(text.subrange(from, at) =~= x);
}

/// What stands before the field `k` of the text of `p`, fields counted
/// from the identifier.
pub open spec fn text_before(p: PayloadView, k: int) -> Seq<char> {
    if k <= 0 {
        open_jti()
    } else if k == 1 {
        open_jti() + escaped(p.jti) + open_sub()
    } else if k == 2 {
        open_jti() + escaped(p.jti) + open_sub() + escaped(p.sub) + open_iat()
    } else if k == 3 {
        open_jti() + escaped(p.jti) + open_sub() + escaped(p.sub) + open_iat() + decimal(p.iat as nat) + open_exp()
    } else {
        open_jti() + escaped(p.jti) + open_sub() + escaped(p.sub) + open_iat() + decimal(p.iat as nat) + open_exp()
            + decimal(p.exp as nat) + open_knd()
    }
}

/// What stands behind the field `k` of the text of `p`.
pub open spec fn text_behind(p: PayloadView, k: int) -> Seq<char> {
    if k >= 4 {
        close_all()
    } else if k == 3 {
        open_knd() + p.knd.spec_name() + close_all()
    } else if k == 2 {
        open_exp() + decimal(p.exp as nat) + (open_knd() + p.knd.spec_name() + close_all())
    } else if k == 1 {
        open_iat() + decimal(p.iat as nat) + (open_exp() + decimal(p.exp as nat) + (open_knd()
            + p.knd.spec_name() + close_all()))
    } else {
        open_sub() + escaped(p.sub) + (open_iat() + decimal(p.iat as nat) + (open_exp() + decimal(
            p.exp as nat,
        ) + (open_knd() + p.knd.spec_name() + close_all())))
    }
}

/// The field `k` of the text of `p`.
pub open spec fn text_field(p: PayloadView, k: int) -> Seq<char> {
    if k <= 0 {
        escaped(p.jti)
    } else if k == 1 {
        escaped(p.sub)
    } else if k == 2 {
        decimal(p.iat as nat)
    } else if k == 3 {
        decimal(p.exp as nat)
    } else {
        p.knd.spec_name()
    }
}

/// Moving the cut one field on leaves the whole unchanged.
proof fn lemma_cut_step(p: PayloadView, k: int)
    requires
        0 <= k < 4,
    ensures
        text_before(p, k) + text_field(p, k) + text_behind(p, k) == text_before(p, k + 1)
            + text_field(p, k + 1) + text_behind(p, k + 1),
{
    let a = text_before(p, k);
    let x = text_field(p, k);
    let y = text_field(p, k + 1);
    let z = text_behind(p, k + 1);
    if k == 0 {
        assert(a + x + (open_sub() + y + z) =~= (a + x + open_sub()) + y + z);
    } else if k == 1 {
        assert(a + x + (open_iat() + y + z) =~= (a + x + open_iat()) + y + z);
    } else if k == 2 {
        assert(a + x + (open_exp() + y + z) =~= (a + x + open_exp()) + y + z);
    } else {
        assert(a + x + (open_knd() + y + z) =~= (a + x + open_knd()) + y + z);
    }
}

/// The text of `p` cut at its field `k`.
proof fn lemma_cut(p: PayloadView, k: int)
    requires
        0 <= k <= 4,
    ensures
        claims_text(p) == text_before(p, k) + text_field(p, k) + text_behind(p, k),
    decreases k,
{
    if k == 0 {
        assert(claims_text(p) =~= text_before(p, 0) + text_field(p, 0) + text_behind(p, 0));
    } else {
        lemma_cut(p, k - 1);
        lemma_cut_step(p, k - 1);
    }
}

/// The kind is read where it stands.
proof fn lemma_read_kind(p: PayloadView)
    ensures
        index_of(claims_text(p), '"', text_before(p, 4).len() as int) == text_before(p, 4).len()
            + text_field(p, 4).len(),
        slice(
            claims_text(p),
            text_before(p, 4).len() as int,
            (text_before(p, 4).len() + text_field(p, 4).len()) as int,
        ) == text_field(p, 4),
{
    lemma_literals();
    lemma_cut(p, 4);
    let rest = text_behind(p, 4);
    assert(rest[0] == '"');
    lemma_field(claims_text(p), text_before(p, 4), text_field(p, 4), rest, '"');
}

/// Identifier and subject are read where they stand.
proof fn lemma_read_quoted(p: PayloadView, k: int)
    requires
        k == 0 || k == 1,
    ensures
        end_of_quoted(claims_text(p), text_before(p, k).len() as int) == text_before(p, k).len()
            + text_field(p, k).len(),
        unescaped(
            slice(
                claims_text(p),
                text_before(p, k).len() as int,
                (text_before(p, k).len() + text_field(p, k).len()) as int,
            ),
        ) == (if k == 0 {
            p.jti
        } else {
            p.sub
        }),
{
    lemma_literals();
    lemma_cut(p, k);
    let text = claims_text(p);
    let before = text_before(p, k);
    let field = text_field(p, k);
    let rest = text_behind(p, k);
    let at = before.len() as int;
    assert(rest[0] == '"');
    assert(text.subrange(at, at + field.len()) =~= field);
    assert(text[at + field.len()] == rest[0]);
    if k == 0 {
        lemma_end_of_escaped(text, at, p.jti);
        lemma_unescaped(p.jti);
    } else {
        lemma_end_of_escaped(text, at, p.sub);
        lemma_unescaped(p.sub);
    }
}

/// A number is read where it stands.
proof fn lemma_read_number(p: PayloadView, k: int)
    requires
        k == 2 || k == 3,
    ensures
        end_of_digits(claims_text(p), text_before(p, k).len() as int) == text_before(p, k).len()
            + text_field(p, k).len(),
        number_of(
            slice(
                claims_text(p),
                text_before(p, k).len() as int,
                (text_before(p, k).len() + text_field(p, k).len()) as int,
            ),
        ) == (if k == 2 {
            p.iat
        } else {
            p.exp
        }),
{
    lemma_literals();
    lemma_cut(p, k);
    let rest = text_behind(p, k);
    assert(rest[0] == ',');
    if k == 2 {
        lemma_number_field(claims_text(p), text_before(p, k), p.iat, rest);
    } else {
        lemma_number_field(claims_text(p), text_before(p, k), p.exp, rest);
    }
}

/// Each field begins where the one before it ends and its opening is over.
proof fn lemma_positions(p: PayloadView, k: int)
    requires
        0 <= k < 4,
    ensures
        text_before(p, 0).len() == open_jti().len(),
        text_before(p, 0).len() <= claims_text(p).len(),
        text_before(p, k + 1).len() <= claims_text(p).len(),
        k == 0 ==> text_before(p, 1).len() == text_before(p, 0).len() + text_field(p, 0).len()
            + open_sub().len(),
        k == 1 ==> text_before(p, 2).len() == text_before(p, 1).len() + text_field(p, 1).len()
            + open_iat().len(),
        k == 2 ==> text_before(p, 3).len() == text_before(p, 2).len() + text_field(p, 2).len()
            + open_exp().len(),
        k == 3 ==> text_before(p, 4).len() == text_before(p, 3).len() + text_field(p, 3).len()
            + open_knd().len(),
{
    lemma_cut(p, 0);
    lemma_cut(p, k + 1);
}

/// Reading the text of a claim set gives the payload back; so two payloads
/// with the same text are the same payload.
pub proof fn lemma_claims_round_trip(p: PayloadView)
    requires
        p.wf(),
    ensures
        claims_reading(claims_text(p)) == p,
        claims_of(claims_text(p)) == Some(p),
{
    let text = claims_text(p);
    lemma_positions(p, 0);
    lemma_positions(p, 1);
    lemma_positions(p, 2);
    lemma_positions(p, 3);
    lemma_read_quoted(p, 0);
    lemma_read_quoted(p, 1);
    lemma_read_number(p, 2);
    lemma_read_number(p, 3);
    lemma_read_kind(p);
    let a1 = advance(0, open_jti().len(), text.len());
    assert(a1 == text_before(p, 0).len());
    let b1 = end_of_quoted(text, a1);
    let a2 = advance(b1, open_sub().len(), text.len());
    assert(a2 == text_before(p, 1).len());
    let b2 = end_of_quoted(text, a2);
    let a3 = advance(b2, open_iat().len(), text.len());
    assert(a3 == text_before(p, 2).len());
    let b3 = end_of_digits(text, a3);
    let a4 = advance(b3, open_exp().len(), text.len());
    assert(a4 == text_before(p, 3).len());
    let b4 = end_of_digits(text, a4);
    let a5 = advance(b4, open_knd().len(), text.len());
    assert(a5 == text_before(p, 4).len());
    let b5 = index_of(text, '"', a5);
    assert(kind_named(p.knd.spec_name()) == p.knd) by {
        lemma_literals();
    }
    let r = claims_reading(text);
    assert(r.jti == p.jti);
    assert(r.sub == p.sub);
    assert(r.iat == p.iat);
    assert(r.exp == p.exp);
    assert(r.knd == p.knd);
}

/// Appends the characters of `s` to `dst`.
fn put(dst: &mut Vec<char>, s: &str)
    ensures
        final(dst)@ == old(dst)@ + s@,
{
    let piece = chars_of(s);
    dst.extend_from_slice(piece.as_slice());
}

/// Writes the claim set of `p`.
pub fn write_claims(p: &Payload) -> (text: Vec<char>)
    ensures
        text@ == claims_text(p@),
{
    let mut text: Vec<char> = Vec::new();
    put(&mut text, "{\"jti\":\"");
    text.extend_from_slice(escape(p.jti.as_str()).as_slice());
    put(&mut text, "\",\"sub\":\"");
    text.extend_from_slice(escape(p.sub.as_str()).as_slice());
    put(&mut text, "\",\"iat\":");
    put(&mut text, u64_to_string(p.iat).as_str());
    put(&mut text, ",\"exp\":");
    put(&mut text, u64_to_string(p.exp).as_str());
    put(&mut text, ",\"knd\":\"");
    put(&mut text, p.knd.name());
    put(&mut text, "\"}");
    proof {
        assert(Seq::<char>::empty() + open_jti() =~= open_jti());
    }
    text
}

/// `a + n`, but no more than `len`.
fn step(a: usize, n: usize, len: usize) -> (b: usize)
    requires
        a <= len,
    ensures
        b == advance(a as int, n as nat, len as nat),
        a <= b <= len,
{
    if n <= len - a {
        a + n
    } else {
        len
    }
}

/// Takes each field of `text` from where it would stand in a claim set.
fn read_fields(text: &Vec<char>) -> (p: Payload)
    ensures
        p@ == claims_reading(text@),
{
    let len = text.len();
    let a1 = step(0, 8, len);
    let b1 = find_end_of_quoted(text, a1);
    let a2 = step(b1, 9, len);
    let b2 = find_end_of_quoted(text, a2);
    let a3 = step(b2, 8, len);
    let b3 = find_end_of_digits(text, a3);
    let a4 = step(b3, 7, len);
    let b4 = find_end_of_digits(text, a4);
    let a5 = step(b4, 8, len);
    let b5 = find_char(text, '"', a5);
    proof {
        lemma_literals();
    }
    let name = copy_slice(text, a5, b5);
    let knd = if same_chars(&name, &chars_of(TokenKind::Session.name())) {
        TokenKind::Session
    } else if same_chars(&name, &chars_of(TokenKind::Verification.name())) {
        TokenKind::Verification
    } else {
        TokenKind::Reset
    };
    Payload {
        jti: string_of(&unescape(text, a1, b1)),
        sub: string_of(&unescape(text, a2, b2)),
        iat: read_number(&copy_slice(text, a3, b3)),
        exp: read_number(&copy_slice(text, a4, b4)),
        knd,
    }
}

/// Reads a claim set: the payload whose text `text` is, or `None` where it
/// is the text of no payload.
pub fn read_claims(text: &Vec<char>) -> (r: Option<Payload>)
    ensures
        r matches Some(p) ==> p@.wf() && claims_text(p@) == text@,
        r is None ==> forall|p: PayloadView| p.wf() ==> claims_text(p) != text@,
        r matches Some(p) ==> claims_of(text@) == Some(p@),
        r is None ==> claims_of(text@) is None,
{
    let p = read_fields(text);
    let back = write_claims(&p);
    if p.iat <= p.exp && same_chars(&back, text) {
        Some(p)
    } else {
        proof {
            assert forall|q: PayloadView| q.wf() implies claims_text(q) != text@ by {
                if claims_text(q) == text@ {
                    lemma_claims_round_trip(q);
                }
            }
        }
        None
    }
}

} // verus!
