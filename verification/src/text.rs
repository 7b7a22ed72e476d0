//! Text helpers: building and comparing strings, searching them, numbers
//! in decimal and hexadecimal, and the escaping of quoted text.

use vstd::prelude::*;

verus! {

/// Appends `c` to `s`; the contract restates the documentation of
/// `String::push`, which appends the given character to the end.
#[verifier::external_body]
pub(crate) fn push_char(s: &mut String, c: char)
    ensures
        final(s)@ == old(s)@.push(c),
{
    s.push(c)
}

/// `String::from_utf8`: the string whose UTF-8 encoding `bytes` is, or
/// `None` where `bytes` is no UTF-8 encoding.
#[verifier::external_body]
pub(crate) fn utf8_string(bytes: Vec<u8>) -> (out: Option<String>)
    ensures
        out matches Some(s) ==> vstd::utf8::valid_utf8(bytes@) && s@ == vstd::utf8::decode_utf8(
            bytes@,
        ),
        out is None ==> !vstd::utf8::valid_utf8(bytes@),
{
    match String::from_utf8(bytes) {
        Ok(s) => Some(s),
        Err(_) => None,
    }
}

/// The decimal digit for `d`, for `d` below ten.
pub open spec fn digit_char(d: nat) -> char {
    if d == 0 {
        '0'
    } else if d == 1 {
        '1'
    } else if d == 2 {
        '2'
    } else if d == 3 {
        '3'
    } else if d == 4 {
        '4'
    } else if d == 5 {
        '5'
    } else if d == 6 {
        '6'
    } else if d == 7 {
        '7'
    } else if d == 8 {
        '8'
    } else {
        '9'
    }
}

/// Is `c` one of the ten decimal digits?
pub open spec fn is_digit(c: char) -> bool {
    '0' <= c <= '9'
}

/// The value of the decimal digit `c`.
pub open spec fn digit_value(c: char) -> nat {
    (c as nat - '0' as nat) as nat
}

/// The shortest decimal numeral of `n`.
pub open spec fn decimal(n: nat) -> Seq<char>
    decreases n,
{
    if n < 10 {
        seq![digit_char(n)]
    } else {
        decimal(n / 10).push(digit_char(n % 10))
    }
}

/// The number that a sequence of decimal digits denotes, most significant
/// digit first; leading zeros are allowed.
pub open spec fn numeral_value(s: Seq<char>) -> nat
    decreases s.len(),
{
    if s.len() == 0 {
        0
    } else {
        numeral_value(s.drop_last()) * 10 + digit_value(s.last())
    }
}

/// Are all characters of `s` decimal digits?
pub open spec fn all_digits(s: Seq<char>) -> bool {
    forall|i: int| 0 <= i < s.len() ==> is_digit(#[trigger] s[i])
}

/// A numeral is never empty, holds digits only, and denotes its number.
pub proof fn lemma_decimal(n: nat)
    ensures
        decimal(n).len() >= 1,
        all_digits(decimal(n)),
        numeral_value(decimal(n)) == n,
        n >= 10 ==> decimal(n)[0] != '0',
    decreases n,
{
    if n < 10 {
        assert(decimal(n) =~= seq![digit_char(n)]);
        assert(decimal(n).drop_last() =~= Seq::<char>::empty());
        assert(numeral_value(decimal(n).drop_last()) == 0);
        assert(digit_value(digit_char(n)) == n);
    } else {
        lemma_decimal(n / 10);
        let head = decimal(n / 10);
        let d = digit_char(n % 10);
        assert(decimal(n).drop_last() =~= head);
        assert(decimal(n).last() == d);
        assert(digit_value(d) == n % 10);
        assert(decimal(n)[0] == head[0]);
        if n / 10 >= 10 {
        } else {
            assert(head =~= seq![digit_char(n / 10)]);
        }
    }
}

/// Writes `n` in decimal.
pub fn u64_to_string(n: u64) -> (s: String)
    ensures
        s@ == decimal(n as nat),
{
    let mut digits: Vec<char> = Vec::new();
    let mut rest: u64 = n;
    // Least significant digit first.
    loop
        invariant_except_break
            decimal(n as nat) == decimal(rest as nat) + digits@.reverse(),
        ensures
            decimal(n as nat) == digits@.reverse(),
        decreases rest,
    {
        let d: u64 = rest % 10;
        let c: char = digit_of(d);
        if rest < 10 {
            proof {
                assert(decimal(rest as nat) =~= seq![c]);
                assert(seq![c] + digits@.reverse() =~= digits@.push(c).reverse());
            }
            digits.push(c);
            break ;
        }
        proof {
            assert(decimal(rest as nat) == decimal((rest / 10) as nat).push(c));
            assert(decimal((rest / 10) as nat).push(c) + digits@.reverse() =~= decimal(
                (rest / 10) as nat,
            ) + digits@.push(c).reverse());
        }
        digits.push(c);
        rest = rest / 10;
    }
    let mut s = String::new();
    let mut i: usize = digits.len();
    while i > 0
        invariant
            i <= digits.len(),
            s@ == digits@.reverse().subrange(0, digits.len() - i),
        decreases i,
    {
        i = i - 1;
        push_char(&mut s, digits[i]);
        proof {
            let r = digits@.reverse();
            assert(r.subrange(0, digits.len() - i) =~= r.subrange(0, digits.len() - i - 1).push(
                digits@[i as int],
            ));
        }
    }
    proof {
        assert(digits@.reverse().subrange(0, digits.len() as int) =~= digits@.reverse());
    }
    s
}

/// The character of one decimal digit.
pub fn digit_of(d: u64) -> (c: char)
    requires
        d < 10,
    ensures
        c == digit_char(d as nat),
{
    if d == 0 {
        '0'
    } else if d == 1 {
        '1'
    } else if d == 2 {
        '2'
    } else if d == 3 {
        '3'
    } else if d == 4 {
        '4'
    } else if d == 5 {
        '5'
    } else if d == 6 {
        '6'
    } else if d == 7 {
        '7'
    } else if d == 8 {
        '8'
    } else {
        '9'
    }
}

/// The characters of `s`, one by one.
pub fn chars_of(s: &str) -> (v: Vec<char>)
    ensures
        v@ == s@,
{
    let mut v: Vec<char> = Vec::new();
    for c in it: s.chars()
        invariant
            it.seq() == s@,
            v@ == s@.subrange(0, it.index() as int),
    {
        v.push(c);
        proof {
            assert(s@.subrange(0, it.index() + 1) =~= s@.subrange(0, it.index() as int).push(c));
        }
    }
    proof {
        assert(s@.subrange(0, s@.len() as int) =~= s@);
    }
    v
}

/// The string made of the characters of `v`.
pub fn string_of(v: &Vec<char>) -> (s: String)
    ensures
        s@ == v@,
{
    let mut s = String::new();
    let mut i: usize = 0;
    while i < v.len()
        invariant
            i <= v.len(),
            s@ == v@.subrange(0, i as int),
        decreases v.len() - i,
    {
        push_char(&mut s, v[i]);
        proof {
            assert(v@.subrange(0, i + 1) =~= v@.subrange(0, i as int).push(v@[i as int]));
        }
        i = i + 1;
    }
    proof {
        assert(v@.subrange(0, v@.len() as int) =~= v@);
    }
    s
}

/// The first index at or after `from` at which `c` stands in `s`, or the
/// length of `s` where there is none.
pub open spec fn index_of(s: Seq<char>, c: char, from: int) -> int
    decreases s.len() - from,
{
    if from < 0 || from >= s.len() {
        s.len() as int
    } else if s[from] == c {
        from
    } else {
        index_of(s, c, from + 1)
    }
}

/// The first index at or after `from` at which no digit stands in `s`, or
/// the length of `s` where digits run to the end.
pub open spec fn end_of_digits(s: Seq<char>, from: int) -> int
    decreases s.len() - from,
{
    if from < 0 || from >= s.len() {
        s.len() as int
    } else if !is_digit(s[from]) {
        from
    } else {
        end_of_digits(s, from + 1)
    }
}

/// `s` from `a` up to `b`, or nothing where these are no bounds of `s`.
pub open spec fn slice(s: Seq<char>, a: int, b: int) -> Seq<char> {
    if 0 <= a <= b <= s.len() {
        s.subrange(a, b)
    } else {
        Seq::empty()
    }
}

/// Does `c` stand nowhere in `s`?
pub open spec fn free_of(s: Seq<char>, c: char) -> bool {
    forall|i: int| 0 <= i < s.len() ==> #[trigger] s[i] != c
}

/// Where `c` first stands at `at`, counting from `from`, `index_of` finds it.
pub proof fn lemma_index_of(s: Seq<char>, c: char, from: int, at: int)
    requires
        0 <= from <= at <= s.len(),
        forall|k: int| from <= k < at ==> #[trigger] s[k] != c,
        at < s.len() ==> s[at] == c,
    ensures
        index_of(s, c, from) == at,
    decreases at - from,
{
    if from < at {
        lemma_index_of(s, c, from + 1, at);
    }
}

/// A field `x` that holds no `stop` is found again between what stands
/// before it and a rest that is empty or begins with `stop`.
pub proof fn lemma_field(
    text: Seq<char>,
    before: Seq<char>,
    x: Seq<char>,
    rest: Seq<char>,
    stop: char,
)
    requires
        text == before + x + rest,
        free_of(x, stop),
        rest.len() > 0 ==> rest[0] == stop,
    ensures
        index_of(text, stop, before.len() as int) == before.len() + x.len(),
        slice(text, before.len() as int, (before.len() + x.len()) as int) == x,
{
    let from = before.len() as int;
    let at = (before.len() + x.len()) as int;
    assert forall|k: int| from <= k < at implies #[trigger] text[k] != stop by {
        assert(text[k] == x[k - from]);
    }
    if rest.len() > 0 {
        assert(text[at] == rest[0]);
    }
    lemma_index_of(text, stop, from, at);
    assert(text.subrange(from, at) =~= x);
}

/// Where digits run from `from` up to `at` and no further,
/// `end_of_digits` stops there.
pub proof fn lemma_end_of_digits(s: Seq<char>, from: int, at: int)
    requires
        0 <= from <= at <= s.len(),
        forall|k: int| from <= k < at ==> is_digit(#[trigger] s[k]),
        at < s.len() ==> !is_digit(s[at]),
    ensures
        end_of_digits(s, from) == at,
    decreases at - from,
{
    if from < at {
        lemma_end_of_digits(s, from + 1, at);
    }
}

/// Finds `c` in `v` at or after `from`.
pub fn find_char(v: &Vec<char>, c: char, from: usize) -> (at: usize)
    requires
        from <= v.len(),
    ensures
        at == index_of(v@, c, from as int),
        from <= at <= v.len(),
{
    let mut i: usize = from;
    while i < v.len() && v[i] != c
        invariant
            from <= i <= v.len(),
            forall|k: int| from <= k < i ==> #[trigger] v@[k] != c,
        decreases v.len() - i,
    {
        i = i + 1;
    }
    proof {
        lemma_index_of(v@, c, from as int, i as int);
    }
    i
}

/// Finds the end of the digits of `v` that start at `from`.
pub fn find_end_of_digits(v: &Vec<char>, from: usize) -> (at: usize)
    requires
        from <= v.len(),
    ensures
        at == end_of_digits(v@, from as int),
        from <= at <= v.len(),
{
    let mut i: usize = from;
    while i < v.len() && '0' <= v[i] && v[i] <= '9'
        invariant
            from <= i <= v.len(),
            forall|k: int| from <= k < i ==> is_digit(#[trigger] v@[k]),
        decreases v.len() - i,
    {
        i = i + 1;
    }
    proof {
        lemma_end_of_digits(v@, from as int, i as int);
    }
    i
}

/// Copies `v` from `a` up to `b`; nothing where these are no bounds of `v`.
pub fn copy_slice(v: &Vec<char>, a: usize, b: usize) -> (out: Vec<char>)
    ensures
        out@ == slice(v@, a as int, b as int),
{
    let mut out: Vec<char> = Vec::new();
    if a <= b && b <= v.len() {
        let mut i: usize = a;
        while i < b
            invariant
                a <= i <= b <= v.len(),
                out@ == v@.subrange(a as int, i as int),
            decreases b - i,
        {
            out.push(v[i]);
            proof {
                assert(v@.subrange(a as int, i + 1) =~= v@.subrange(a as int, i as int).push(
                    v@[i as int],
                ));
            }
            i = i + 1;
        }
    }
    out
}

/// Are the two sequences of characters the same?
pub fn same_chars(a: &Vec<char>, b: &Vec<char>) -> (same: bool)
    ensures
        same == (a@ == b@),
{
    if a.len() != b.len() {
        return false;
    }
    let mut i: usize = 0;
    while i < a.len()
        invariant
            i <= a.len(),
            a.len() == b.len(),
            forall|k: int| 0 <= k < i ==> a@[k] == b@[k],
        decreases a.len() - i,
    {
        if a[i] != b[i] {
            return false;
        }
        i = i + 1;
    }
    proof {
        assert(a@ =~= b@);
    }
    true
}

/// The number that the digits `s` denote where it fits in 64 bits; zero
/// where `s` is empty, holds another character or denotes too large a number.
pub open spec fn number_of(s: Seq<char>) -> u64 {
    if s.len() > 0 && all_digits(s) && numeral_value(s) <= u64::MAX {
        numeral_value(s) as u64
    } else {
        0
    }
}

/// The value of a numeral grows with each digit appended.
pub proof fn lemma_numeral_prefix(s: Seq<char>, n: int)
    requires
        0 <= n <= s.len(),
    ensures
        numeral_value(s.subrange(0, n)) <= numeral_value(s),
    decreases s.len() - n,
{
    if n < s.len() {
        lemma_numeral_prefix(s, n + 1);
        let longer = s.subrange(0, n + 1);
        assert(longer.drop_last() =~= s.subrange(0, n));
    } else {
        assert(s.subrange(0, n) =~= s);
    }
}

/// Reads the number that the digits `v` denote.
pub fn read_number(v: &Vec<char>) -> (n: u64)
    ensures
        n == number_of(v@),
{
    if v.len() == 0 {
        return 0;
    }
    let mut n: u64 = 0;
    let mut i: usize = 0;
    while i < v.len()
        invariant
            i <= v.len(),
            all_digits(v@.subrange(0, i as int)),
            n == numeral_value(v@.subrange(0, i as int)),
        decreases v.len() - i,
    {
        let c = v[i];
        proof {
            let longer = v@.subrange(0, i + 1);
            assert(longer.drop_last() =~= v@.subrange(0, i as int));
            assert(longer.last() == c);
        }
        if !('0' <= c && c <= '9') {
            proof {
                assert(v@[i as int] == c);
                assert(!all_digits(v@));
            }
            return 0;
        }
        let d: u64 = (c as u64) - ('0' as u64);
        if n > (u64::MAX - d) / 10 {
            proof {
                lemma_numeral_prefix(v@, i + 1);
            }
            return 0;
        }
        n = n * 10 + d;
        proof {
            let longer = v@.subrange(0, i + 1);
            assert forall|k: int| 0 <= k < longer.len() implies is_digit(#[trigger] longer[k]) by {
                if k < i {
                    assert(longer[k] == v@.subrange(0, i as int)[k]);
                }
            }
        }
        i = i + 1;
    }
    proof {
        assert(v@.subrange(0, v@.len() as int) =~= v@);
    }
    n
}

/// The decimal numeral of the integer `n`, with a minus sign where it is
/// negative.
pub open spec fn integer_text(n: int) -> Seq<char> {
    if n < 0 {
        seq!['-'] + decimal((-n) as nat)
    } else {
        decimal(n as nat)
    }
}

/// The integer that `s` denotes: digits, with a plus or a minus sign
/// before them or none; `None` where `s` is no such text.
pub open spec fn integer_of(s: Seq<char>) -> Option<int> {
    if s.len() > 0 && (s[0] == '-' || s[0] == '+') {
        let digits = s.subrange(1, s.len() as int);
        if digits.len() > 0 && all_digits(digits) {
            if s[0] == '-' {
                Some(-(numeral_value(digits) as int))
            } else {
                Some(numeral_value(digits) as int)
            }
        } else {
            None
        }
    } else if s.len() > 0 && all_digits(s) {
        Some(numeral_value(s) as int)
    } else {
        None
    }
}

/// The numeral of an integer denotes it.
pub proof fn lemma_integer_text(n: int)
    ensures
        integer_of(integer_text(n)) == Some(n),
{
    if n < 0 {
        let d = decimal((-n) as nat);
        lemma_decimal((-n) as nat);
        let s = integer_text(n);
        assert(s[0] == '-');
        assert(s.subrange(1, s.len() as int) =~= d);
    } else {
        lemma_decimal(n as nat);
        let s = integer_text(n);
        assert(is_digit(s[0]));
    }
}

/// Writes `n` in decimal.
pub fn i64_to_string(n: i64) -> (s: String)
    ensures
        s@ == integer_text(n as int),
{
    if n >= 0 {
        u64_to_string(n as u64)
    } else {
        let magnitude: u64 = ((-(n + 1)) as u64) + 1;
        proof {
            reveal_strlit("-");
            assert("-"@ =~= seq!['-']);
        }
        append_text("-", u64_to_string(magnitude).as_str())
    }
}

/// Reads a signed 64-bit integer: the integer that `s` denotes, or `None`
/// where `s` denotes none or one that does not fit.
pub fn parse_i64(s: &str) -> (r: Option<i64>)
    ensures
        r matches Some(n) ==> integer_of(s@) == Some(n as int),
        r is None ==> (integer_of(s@) matches Some(n) ==> n < i64::MIN || n > i64::MAX),
{
    let text = chars_of(s);
    if text.len() == 0 {
        return None;
    }
    let signed = text[0] == '-' || text[0] == '+';
    let negative = text[0] == '-';
    let digits = if signed {
        copy_slice(&text, 1, text.len())
    } else {
        copy_slice(&text, 0, text.len())
    };
    proof {
        assert(text@.subrange(0, text@.len() as int) =~= text@);
    }
    if digits.len() == 0 {
        return None;
    }
    let mut n: u64 = 0;
    let mut i: usize = 0;
    while i < digits.len()
        invariant
            i <= digits.len(),
            all_digits(digits@.subrange(0, i as int)),
            n == numeral_value(digits@.subrange(0, i as int)),
            n <= i64::MAX as u64 + 1,
            s@.len() > 0,
            signed == (s@[0] == '-' || s@[0] == '+'),
            digits@ == if signed {
                s@.subrange(1, s@.len() as int)
            } else {
                s@
            },
        decreases digits.len() - i,
    {
        let c = digits[i];
        proof {
            let longer = digits@.subrange(0, i + 1);
            assert(longer.drop_last() =~= digits@.subrange(0, i as int));
            assert(longer.last() == c);
        }
        if !('0' <= c && c <= '9') {
            proof {
                assert(digits@[i as int] == c);
                assert(!all_digits(digits@));
            }
            return None;
        }
        let d: u64 = (c as u64) - ('0' as u64);
        if n > (i64::MAX as u64 + 1 - d) / 10 {
            proof {
                lemma_numeral_prefix(digits@, i + 1);
            }
            return None;
        }
        n = n * 10 + d;
        proof {
            let longer = digits@.subrange(0, i + 1);
            assert forall|k: int| 0 <= k < longer.len() implies is_digit(#[trigger] longer[k]) by {
                if k < i {
                    assert(longer[k] == digits@.subrange(0, i as int)[k]);
                }
            }
        }
        i = i + 1;
    }
    proof {
        assert(digits@.subrange(0, digits@.len() as int) =~= digits@);
    }
    if negative {
        if n == i64::MAX as u64 + 1 {
            Some(i64::MIN)
        } else {
            Some(-(n as i64))
        }
    } else if n <= i64::MAX as u64 {
        Some(n as i64)
    } else {
        None
    }
}

/// The character of the hexadecimal digit `d`, for `d` below sixteen.
pub open spec fn hex_char(d: nat) -> char {
    if d < 10 {
        digit_char(d)
    } else if d == 10 {
        'a'
    } else if d == 11 {
        'b'
    } else if d == 12 {
        'c'
    } else if d == 13 {
        'd'
    } else if d == 14 {
        'e'
    } else {
        'f'
    }
}

/// `bytes` in lower-case hexadecimal, two digits a byte.
pub open spec fn hex_text(bytes: Seq<u8>) -> Seq<char>
    decreases bytes.len(),
{
    if bytes.len() == 0 {
        Seq::empty()
    } else {
        hex_text(bytes.drop_last()).push(hex_char((bytes.last() / 16) as nat)).push(
            hex_char((bytes.last() % 16) as nat),
        )
    }
}

/// Is `c` a lower-case hexadecimal digit?
pub open spec fn is_hex_char(c: char) -> bool {
    ('0' <= c <= '9') || ('a' <= c <= 'f')
}

/// Hexadecimal text has two digits a byte and holds such digits only.
pub proof fn lemma_hex_text(bytes: Seq<u8>)
    ensures
        hex_text(bytes).len() == 2 * bytes.len(),
        forall|i: int| 0 <= i < hex_text(bytes).len() ==> is_hex_char(#[trigger] hex_text(bytes)[i]),
    decreases bytes.len(),
{
    if bytes.len() > 0 {
        lemma_hex_text(bytes.drop_last());
    }
}

/// The character of one hexadecimal digit.
fn hex_of(d: u8) -> (c: char)
    requires
        d < 16,
    ensures
        c == hex_char(d as nat),
{
    if d < 10 {
        digit_of(d as u64)
    } else if d == 10 {
        'a'
    } else if d == 11 {
        'b'
    } else if d == 12 {
        'c'
    } else if d == 13 {
        'd'
    } else if d == 14 {
        'e'
    } else {
        'f'
    }
}

/// Writes `bytes` in lower-case hexadecimal.
pub fn to_hex(bytes: &[u8]) -> (s: String)
    ensures
        s@ == hex_text(bytes@),
{
    let mut s = String::new();
    let mut i: usize = 0;
    proof {
        assert(bytes@.subrange(0, 0) =~= Seq::<u8>::empty());
    }
    while i < bytes.len()
        invariant
            i <= bytes.len(),
            s@ == hex_text(bytes@.subrange(0, i as int)),
        decreases bytes.len() - i,
    {
        let b = bytes[i];
        proof {
            let longer = bytes@.subrange(0, i + 1);
            assert(longer.drop_last() =~= bytes@.subrange(0, i as int));
            assert(longer.last() == b);
        }
        push_char(&mut s, hex_of(b / 16));
        push_char(&mut s, hex_of(b % 16));
        i = i + 1;
    }
    proof {
        assert(bytes@.subrange(0, bytes@.len() as int) =~= bytes@);
    }
    s
}

/// Are the two sequences of bytes the same? Every byte is looked at,
/// whatever the bytes before it were.
pub fn same_bytes(a: &[u8], b: &[u8]) -> (same: bool)
    ensures
        same == (a@ == b@),
{
    if a.len() != b.len() {
        return false;
    }
    let mut same = true;
    let mut i: usize = 0;
    proof {
        assert(a@.subrange(0, 0) =~= b@.subrange(0, 0));
    }
    while i < a.len()
        invariant
            i <= a.len(),
            a.len() == b.len(),
            same == (a@.subrange(0, i as int) == b@.subrange(0, i as int)),
        decreases a.len() - i,
    {
        proof {
            let x = a@.subrange(0, i + 1);
            let y = b@.subrange(0, i + 1);
            assert(x.drop_last() =~= a@.subrange(0, i as int));
            assert(y.drop_last() =~= b@.subrange(0, i as int));
            assert(x.last() == a@[i as int] && y.last() == b@[i as int]);
            if a@.subrange(0, i as int) == b@.subrange(0, i as int) && a@[i as int] == b@[i as int] {
                assert(x =~= y);
            }
        }
        if a[i] != b[i] {
            same = false;
        }
        i = i + 1;
    }
    proof {
        assert(a@.subrange(0, a@.len() as int) =~= a@);
        assert(b@.subrange(0, b@.len() as int) =~= b@);
    }
    same
}

/// Are the two texts the same? Compared byte by byte over the whole length.
pub fn same_text(a: &str, b: &str) -> (same: bool)
    ensures
        same == (a@ == b@),
{
    proof {
        vstd::utf8::encode_utf8_decode_utf8(a@);
        vstd::utf8::encode_utf8_decode_utf8(b@);
    }
    same_bytes(a.as_bytes(), b.as_bytes())
}

/// The two texts one after the other.
pub fn append_text(a: &str, b: &str) -> (s: String)
    ensures
        s@ == a@ + b@,
{
    let mut v = chars_of(a);
    v.extend_from_slice(chars_of(b).as_slice());
    string_of(&v)
}

/// How `c` stands in a quoted text: a quote and a backslash get a
/// backslash before them, a control character is written as `\u00` and
/// its two hexadecimal digits, and any other character stands for itself.
pub open spec fn escaped_char(c: char) -> Seq<char> {
    if c == '"' {
        seq!['\\', '"']
    } else if c == '\\' {
        seq!['\\', '\\']
    } else if ' ' > c {
        seq!['\\', 'u', '0', '0', hex_char((c as nat) / 16), hex_char((c as nat) % 16)]
    } else {
        seq![c]
    }
}

/// How `s` stands in a quoted text, without the quotes around it.
pub open spec fn escaped(s: Seq<char>) -> Seq<char>
    decreases s.len(),
{
    if s.len() == 0 {
        Seq::empty()
    } else {
        escaped_char(s[0]) + escaped(s.drop_first())
    }
}

/// The value of the hexadecimal digit `c`; zero where it is none.
pub open spec fn hex_value(c: char) -> nat {
    if '0' <= c <= '9' {
        (c as nat - '0' as nat) as nat
    } else if 'a' <= c <= 'f' {
        (c as nat - 'a' as nat + 10) as nat
    } else {
        0
    }
}

/// The text that `t` is the escaped form of; where `t` is the escaped
/// form of none, whatever reading it by the same rules gives.
pub open spec fn unescaped(t: Seq<char>) -> Seq<char>
    decreases t.len(),
{
    if t.len() == 0 {
        Seq::empty()
    } else if t[0] == '\\' && t.len() >= 6 && t[1] == 'u' {
        seq![((hex_value(t[4]) % 2) * 16 + hex_value(t[5])) as u8 as char] + unescaped(
            t.subrange(6, t.len() as int),
        )
    } else if t[0] == '\\' && t.len() >= 2 {
        seq![t[1]] + unescaped(t.subrange(2, t.len() as int))
    } else {
        seq![t[0]] + unescaped(t.drop_first())
    }
}

/// The index of the quote that ends the quoted text that begins at
/// `from`, or the length of `t` where none does: a character behind a
/// backslash ends nothing.
pub open spec fn end_of_quoted(t: Seq<char>, from: int) -> int
    decreases t.len() - from,
{
    if from < 0 || from >= t.len() {
        t.len() as int
    } else if t[from] == '"' {
        from
    } else if t[from] == '\\' {
        if from + 2 <= t.len() {
            end_of_quoted(t, from + 2)
        } else {
            t.len() as int
        }
    } else {
        end_of_quoted(t, from + 1)
    }
}

/// The hexadecimal digits of a control character give it back.
proof fn lemma_control_digits(c: char)
    requires
        ' ' > c,
    ensures
        ((hex_value(hex_char((c as nat) / 16)) % 2) * 16 + hex_value(hex_char((c as nat) % 16)))
            as u8 as char == c,
        hex_char((c as nat) / 16) != '"',
        hex_char((c as nat) / 16) != '\\',
        hex_char((c as nat) % 16) != '"',
        hex_char((c as nat) % 16) != '\\',
{
    let n = c as nat;
    assert(n < 32);
    assert(n / 16 == 0 || n / 16 == 1);
    let low = n % 16;
    assert(hex_value(hex_char(low)) == low);
    assert(hex_value(hex_char(n / 16)) == n / 16);
    assert((n / 16) * 16 + low == n);
    assert(n as u8 as char == c);
}

/// Escaped text is read back as what was escaped.
pub proof fn lemma_unescaped(s: Seq<char>)
    ensures
        unescaped(escaped(s)) == s,
    decreases s.len(),
{
    if s.len() > 0 {
        let c = s[0];
        let rest = escaped(s.drop_first());
        let t = escaped(s);
        lemma_unescaped(s.drop_first());
        if c == '"' || c == '\\' {
            assert(t[0] == '\\' && t[1] == c);
            assert(t.subrange(2, t.len() as int) =~= rest);
            assert(seq![c] + s.drop_first() =~= s);
        } else if ' ' > c {
            lemma_control_digits(c);
            assert(t[0] == '\\' && t[1] == 'u');
            assert(t[4] == hex_char((c as nat) / 16) && t[5] == hex_char((c as nat) % 16));
            assert(t.subrange(6, t.len() as int) =~= rest);
            assert(seq![c] + s.drop_first() =~= s);
        } else {
            assert(t[0] == c);
            assert(t.drop_first() =~= rest);
            assert(seq![c] + s.drop_first() =~= s);
        }
    } else {
        assert(escaped(s) =~= Seq::<char>::empty());
    }
}

/// Escaped text that stands at `at` before a quote ends at that quote.
pub proof fn lemma_end_of_escaped(t: Seq<char>, at: int, s: Seq<char>)
    requires
        0 <= at,
        at + escaped(s).len() < t.len(),
        t.subrange(at, at + escaped(s).len()) == escaped(s),
        t[at + escaped(s).len()] == '"',
    ensures
        end_of_quoted(t, at) == at + escaped(s).len(),
    decreases s.len(),
{
    let e = escaped(s);
    if s.len() > 0 {
        let c = s[0];
        let head = escaped_char(c);
        let rest = escaped(s.drop_first());
        assert(e =~= head + rest);
        assert forall|k: int| 0 <= k < e.len() implies t[at + k] == e[k] by {
            assert(t.subrange(at, at + e.len())[k] == t[at + k]);
        }
        assert(t.subrange(at + head.len(), at + head.len() + rest.len()) =~= rest) by {
            assert forall|k: int| 0 <= k < rest.len() implies t[at + head.len() + k]
                == rest[k] by {
                assert(e[head.len() + k] == rest[k]);
            }
        }
        lemma_end_of_escaped(t, at + head.len(), s.drop_first());
        if c == '"' || c == '\\' {
            assert(t[at] == e[0]);
        } else if ' ' > c {
            lemma_control_digits(c);
            assert(t[at] == e[0]);
            assert(t[at + 2] == e[2] && t[at + 3] == e[3] && t[at + 4] == e[4] && t[at + 5]
                == e[5]);
            assert(end_of_quoted(t, at + 2) == end_of_quoted(t, at + 3));
            assert(end_of_quoted(t, at + 3) == end_of_quoted(t, at + 4));
            assert(end_of_quoted(t, at + 4) == end_of_quoted(t, at + 5));
            assert(end_of_quoted(t, at + 5) == end_of_quoted(t, at + 6));
        } else {
            assert(t[at] == e[0]);
        }
    } else {
        assert(e =~= Seq::<char>::empty());
    }
}

/// Writes `c` as it stands in a quoted text.
fn escape_char(c: char) -> (head: Vec<char>)
    ensures
        head@ == escaped_char(c),
{
    let mut head: Vec<char> = Vec::new();
    if c == '"' {
        head.push('\\');
        head.push('"');
    } else if c == '\\' {
        head.push('\\');
        head.push('\\');
    } else if (c < ' ') {
        let n: u8 = c as u8;
        head.push('\\');
        head.push('u');
        head.push('0');
        head.push('0');
        head.push(hex_of(n / 16));
        head.push(hex_of(n % 16));
    } else {
        head.push(c);
    }
    proof {
        assert(head@ =~= escaped_char(c));
    }
    head
}

/// Writes `s` as it stands in a quoted text.
pub fn escape(s: &str) -> (t: Vec<char>)
    ensures
        t@ == escaped(s@),
{
    let text = chars_of(s);
    let mut t: Vec<char> = Vec::new();
    let mut i: usize = 0;
    proof {
        assert(text@.subrange(0, text@.len() as int) =~= text@);
        assert(t@ + escaped(text@) =~= escaped(text@));
    }
    while i < text.len()
        invariant
            i <= text.len(),
            text@ == s@,
            t@ + escaped(text@.subrange(i as int, text@.len() as int)) == escaped(s@),
        decreases text.len() - i,
    {
        let ghost before = t@;
        let ghost rest = text@.subrange(i as int, text@.len() as int);
        let head = escape_char(text[i]);
        t.extend_from_slice(head.as_slice());
        proof {
            assert(rest[0] == text@[i as int]);
            assert(rest.drop_first() =~= text@.subrange(i + 1, text@.len() as int));
            assert(t@ + escaped(rest.drop_first()) =~= before + escaped(rest));
        }
        i = i + 1;
    }
    proof {
        assert(text@.subrange(text@.len() as int, text@.len() as int) =~= Seq::<char>::empty());
        assert(t@ + Seq::<char>::empty() =~= t@);
    }
    t
}

/// The value of the hexadecimal digit `c`; zero where it is none.
fn hex_value_of(c: char) -> (n: u8)
    ensures
        n == hex_value(c),
        n < 16,
{
    if '0' <= c && c <= '9' {
        ((c as u32) - ('0' as u32)) as u8
    } else if 'a' <= c && c <= 'f' {
        ((c as u32) - ('a' as u32) + 10) as u8
    } else {
        0
    }
}

/// Reads `v` from `a` up to `b` as escaped text; nothing where these are
/// no bounds of `v`.
pub fn unescape(v: &Vec<char>, a: usize, b: usize) -> (s: Vec<char>)
    ensures
        s@ == unescaped(slice(v@, a as int, b as int)),
{
    let t = copy_slice(v, a, b);
    let mut s: Vec<char> = Vec::new();
    let mut i: usize = 0;
    proof {
        assert(t@.subrange(0, t@.len() as int) =~= t@);
    }
    while i < t.len()
        invariant
            i <= t.len(),
            s@ + unescaped(t@.subrange(i as int, t@.len() as int)) == unescaped(t@),
        decreases t.len() - i,
    {
        let ghost rest = t@.subrange(i as int, t@.len() as int);
        let ghost before = s@;
        let c = t[i];
        proof {
            assert(rest[0] == c);
        }
        if c == '\\' && t.len() - i >= 6 && t[i + 1] == 'u' {
            let high = hex_value_of(t[i + 4]);
            let low = hex_value_of(t[i + 5]);
            let value: u8 = (high % 2) * 16 + low;
            s.push(value as char);
            proof {
                assert(rest[1] == t@[i + 1] && rest[4] == t@[i + 4] && rest[5] == t@[i + 5]);
                assert(rest.subrange(6, rest.len() as int) =~= t@.subrange(
                    i + 6,
                    t@.len() as int,
                ));
                assert(s@ + unescaped(t@.subrange(i + 6, t@.len() as int)) =~= before
                    + unescaped(rest));
            }
            i = i + 6;
        } else if c == '\\' && t.len() - i >= 2 {
            s.push(t[i + 1]);
            proof {
                assert(rest[1] == t@[i + 1]);
                assert(rest.subrange(2, rest.len() as int) =~= t@.subrange(
                    i + 2,
                    t@.len() as int,
                ));
                assert(s@ + unescaped(t@.subrange(i + 2, t@.len() as int)) =~= before
                    + unescaped(rest));
            }
            i = i + 2;
        } else {
            s.push(c);
            proof {
                assert(rest.drop_first() =~= t@.subrange(i + 1, t@.len() as int));
                assert(s@ + unescaped(t@.subrange(i + 1, t@.len() as int)) =~= before
                    + unescaped(rest));
            }
            i = i + 1;
        }
    }
    proof {
        assert(t@.subrange(t@.len() as int, t@.len() as int) =~= Seq::<char>::empty());
        assert(s@ + Seq::<char>::empty() =~= s@);
    }
    s
}

/// Finds the quote that ends the quoted text of `v` that begins at `from`.
pub fn find_end_of_quoted(v: &Vec<char>, from: usize) -> (at: usize)
    requires
        from <= v.len(),
    ensures
        at == end_of_quoted(v@, from as int),
        from <= at <= v.len(),
{
    let mut i: usize = from;
    while i < v.len() && v[i] != '"'
        invariant
            from <= i <= v.len(),
            end_of_quoted(v@, i as int) == end_of_quoted(v@, from as int),
        decreases v.len() - i,
    {
        if v[i] == '\\' {
            if v.len() - i >= 2 {
                i = i + 2;
            } else {
                i = v.len();
            }
        } else {
            i = i + 1;
        }
    }
    i
}

} // verus!
