//! Text primitives: search, splitting, decimal rendering and parsing.
//!
//! Everything is stated over the character sequence of a string, so callers
//! can reason about text without knowing how it is encoded.
use vstd::prelude::*;

verus! {

/// `String::push` appends one character at the end.
pub assume_specification[ String::push ](s: &mut String, c: char)
    ensures
        final(s)@ == old(s)@.push(c),
;

/// The characters of `s`, in order.
pub fn to_chars(s: &str) -> (v: Vec<char>)
    ensures
        v@ == s@,
{
    let mut v: Vec<char> = Vec::new();
    for c in it: s.chars()
        invariant
            v@ == s@.take(it.index()),
            it.seq() == s@,
    {
        v.push(c);
    }
    v
}

/// The string made of `v`.
pub fn from_chars(v: &[char]) -> (s: String)
    ensures
        s@ == v@,
{
    let mut s = String::new();
    let mut i: usize = 0;
    while i < v.len()
        invariant
            i <= v.len(),
            s@ == v@.take(i as int),
        decreases v.len() - i,
    {
        s.push(v[i]);
        i += 1;
    }
    s
}

/// Whether two strings hold the same characters.
pub fn same(a: &str, b: &str) -> (r: bool)
    ensures
        r == (a@ == b@),
{
    a.to_owned() == b.to_owned()
}

/// `needle` stands in `hay` at position `i`.
pub open spec fn occurs_at(hay: Seq<char>, needle: Seq<char>, i: int) -> bool {
    &&& 0 <= i
    &&& i + needle.len() <= hay.len()
    &&& hay.subrange(i, i + needle.len()) == needle
}

/// `needle` stands somewhere in `hay`.
pub open spec fn has(hay: Seq<char>, needle: Seq<char>) -> bool {
    exists|i: int| occurs_at(hay, needle, i)
}

fn chars_at(hay: &[char], needle: &[char], at: usize) -> (r: bool)
    requires
        at + needle.len() <= hay.len(),
    ensures
        r == occurs_at(hay@, needle@, at as int),
{
    let mut k: usize = 0;
    while k < needle.len()
        invariant
            k <= needle.len(),
            at + needle.len() <= hay.len(),
            forall|j: int| 0 <= j < k ==> hay@[at + j] == needle@[j],
        decreases needle.len() - k,
    {
        if hay[at + k] != needle[k] {
            assert(hay@.subrange(at as int, at + needle@.len())[k as int] != needle@[k as int]);
            return false;
        }
        k += 1;
    }
    assert(hay@.subrange(at as int, at + needle@.len()) =~= needle@);
    true
}

/// Whether `hay` contains `needle`.
pub fn contains(hay: &str, needle: &str) -> (r: bool)
    ensures
        r == has(hay@, needle@),
{
    let h = to_chars(hay);
    let n = to_chars(needle);
    if n.len() == 0 {
        assert(hay@.subrange(0, 0) =~= needle@);
        assert(occurs_at(hay@, needle@, 0));
        return true;
    }
    let mut i: usize = 0;
    while i < h.len() && n.len() <= h.len() - i
        invariant
            h@ == hay@,
            n@ == needle@,
            n.len() > 0,
            i <= h.len(),
            forall|j: int| 0 <= j < i ==> !occurs_at(hay@, needle@, j),
        decreases h.len() - i,
    {
        if chars_at(h.as_slice(), n.as_slice(), i) {
            return true;
        }
        i += 1;
    }
    false
}

/// Whether `s` begins with `prefix`.
pub fn starts_with(s: &str, prefix: &str) -> (r: bool)
    ensures
        r == occurs_at(s@, prefix@, 0),
{
    let h = to_chars(s);
    let n = to_chars(prefix);
    n.len() <= h.len() && chars_at(h.as_slice(), n.as_slice(), 0)
}

/// Whether any entry of `list` is `s`.
pub fn list_has(list: &Vec<String>, s: &str) -> (r: bool)
    ensures
        r == exists|i: int| 0 <= i < list@.len() && (#[trigger] list@[i])@ == s@,
{
    let mut i: usize = 0;
    while i < list.len()
        invariant
            i <= list.len(),
            forall|j: int| 0 <= j < i ==> (#[trigger] list@[j])@ != s@,
        decreases list.len() - i,
    {
        if same(list[i].as_str(), s) {
            return true;
        }
        i += 1;
    }
    false
}

// ---------------------------------------------------------------- decimal --

/// The character of a decimal digit.
pub open spec fn digit(d: nat) -> char {
    if d == 0 {
        '0'
    } else if d == 1 {
        '1'
    } else if d == 2 {
        '2'
    } else if d == 3 {
        '3'
    } else if d == 4 {
        '4'
    } else if d == 5 {
        '5'
    } else if d == 6 {
        '6'
    } else if d == 7 {
        '7'
    } else if d == 8 {
        '8'
    } else {
        '9'
    }
}

/// The decimal spelling of `n`, without leading zeros.
pub open spec fn dec(n: nat) -> Seq<char>
    decreases n,
{
    if n < 10 {
        seq![digit(n)]
    } else {
        dec(n / 10).push(digit(n % 10))
    }
}

/// The decimal spelling of an integer, with a leading `-` below zero.
pub open spec fn dec_int(i: int) -> Seq<char> {
    if i < 0 {
        seq!['-'] + dec((-i) as nat)
    } else {
        dec(i as nat)
    }
}

fn digit_char(d: u64) -> (c: char)
    requires
        d < 10,
    ensures
        c == digit(d as nat),
{
    match d {
        0 => '0',
        1 => '1',
        2 => '2',
        3 => '3',
        4 => '4',
        5 => '5',
        6 => '6',
        7 => '7',
        8 => '8',
        _ => '9',
    }
}

/// Append one decimal digit.
pub fn push_digit(s: &mut String, d: u64)
    requires
        d < 10,
    ensures
        final(s)@ == old(s)@.push(digit(d as nat)),
{
    s.push(digit_char(d));
}

/// Append the decimal spelling of `n`.
pub fn push_u64(s: &mut String, n: u64)
    ensures
        final(s)@ == old(s)@ + dec(n as nat),
    decreases n,
{
    if n >= 10 {
        push_u64(s, n / 10);
    }
    s.push(digit_char(n % 10));
    assert(s@ =~= old(s)@ + dec(n as nat));
}

/// The decimal spelling of `n`.
pub fn u64_text(n: u64) -> (s: String)
    ensures
        s@ == dec(n as nat),
{
    let mut s = String::new();
    push_u64(&mut s, n);
    assert(s@ =~= dec(n as nat));
    s
}

/// Append the decimal spelling of a signed integer.
pub fn push_i64(s: &mut String, n: i64)
    ensures
        final(s)@ == old(s)@ + dec_int(n as int),
{
    if n < 0 {
        s.push('-');
        let m: u64 = if n == i64::MIN {
            0x8000_0000_0000_0000
        } else {
            (-n) as u64
        };
        push_u64(s, m);
        assert(s@ =~= old(s)@ + dec_int(n as int));
    } else {
        push_u64(s, n as u64);
    }
}

/// The decimal spelling of a signed integer.
pub fn i64_text(n: i64) -> (s: String)
    ensures
        s@ == dec_int(n as int),
{
    let mut s = String::new();
    push_i64(&mut s, n);
    assert(s@ =~= dec_int(n as int));
    s
}

/// Append the decimal spelling of `n`.
pub fn push_u128(s: &mut String, n: u128)
    ensures
        final(s)@ == old(s)@ + dec(n as nat),
    decreases n,
{
    if n >= 10 {
        push_u128(s, n / 10);
    }
    s.push(digit_char((n % 10) as u64));
    assert(s@ =~= old(s)@ + dec(n as nat));
}

/// `n / unit` rounded to the nearest integer, a tie going to the even one.
pub open spec fn round_half_even(n: nat, unit: nat) -> nat
    recommends
        unit > 0,
{
    let whole = n / unit;
    let rest = n % unit;
    if rest * 2 > unit || (rest * 2 == unit && whole % 2 == 1) {
        whole + 1
    } else {
        whole
    }
}

/// `n / unit` rounded to the nearest integer, a tie going to the even one.
pub fn rounded(n: u128, unit: u128) -> (r: u128)
    requires
        unit > 0,
        n < 0x4000_0000_0000_0000_0000_0000_0000_0000,
        unit < 0x4000_0000_0000_0000_0000_0000_0000_0000,
    ensures
        r == round_half_even(n as nat, unit as nat),
{
    let whole: u128 = n / unit;
    let rest: u128 = n % unit;
    assert(whole <= n) by (nonlinear_arith)
        requires
            whole == n / unit,
            unit > 0,
    ;
    if rest * 2 > unit || (rest * 2 == unit && whole % 2 == 1) {
        whole + 1
    } else {
        whole
    }
}

/// Append tenths as a number with one decimal place.
pub fn push_tenths(s: &mut String, tenths: u128)
    ensures
        final(s)@ == old(s)@ + one_decimal(tenths as nat),
{
    push_u128(s, tenths / 10);
    s.push('.');
    s.push(digit_char((tenths % 10) as u64));
    assert(s@ =~= old(s)@ + one_decimal(tenths as nat));
}

/// Hundredths, as a number with two decimal places.
pub open spec fn two_decimals(hundredths: nat) -> Seq<char> {
    dec(hundredths / 100).push('.').push(digit(hundredths / 10 % 10)).push(digit(hundredths % 10))
}

/// Append hundredths as a number with two decimal places.
pub fn push_hundredths(s: &mut String, hundredths: u128)
    ensures
        final(s)@ == old(s)@ + two_decimals(hundredths as nat),
{
    push_u128(s, hundredths / 100);
    s.push('.');
    s.push(digit_char((hundredths / 10 % 10) as u64));
    s.push(digit_char((hundredths % 10) as u64));
    assert(s@ =~= old(s)@ + two_decimals(hundredths as nat));
}

/// Tenths, as a number with one decimal place.
pub open spec fn one_decimal(tenths: nat) -> Seq<char> {
    dec(tenths / 10).push('.').push(digit(tenths % 10))
}

/// Whether `c` is an ASCII decimal digit.
pub open spec fn is_digit(c: char) -> bool {
    '0' <= c <= '9'
}

/// The value of an ASCII decimal digit.
pub open spec fn digit_value(c: char) -> nat {
    (c as int - '0' as int) as nat
}

/// Every character is an ASCII decimal digit.
pub open spec fn all_digits(s: Seq<char>) -> bool {
    forall|i: int| 0 <= i < s.len() ==> is_digit(#[trigger] s[i])
}

/// The number a digit sequence spells.
pub open spec fn value(s: Seq<char>) -> nat
    decreases s.len(),
{
    if s.len() == 0 {
        0
    } else {
        value(s.drop_last()) * 10 + digit_value(s.last())
    }
}

/// The unsigned number `s` spells: digits, with an optional leading `+`.
pub open spec fn parsed(s: Seq<char>) -> Option<nat> {
    let t = if s.len() > 0 && s[0] == '+' {
        s.skip(1)
    } else {
        s
    };
    if t.len() > 0 && all_digits(t) {
        Some(value(t))
    } else {
        None
    }
}

/// `parsed`, refused above `max`.
pub open spec fn parsed_within(s: Seq<char>, max: nat) -> Option<nat> {
    match parsed(s) {
        Some(v) => if v <= max {
            Some(v)
        } else {
            None
        },
        None => None,
    }
}

proof fn lemma_value_grows(s: Seq<char>, k: int)
    requires
        0 <= k <= s.len(),
    ensures
        value(s.take(k)) <= value(s),
    decreases s.len(),
{
    if k < s.len() {
        lemma_value_grows(s.drop_last(), k);
        assert(s.drop_last().take(k) =~= s.take(k));
    } else {
        assert(s.take(k) =~= s);
    }
}

fn char_digit(c: char) -> (d: u64)
    requires
        is_digit(c),
    ensures
        d == digit_value(c),
        d < 10,
{
    (c as u32 - '0' as u32) as u64
}

/// Parse an unsigned number no larger than `max`.
pub fn parse_u64_within(s: &str, max: u64) -> (r: Option<u64>)
    ensures
        r is Some == parsed_within(s@, max as nat) is Some,
        r is Some ==> r->0 == parsed_within(s@, max as nat)->0,
{
    let v = to_chars(s);
    let start: usize = if v.len() > 0 && v[0] == '+' {
        1
    } else {
        0
    };
    let ghost t = v@.skip(start as int);
    assert(start == 0 ==> t =~= s@);
    if start >= v.len() {
        return None;
    }
    let mut acc: u64 = 0;
    let mut i: usize = start;
    while i < v.len()
        invariant
            start <= i <= v.len(),
            t == v@.skip(start as int),
            acc == value(t.take(i - start)),
            acc <= max,
            forall|j: int| 0 <= j < i - start ==> is_digit(#[trigger] t[j]),
            v@ == s@,
            start < v.len(),
            start == (if s@.len() > 0 && s@[0] == '+' {
                1int
            } else {
                0int
            }),
            start == 0 ==> t == s@,
            start == 1 ==> t == s@.skip(1),
        decreases v.len() - i,
    {
        let c = v[i];
        assert(t[i - start] == c);
        if c < '0' || c > '9' {
            assert(!is_digit(t[i - start]));
            return None;
        }
        let d: u64 = char_digit(c);
        assert(t.take(i - start + 1).drop_last() =~= t.take(i - start));
        assert(value(t.take(i - start + 1)) == acc * 10 + d);
        proof {
            lemma_value_grows(t, i - start + 1);
        }
        if acc > max / 10 || d > max - acc * 10 {
            return None;
        }
        acc = acc * 10 + d;
        i += 1;
    }
    assert(t.take(i - start) =~= t);
    Some(acc)
}

/// The number a text spells, or another where it spells none.
pub open spec fn number_or(s: Seq<char>, other: nat) -> nat {
    match parsed_within(s, u64::MAX as nat) {
        Some(n) => n,
        None => other,
    }
}

/// The number a text spells, or another where it spells none.
pub fn parse_or(s: &str, other: u64) -> (r: u64)
    ensures
        r == number_or(s@, other as nat),
{
    match parse_u64(s) {
        Some(n) => n,
        None => other,
    }
}

/// Parse an unsigned 64-bit number.
pub fn parse_u64(s: &str) -> (r: Option<u64>)
    ensures
        r is Some == parsed_within(s@, u64::MAX as nat) is Some,
        r is Some ==> r->0 == parsed_within(s@, u64::MAX as nat)->0,
{
    parse_u64_within(s, u64::MAX)
}

/// A decimal spelling is made of digits, and reading it gives the number back.
pub proof fn law_decimal_reads_back(n: nat)
    ensures
        dec(n).len() > 0,
        all_digits(dec(n)),
        value(dec(n)) == n,
        parsed(dec(n)) == Some(n),
    decreases n,
{
    if n < 10 {
        assert(dec(n).drop_last() =~= Seq::<char>::empty());
        assert(value(dec(n).drop_last()) == 0);
    } else {
        law_decimal_reads_back(n / 10);
        assert(dec(n).drop_last() =~= dec(n / 10));
    }
    assert(dec(n)[0] != '+') by {
        assert(is_digit(dec(n)[0]));
    }
}

/// Every character of a signed spelling after the first is a digit, and the
/// first is a digit or a `-`.
pub proof fn lemma_dec_int_shape(i: int)
    ensures
        dec_int(i).len() > 0,
        is_digit(dec_int(i)[0]) || dec_int(i)[0] == '-',
        forall|k: int| 0 < k < dec_int(i).len() ==> is_digit(#[trigger] dec_int(i)[k]),
{
    if i < 0 {
        law_decimal_reads_back((-i) as nat);
    } else {
        law_decimal_reads_back(i as nat);
    }
}

/// Two integers with one spelling are one integer.
pub proof fn law_signed_spelling_is_unique(a: int, b: int)
    requires
        dec_int(a) == dec_int(b),
    ensures
        a == b,
{
    let na = if a < 0 {
        (-a) as nat
    } else {
        a as nat
    };
    let nb = if b < 0 {
        (-b) as nat
    } else {
        b as nat
    };
    law_decimal_reads_back(na);
    law_decimal_reads_back(nb);
    assert(a < 0 ==> dec_int(a)[0] == '-');
    assert(b < 0 ==> dec_int(b)[0] == '-');
    assert(a >= 0 ==> is_digit(dec_int(a)[0]));
    assert(b >= 0 ==> is_digit(dec_int(b)[0]));
    if a < 0 {
        assert(dec_int(a).skip(1) =~= dec(na));
        assert(dec_int(b).skip(1) =~= dec(nb));
    }
}

// ------------------------------------------------------------------ lists --

/// An optional text.
pub open spec fn opt_text(s: Option<String>) -> Option<Seq<char>> {
    match s {
        Some(t) => Some(t@),
        None => None,
    }
}

/// The character sequences of a list of strings.
pub open spec fn texts(v: Seq<String>) -> Seq<Seq<char>> {
    v.map_values(|s: String| s@)
}

/// Append one string to a list.
pub fn push_text(v: &mut Vec<String>, s: &str)
    ensures
        texts(final(v)@) == texts(old(v)@).push(s@),
        final(v)@.len() == old(v)@.len() + 1,
{
    v.push(s.to_owned());
    assert(texts(v@) =~= texts(old(v)@).push(s@));
}

/// Append one string to a list, taking it over.
pub fn push_owned(v: &mut Vec<String>, s: String)
    ensures
        texts(final(v)@) == texts(old(v)@).push(s@),
        final(v)@.len() == old(v)@.len() + 1,
{
    v.push(s);
    assert(texts(v@) =~= texts(old(v)@).push(s@));
}

/// Append every string of `more` to a list.
pub fn push_texts(v: &mut Vec<String>, more: &[String])
    ensures
        texts(final(v)@) == texts(old(v)@) + texts(more@),
{
    let mut i: usize = 0;
    while i < more.len()
        invariant
            i <= more.len(),
            texts(v@) == texts(old(v)@) + texts(more@.take(i as int)),
        decreases more.len() - i,
    {
        push_text(v, more[i].as_str());
        i += 1;
        assert(texts(more@.take(i as int)) =~= texts(more@.take(i - 1)).push(more@[i - 1]@));
        assert(texts(v@) =~= texts(old(v)@) + texts(more@.take(i as int)));
    }
    assert(more@.take(i as int) =~= more@);
    assert(texts(v@) =~= texts(old(v)@) + texts(more@));
}

/// A list of the same strings.
pub fn clone_texts(v: &[String]) -> (r: Vec<String>)
    ensures
        texts(r@) == texts(v@),
{
    let mut r: Vec<String> = Vec::new();
    push_texts(&mut r, v);
    assert(texts(r@) =~= texts(v@));
    r
}

/// The entries of `parts` with `sep` between them.
pub open spec fn joined(parts: Seq<Seq<char>>, sep: Seq<char>) -> Seq<char>
    decreases parts.len(),
{
    if parts.len() == 0 {
        Seq::empty()
    } else if parts.len() == 1 {
        parts[0]
    } else {
        joined(parts.drop_last(), sep) + sep + parts.last()
    }
}

/// Join strings with a separator.
pub fn join(parts: &[String], sep: &str) -> (s: String)
    ensures
        s@ == joined(texts(parts@), sep@),
{
    let mut s = String::new();
    let mut i: usize = 0;
    while i < parts.len()
        invariant
            i <= parts.len(),
            s@ == joined(texts(parts@.take(i as int)), sep@),
        decreases parts.len() - i,
    {
        let ghost before = texts(parts@.take(i as int));
        let ghost after = texts(parts@.take(i + 1));
        assert(after.drop_last() =~= before);
        assert(after.last() == parts@[i as int]@);
        if i > 0 {
            s.append(sep);
        }
        s.append(parts[i].as_str());
        assert(s@ =~= joined(after, sep@));
        i += 1;
    }
    assert(parts@.take(i as int) =~= parts@);
    s
}

// ------------------------------------------------------------- characters --

/// Whether a character separates words: the Unicode `White_Space` property.
pub open spec fn is_space(c: char) -> bool {
    let u = c as u32;
    ||| 0x09 <= u <= 0x0d
    ||| u == 0x20
    ||| u == 0x85
    ||| u == 0xa0
    ||| u == 0x1680
    ||| 0x2000 <= u <= 0x200a
    ||| u == 0x2028
    ||| u == 0x2029
    ||| u == 0x202f
    ||| u == 0x205f
    ||| u == 0x3000
}

/// Whether a character separates words.
pub fn space(c: char) -> (r: bool)
    ensures
        r == is_space(c),
{
    let u = c as u32;
    (0x09 <= u && u <= 0x0d) || u == 0x20 || u == 0x85 || u == 0xa0 || u == 0x1680 || (0x2000 <= u
        && u <= 0x200a) || u == 0x2028 || u == 0x2029 || u == 0x202f || u == 0x205f || u == 0x3000
}

/// The length of the word `s` begins with.
pub open spec fn word_len(s: Seq<char>) -> nat
    decreases s.len(),
{
    if s.len() == 0 || is_space(s[0]) {
        0
    } else {
        1 + word_len(s.skip(1))
    }
}

/// The words of a text: its longest runs without white space.
pub open spec fn words(s: Seq<char>) -> Seq<Seq<char>>
    decreases s.len(),
{
    if s.len() == 0 {
        Seq::empty()
    } else if is_space(s[0]) {
        words(s.skip(1))
    } else {
        proof {
            lemma_word_len(s);
        }
        seq![s.take(word_len(s) as int)] + words(s.skip(word_len(s) as int))
    }
}

/// A word is no longer than its text, and one that begins is not empty.
pub proof fn lemma_word_len(s: Seq<char>)
    ensures
        word_len(s) <= s.len(),
        s.len() > 0 && !is_space(s[0]) ==> word_len(s) > 0,
    decreases s.len(),
{
    if s.len() > 0 && !is_space(s[0]) {
        lemma_word_len(s.skip(1));
    }
}

proof fn lemma_word_len_is(s: Seq<char>, k: int)
    requires
        0 <= k <= s.len(),
        forall|i: int| 0 <= i < k ==> !is_space(#[trigger] s[i]),
        k < s.len() ==> is_space(s[k]),
    ensures
        word_len(s) == k,
    decreases s.len(),
{
    if k > 0 {
        let t = s.skip(1);
        assert forall|i: int| 0 <= i < k - 1 implies !is_space(#[trigger] t[i]) by {
            assert(t[i] == s[i + 1]);
        }
        assert(k < s.len() ==> t[k - 1] == s[k]);
        assert(!is_space(s[0]));
        lemma_word_len_is(t, k - 1);
    }
}

/// The words of a text.
pub fn split_words(s: &str) -> (r: Vec<String>)
    ensures
        texts(r@) == words(s@),
{
    let v = to_chars(s);
    let mut r: Vec<String> = Vec::new();
    let mut pos: usize = 0;
    assert(v@.skip(0) =~= s@);
    assert(texts(r@) + words(s@) =~= words(s@));
    while pos < v.len()
        invariant
            pos <= v@.len(),
            v@ == s@,
            texts(r@) + words(v@.skip(pos as int)) == words(s@),
        decreases v.len() - pos,
    {
        let ghost here = v@.skip(pos as int);
        assert(here[0] == v@[pos as int]);
        if space(v[pos]) {
            assert(here.skip(1) =~= v@.skip(pos + 1));
            pos += 1;
        } else {
            let mut e: usize = pos;
            while e < v.len() && !space(v[e])
                invariant
                    pos <= e <= v@.len(),
                    here == v@.skip(pos as int),
                    forall|i: int| 0 <= i < e - pos ==> !is_space(#[trigger] here[i]),
                decreases v.len() - e,
            {
                assert(here[e - pos] == v@[e as int]);
                e += 1;
            }
            proof {
                assert(e < v@.len() ==> here[e - pos] == v@[e as int]);
                lemma_word_len_is(here, e - pos);
            }
            let ghost before = texts(r@);
            push_owned(&mut r, slice_text(&v, pos, e));
            assert(v@.subrange(pos as int, e as int) =~= here.take(e - pos));
            assert(here.skip(e - pos) =~= v@.skip(e as int));
            assert(texts(r@) + words(v@.skip(e as int)) =~= before + words(here));
            pos = e;
        }
    }
    assert(v@.skip(pos as int) =~= Seq::<char>::empty());
    assert(texts(r@) + words(v@.skip(pos as int)) =~= texts(r@));
    r
}

/// Whether a character is an ASCII letter or digit.
pub open spec fn is_alphanumeric(c: char) -> bool {
    ('a' <= c <= 'z') || ('A' <= c <= 'Z') || ('0' <= c <= '9')
}

/// Whether a character is an ASCII letter or digit.
pub fn alphanumeric(c: char) -> (r: bool)
    ensures
        r == is_alphanumeric(c),
{
    ('a' <= c && c <= 'z') || ('A' <= c && c <= 'Z') || ('0' <= c && c <= '9')
}

/// The position of the first `c` in `s`, or the length of `s`.
pub open spec fn first_index(s: Seq<char>, c: char) -> int
    decreases s.len(),
{
    if s.len() == 0 {
        0
    } else if s[0] == c {
        0
    } else {
        1 + first_index(s.skip(1), c)
    }
}

/// The position of the last `c` in `s`, or -1.
pub open spec fn last_index(s: Seq<char>, c: char) -> int
    decreases s.len(),
{
    if s.len() == 0 {
        -1
    } else if s.last() == c {
        s.len() - 1
    } else {
        last_index(s.drop_last(), c)
    }
}

/// What characterises `first_index`.
pub proof fn lemma_first_index(s: Seq<char>, c: char)
    ensures
        0 <= first_index(s, c) <= s.len(),
        first_index(s, c) < s.len() ==> s[first_index(s, c)] == c,
        forall|i: int| 0 <= i < first_index(s, c) ==> s[i] != c,
    decreases s.len(),
{
    if s.len() > 0 && s[0] != c {
        lemma_first_index(s.skip(1), c);
        assert forall|i: int| 0 <= i < first_index(s, c) implies s[i] != c by {
            if i > 0 {
                assert(s.skip(1)[i - 1] == s[i]);
            }
        }
    }
}

/// Any position with these properties is `first_index`.
pub proof fn lemma_first_index_is(s: Seq<char>, c: char, k: int)
    requires
        0 <= k <= s.len(),
        k < s.len() ==> s[k] == c,
        forall|i: int| 0 <= i < k ==> s[i] != c,
    ensures
        first_index(s, c) == k,
{
    lemma_first_index(s, c);
    let f = first_index(s, c);
    if f < k {
        assert(s[f] != c);
    } else if k < f {
        assert(s[k] != c);
    }
}

/// What characterises `last_index`.
pub proof fn lemma_last_index(s: Seq<char>, c: char)
    ensures
        -1 <= last_index(s, c) < s.len(),
        last_index(s, c) >= 0 ==> s[last_index(s, c)] == c,
        forall|i: int| last_index(s, c) < i < s.len() ==> s[i] != c,
    decreases s.len(),
{
    if s.len() > 0 && s.last() != c {
        lemma_last_index(s.drop_last(), c);
        assert forall|i: int| last_index(s, c) < i < s.len() implies s[i] != c by {
            if i < s.len() - 1 {
                assert(s.drop_last()[i] == s[i]);
            }
        }
    }
}

/// Any position with these properties is `last_index`.
pub proof fn lemma_last_index_is(s: Seq<char>, c: char, k: int)
    requires
        -1 <= k < s.len(),
        k >= 0 ==> s[k] == c,
        forall|i: int| k < i < s.len() ==> s[i] != c,
    ensures
        last_index(s, c) == k,
{
    lemma_last_index(s, c);
    let f = last_index(s, c);
    if f < k {
        assert(s[k] != c);
    } else if k < f {
        assert(s[f] != c);
    }
}

/// The position of the first `c` at or after `from`, or the length.
pub fn find_from(v: &Vec<char>, c: char, from: usize) -> (k: usize)
    requires
        from <= v@.len(),
    ensures
        from <= k <= v@.len(),
        k - from == first_index(v@.skip(from as int), c),
        k < v@.len() ==> v@[k as int] == c,
        forall|i: int| from <= i < k ==> v@[i] != c,
{
    let mut k: usize = from;
    while k < v.len()
        invariant_except_break
            from <= k <= v.len(),
            forall|i: int| from <= i < k ==> v@[i] != c,
        ensures
            from <= k <= v@.len(),
            k < v@.len() ==> v@[k as int] == c,
            forall|i: int| from <= i < k ==> v@[i] != c,
        decreases v.len() - k,
    {
        if v[k] == c {
            break ;
        }
        k += 1;
    }
    proof {
        lemma_first_index_is(v@.skip(from as int), c, k - from);
    }
    k
}

/// One past the position of the last `c` before `to`, or zero.
pub fn rfind_before(v: &Vec<char>, c: char, to: usize) -> (k: usize)
    requires
        to <= v@.len(),
    ensures
        k <= to,
        k - 1 == last_index(v@.take(to as int), c),
        k > 0 ==> v@[k - 1] == c,
        forall|i: int| k <= i < to ==> v@[i] != c,
{
    let mut k: usize = to;
    while k > 0
        invariant_except_break
            k <= to <= v@.len(),
            forall|i: int| k <= i < to ==> v@[i] != c,
        ensures
            k <= to <= v@.len(),
            k > 0 ==> v@[k - 1] == c,
            forall|i: int| k <= i < to ==> v@[i] != c,
        decreases k,
    {
        if v[k - 1] == c {
            break ;
        }
        k -= 1;
    }
    proof {
        lemma_last_index_is(v@.take(to as int), c, k - 1);
    }
    k
}

/// The pieces of a text between one separator and the next.
pub open spec fn split_on(s: Seq<char>, c: char) -> Seq<Seq<char>>
    decreases s.len(),
{
    let k = first_index(s, c);
    proof {
        lemma_first_index(s, c);
    }
    if k < s.len() {
        seq![s.take(k)] + split_on(s.skip(k + 1), c)
    } else {
        seq![s]
    }
}

/// Split a text at every separator.
pub fn split_char(s: &str, c: char) -> (r: Vec<String>)
    ensures
        texts(r@) == split_on(s@, c),
        r@.len() > 0,
{
    let v = to_chars(s);
    let mut r: Vec<String> = Vec::new();
    let mut pos: usize = 0;
    assert(v@.skip(0) =~= s@);
    assert(texts(r@) + split_on(s@, c) =~= split_on(s@, c));
    loop
        invariant
            pos <= v@.len(),
            v@ == s@,
            texts(r@) + split_on(v@.skip(pos as int), c) == split_on(s@, c),
        decreases v.len() - pos,
    {
        let k: usize = find_from(&v, c, pos);
        let ghost here = v@.skip(pos as int);
        let ghost was = texts(r@);
        push_owned(&mut r, slice_text(&v, pos, k));
        assert(v@.subrange(pos as int, k as int) =~= here.take(k - pos));
        if k >= v.len() {
            assert(here.take(k - pos) =~= here);
            assert(was + seq![here] =~= texts(r@));
            return r;
        }
        assert(here.skip(k - pos + 1) =~= v@.skip(k + 1));
        assert(texts(r@) + split_on(v@.skip(k + 1), c) =~= was + split_on(here, c));
        pos = k + 1;
    }
}

/// The string of the characters `from..to`.
pub fn slice_text(v: &Vec<char>, from: usize, to: usize) -> (s: String)
    requires
        from <= to <= v@.len(),
    ensures
        s@ == v@.subrange(from as int, to as int),
{
    let mut s = String::new();
    let mut i: usize = from;
    while i < to
        invariant
            from <= i <= to <= v@.len(),
            s@ == v@.subrange(from as int, i as int),
        decreases to - i,
    {
        s.push(v[i]);
        i += 1;
        assert(s@ =~= v@.subrange(from as int, i as int));
    }
    s
}

/// Two strings in a row.
pub fn cat2(a: &str, b: &str) -> (s: String)
    ensures
        s@ == a@ + b@,
{
    let mut s = a.to_owned();
    s.append(b);
    s
}

/// Three strings in a row.
pub fn cat3(a: &str, b: &str, c: &str) -> (s: String)
    ensures
        s@ == a@ + b@ + c@,
{
    let mut s = a.to_owned();
    s.append(b);
    s.append(c);
    s
}

// ------------------------------------------------------------ lines, trims --

/// A line without the carriage return that belongs to its line ending.
pub open spec fn strip_cr(s: Seq<char>) -> Seq<char> {
    if s.len() > 0 && s.last() == '\r' {
        s.drop_last()
    } else {
        s
    }
}

/// The lines of a text. The last line ending is optional.
pub open spec fn lines(s: Seq<char>) -> Seq<Seq<char>>
    decreases s.len(),
{
    let k = first_index(s, '\n');
    proof {
        lemma_first_index(s, '\n');
    }
    if s.len() == 0 {
        Seq::empty()
    } else if k < s.len() {
        seq![strip_cr(s.take(k))] + lines(s.skip(k + 1))
    } else {
        seq![s]
    }
}

/// The lines of two texts put together, where the first ends its last line, are
/// the lines of the one and then those of the other.
pub proof fn law_lines_add_up(a: Seq<char>, b: Seq<char>)
    requires
        a.len() == 0 || a.last() == '\n',
    ensures
        lines(a + b) == lines(a) + lines(b),
    decreases a.len(),
{
    let s = a + b;
    if a.len() == 0 {
        assert(s =~= b);
        assert(lines(a) + lines(b) =~= lines(b));
    } else {
        lemma_first_index(a, '\n');
        let k = first_index(a, '\n');
        assert(k < a.len()) by {
            if k == a.len() {
                assert(a[a.len() - 1] != '\n');
            }
        }
        lemma_first_index_is(s, '\n', k);
        let rest = a.skip(k + 1);
        assert(s.take(k) =~= a.take(k));
        assert(s.skip(k + 1) =~= rest + b);
        assert(rest.len() == 0 || rest.last() == a.last());
        law_lines_add_up(rest, b);
        assert(lines(s) =~= lines(a) + lines(b));
    }
}

/// A line ending closes the last line, or adds an empty one where nothing was
/// open.
pub proof fn lemma_closed_lines(a: Seq<char>)
    ensures
        ({
            let open = a.len() > 0 && a.last() != '\n';
            &&& open ==> lines(a).len() > 0 && lines(a.push('\n')) == lines(a).drop_last().push(
                strip_cr(lines(a).last()),
            )
            &&& !open ==> lines(a.push('\n')) == lines(a).push(Seq::empty())
        }),
    decreases a.len(),
{
    let s = a.push('\n');
    lemma_first_index(a, '\n');
    let k = first_index(a, '\n');
    lemma_first_index_is(s, '\n', k);
    assert(s.take(k) =~= a.take(k));
    if k < a.len() {
        let rest = a.skip(k + 1);
        assert(s.skip(k + 1) =~= rest.push('\n'));
        lemma_closed_lines(rest);
        assert(rest.len() > 0 ==> rest.last() == a.last());
        if rest.len() == 0 {
            assert(a.last() == '\n');
        }
        if a.last() != '\n' {
            assert(lines(a).last() == lines(rest).last());
            assert(lines(s) =~= lines(a).drop_last().push(strip_cr(lines(a).last())));
        } else {
            assert(lines(s) =~= lines(a).push(Seq::empty()));
        }
    } else {
        assert(a.take(k) =~= a);
        assert(s.skip(k + 1) =~= Seq::<char>::empty());
        assert(lines(s.skip(k + 1)) =~= Seq::empty());
        assert(a.len() > 0 ==> a[a.len() - 1] != '\n');
        if a.len() > 0 {
            assert(lines(a) =~= seq![a]);
            assert(lines(s) =~= lines(a).drop_last().push(strip_cr(lines(a).last())));
        } else {
            assert(strip_cr(a) =~= Seq::<char>::empty());
            assert(lines(s) =~= lines(a).push(Seq::empty()));
        }
    }
}

/// The lines of a text.
pub fn split_lines(s: &str) -> (r: Vec<String>)
    ensures
        texts(r@) == lines(s@),
{
    let v = to_chars(s);
    let mut r: Vec<String> = Vec::new();
    let mut pos: usize = 0;
    assert(v@.skip(0) =~= s@);
    assert(texts(r@) + lines(s@) =~= lines(s@));
    while pos < v.len()
        invariant
            pos <= v@.len(),
            v@ == s@,
            texts(r@) + lines(v@.skip(pos as int)) == lines(s@),
        decreases v.len() - pos,
    {
        let k: usize = find_from(&v, '\n', pos);
        let ghost here = v@.skip(pos as int);
        let ghost was = texts(r@);
        assert(v@.subrange(pos as int, k as int) =~= here.take(k - pos));
        if k < v.len() {
            let e: usize = if k > pos && v[k - 1] == '\r' {
                k - 1
            } else {
                k
            };
            let line = slice_text(&v, pos, e);
            assert(line@ =~= strip_cr(here.take(k - pos))) by {
                if k > pos {
                    assert(here.take(k - pos).last() == v@[k - 1]);
                }
            }
            push_owned(&mut r, line);
            assert(here.skip(k - pos + 1) =~= v@.skip(k + 1));
            assert(texts(r@) + lines(v@.skip(k + 1)) =~= was + lines(here));
            pos = k + 1;
        } else {
            push_owned(&mut r, slice_text(&v, pos, k));
            assert(here.take(k - pos) =~= here);
            assert(v@.skip(k as int) =~= Seq::<char>::empty());
            assert(texts(r@) + lines(v@.skip(k as int)) =~= was + lines(here));
            pos = k;
        }
    }
    assert(v@.skip(pos as int) =~= Seq::<char>::empty());
    assert(texts(r@) + lines(v@.skip(pos as int)) =~= texts(r@));
    r
}

/// A text without leading white space.
pub open spec fn trim_start(s: Seq<char>) -> Seq<char>
    decreases s.len(),
{
    if s.len() > 0 && is_space(s[0]) {
        trim_start(s.skip(1))
    } else {
        s
    }
}

/// A text without trailing white space.
pub open spec fn trim_end(s: Seq<char>) -> Seq<char>
    decreases s.len(),
{
    if s.len() > 0 && is_space(s.last()) {
        trim_end(s.drop_last())
    } else {
        s
    }
}

/// A text without white space around it.
pub open spec fn trimmed(s: Seq<char>) -> Seq<char> {
    trim_end(trim_start(s))
}

/// White space at the end makes no difference to a trimmed text.
pub proof fn lemma_trimmed_end(s: Seq<char>)
    requires
        s.len() > 0,
        is_space(s.last()),
    ensures
        trimmed(s.drop_last()) == trimmed(s),
    decreases s.len(),
{
    let t = s.drop_last();
    if is_space(s[0]) {
        if s.len() > 1 {
            assert(t[0] == s[0]);
            assert(s.skip(1).drop_last() =~= t.skip(1));
            lemma_trimmed_end(s.skip(1));
        } else {
            assert(s.skip(1) =~= t);
        }
    } else {
        assert(s.len() > 1);
        assert(t[0] == s[0]);
    }
}

/// A text without white space around it.
pub fn trim(s: &str) -> (r: String)
    ensures
        r@ == trimmed(s@),
{
    let v = to_chars(s);
    let mut from: usize = 0;
    assert(v@.skip(0) =~= s@);
    while from < v.len() && space(v[from])
        invariant
            from <= v@.len(),
            v@ == s@,
            trim_start(v@.skip(from as int)) == trim_start(s@),
        decreases v.len() - from,
    {
        assert(v@.skip(from as int)[0] == v@[from as int]);
        assert(v@.skip(from as int).skip(1) =~= v@.skip(from + 1));
        from += 1;
    }
    let ghost begun = v@.skip(from as int);
    assert(begun == trim_start(s@)) by {
        if from < v@.len() {
            assert(begun[0] == v@[from as int]);
        }
    }
    let mut to: usize = v.len();
    assert(v@.subrange(from as int, to as int) =~= begun);
    while to > from && space(v[to - 1])
        invariant
            from <= to <= v@.len(),
            trim_end(v@.subrange(from as int, to as int)) == trim_end(begun),
        decreases to,
    {
        let ghost here = v@.subrange(from as int, to as int);
        assert(here.last() == v@[to - 1]);
        assert(here.drop_last() =~= v@.subrange(from as int, to - 1));
        to -= 1;
    }
    assert(to > from ==> v@.subrange(from as int, to as int).last() == v@[to - 1]);
    slice_text(&v, from, to)
}

/// The two sides of the first separator.
pub open spec fn cut(s: Seq<char>, c: char) -> Option<(Seq<char>, Seq<char>)> {
    let k = first_index(s, c);
    if k < s.len() {
        Some((s.take(k), s.skip(k + 1)))
    } else {
        None
    }
}

/// Split a text at the first separator.
pub fn split_once(s: &str, c: char) -> (r: Option<(String, String)>)
    ensures
        r is Some == cut(s@, c) is Some,
        r matches Some(p) ==> cut(s@, c) == Some((p.0@, p.1@)),
{
    let v = to_chars(s);
    let k: usize = find_from(&v, c, 0);
    assert(v@.skip(0) =~= s@);
    if k >= v.len() {
        return None;
    }
    let a = slice_text(&v, 0, k);
    let b = slice_text(&v, k + 1, v.len());
    assert(a@ =~= s@.take(k as int));
    assert(b@ =~= s@.skip(k + 1));
    Some((a, b))
}

/// What follows a prefix.
pub open spec fn after_prefix(s: Seq<char>, prefix: Seq<char>) -> Option<Seq<char>> {
    if occurs_at(s, prefix, 0) {
        Some(s.skip(prefix.len() as int))
    } else {
        None
    }
}

/// What follows a prefix, where the text begins with it.
pub fn strip_prefix(s: &str, prefix: &str) -> (r: Option<String>)
    ensures
        r is Some == after_prefix(s@, prefix@) is Some,
        r matches Some(t) ==> after_prefix(s@, prefix@) == Some(t@),
{
    if !starts_with(s, prefix) {
        return None;
    }
    let v = to_chars(s);
    let n: usize = prefix.unicode_len();
    let r = slice_text(&v, n, v.len());
    assert(r@ =~= s@.skip(n as int));
    Some(r)
}

// ------------------------------------------------------------------- bytes --

/// How many bytes a character takes in UTF-8.
pub open spec fn width(c: char) -> nat {
    let u = c as u32;
    if u < 0x80 {
        1
    } else if u < 0x800 {
        2
    } else if u < 0x10000 {
        3
    } else {
        4
    }
}

/// How many bytes a text takes in UTF-8.
pub open spec fn byte_len(s: Seq<char>) -> nat
    decreases s.len(),
{
    if s.len() == 0 {
        0
    } else {
        width(s[0]) + byte_len(s.skip(1))
    }
}

fn char_width(c: char) -> (r: u64)
    ensures
        r == width(c),
        1 <= r <= 4,
{
    let u: u32 = c as u32;
    if u < 0x80 {
        1
    } else if u < 0x800 {
        2
    } else if u < 0x10000 {
        3
    } else {
        4
    }
}

/// How many bytes the characters from `from` on take in UTF-8.
fn bytes_from(v: &Vec<char>, from: usize) -> (r: u128)
    requires
        from <= v@.len(),
    ensures
        r == byte_len(v@.skip(from as int)),
        r <= 4 * (v@.len() - from),
{
    let mut r: u128 = 0;
    let mut i: usize = v.len();
    assert(v@.skip(i as int) =~= Seq::<char>::empty());
    while i > from
        invariant
            from <= i <= v@.len() <= usize::MAX,
            r == byte_len(v@.skip(i as int)),
            r <= 4 * (v@.len() - i),
        decreases i,
    {
        assert(v@.skip(i - 1)[0] == v@[i - 1]);
        assert(v@.skip(i - 1).skip(1) =~= v@.skip(i as int));
        r = r + char_width(v[i - 1]) as u128;
        i -= 1;
    }
    r
}

/// The longest end of a text that takes at most `max` bytes and is not empty.
pub open spec fn fitting(s: Seq<char>, max: nat) -> Option<Seq<char>>
    decreases s.len(),
{
    if s.len() == 0 {
        None
    } else if byte_len(s) <= max {
        Some(s)
    } else {
        fitting(s.skip(1), max)
    }
}

/// The end of a text that fits in `max` bytes, cut between characters; the
/// whole text where not even its last character fits.
pub open spec fn tail_of(s: Seq<char>, max: nat) -> Seq<char> {
    match fitting(s, max) {
        Some(t) => t,
        None => s,
    }
}

/// The end of a text that fits in `max` bytes, cut between characters.
pub fn tail(s: &str, max: u64) -> (r: String)
    ensures
        r@ == tail_of(s@, max as nat),
{
    let v = to_chars(s);
    let mut left: u128 = bytes_from(&v, 0);
    let mut k: usize = 0;
    assert(v@.skip(0) =~= s@);
    while k < v.len() && left > max as u128
        invariant
            k <= v@.len(),
            v@ == s@,
            left == byte_len(v@.skip(k as int)),
            fitting(v@.skip(k as int), max as nat) == fitting(s@, max as nat),
        decreases v.len() - k,
    {
        assert(v@.skip(k as int)[0] == v@[k as int]);
        assert(v@.skip(k as int).skip(1) =~= v@.skip(k + 1));
        left = left - char_width(v[k]) as u128;
        k += 1;
    }
    if k < v.len() {
        let r = slice_text(&v, k, v.len());
        assert(r@ =~= v@.skip(k as int));
        r
    } else {
        s.to_owned()
    }
}

/// How many bytes a text takes in UTF-8.
pub fn utf8_len(s: &str) -> (r: u128)
    ensures
        r == byte_len(s@),
        r < 0x1_0000_0000_0000_0000_0000,
{
    let v = to_chars(s);
    assert(v@.skip(0) =~= s@);
    assert(v.len() <= usize::MAX);
    bytes_from(&v, 0)
}

/// `c` repeated `n` times.
pub open spec fn repeated(c: char, n: nat) -> Seq<char> {
    Seq::new(n, |i: int| c)
}

/// A text padded with spaces on the right to `w` characters.
pub open spec fn padded(s: Seq<char>, w: nat) -> Seq<char> {
    if s.len() >= w {
        s
    } else {
        s + repeated(' ', (w - s.len()) as nat)
    }
}

/// Append `c` repeated `n` times.
pub fn push_repeated(s: &mut String, c: char, n: u128)
    ensures
        final(s)@ == old(s)@ + repeated(c, n as nat),
{
    let mut i: u128 = 0;
    assert(s@ =~= old(s)@ + repeated(c, 0));
    while i < n
        invariant
            i <= n,
            s@ == old(s)@ + repeated(c, i as nat),
        decreases n - i,
    {
        s.push(c);
        i += 1;
        assert(s@ =~= old(s)@ + repeated(c, i as nat));
    }
}

/// Append a text padded with spaces on the right to `w` characters.
pub fn push_padded(out: &mut String, s: &str, w: u128)
    ensures
        final(out)@ == old(out)@ + padded(s@, w as nat),
{
    let n: usize = s.unicode_len();
    out.append(s);
    if (n as u128) < w {
        push_repeated(out, ' ', w - n as u128);
    }
    assert(out@ =~= old(out)@ + padded(s@, w as nat));
}

// ------------------------------------------------------------------- order --

/// `a` comes strictly before `b`, character by character.
pub open spec fn before(a: Seq<char>, b: Seq<char>) -> bool
    decreases a.len(),
{
    if b.len() == 0 {
        false
    } else if a.len() == 0 {
        true
    } else if a[0] == b[0] {
        before(a.skip(1), b.skip(1))
    } else {
        a[0] < b[0]
    }
}

/// Of two different texts one comes first.
pub proof fn lemma_before_total(a: Seq<char>, b: Seq<char>)
    ensures
        before(a, b) || a == b || before(b, a),
    decreases a.len(),
{
    if a.len() > 0 && b.len() > 0 && a[0] == b[0] {
        lemma_before_total(a.skip(1), b.skip(1));
        if a.skip(1) == b.skip(1) {
            assert(a =~= seq![a[0]] + a.skip(1));
            assert(b =~= seq![b[0]] + b.skip(1));
        }
    } else if a.len() == 0 && b.len() == 0 {
        assert(a =~= b);
    }
}

/// Nothing comes before itself.
pub proof fn lemma_before_irreflexive(a: Seq<char>)
    ensures
        !before(a, a),
    decreases a.len(),
{
    if a.len() > 0 {
        lemma_before_irreflexive(a.skip(1));
    }
}

/// The order is transitive.
pub proof fn lemma_before_transitive(a: Seq<char>, b: Seq<char>, c: Seq<char>)
    requires
        before(a, b),
        before(b, c),
    ensures
        before(a, c),
    decreases a.len(),
{
    if a.len() > 0 && a[0] == b[0] && b[0] == c[0] {
        lemma_before_transitive(a.skip(1), b.skip(1), c.skip(1));
    }
}

/// Whether `a` comes strictly before `b`.
pub fn comes_before(a: &str, b: &str) -> (r: bool)
    ensures
        r == before(a@, b@),
{
    let x = to_chars(a);
    let y = to_chars(b);
    let mut i: usize = 0;
    assert(x@.skip(0) =~= x@ && y@.skip(0) =~= y@);
    while i < x.len() && i < y.len()
        invariant
            i <= x@.len(),
            i <= y@.len(),
            x@ == a@,
            y@ == b@,
            before(x@.skip(i as int), y@.skip(i as int)) == before(a@, b@),
        decreases x.len() - i,
    {
        let ghost u = x@.skip(i as int);
        let ghost v = y@.skip(i as int);
        assert(u[0] == x@[i as int] && v[0] == y@[i as int]);
        assert(u.skip(1) =~= x@.skip(i + 1));
        assert(v.skip(1) =~= y@.skip(i + 1));
        if x[i] != y[i] {
            return x[i] < y[i];
        }
        i += 1;
    }
    i < y.len()
}

// -------------------------------------------------------------- lowercase --

/// The Unicode lowercase form of a text, as `str::to_lowercase` computes it.
pub uninterp spec fn lowercase(s: Seq<char>) -> Seq<char>;

/// Wraps `str::to_lowercase`: the result depends on the text alone, and
/// `lowercase` names it. On a text of ASCII characters it makes the capitals
/// small and changes nothing else.
#[verifier::external_body]
pub(crate) fn to_lowercase(s: &str) -> (r: String)
    ensures
        r@ == lowercase(s@),
        (forall|i: int| 0 <= i < s@.len() ==> (#[trigger] s@[i] as u32) < 128) ==> r@
            == ascii_lower(s@),
{
    s.to_lowercase()
}

/// The ASCII lowercase form of a character.
pub open spec fn ascii_lower_char(c: char) -> char {
    if 'A' <= c <= 'Z' {
        ((c as u32) + 32) as char
    } else {
        c
    }
}

/// The text with every ASCII capital made small.
pub open spec fn ascii_lower(s: Seq<char>) -> Seq<char> {
    s.map_values(|c: char| ascii_lower_char(c))
}

/// The ASCII lowercase form of a character.
pub fn lower_char(c: char) -> (r: char)
    ensures
        r == ascii_lower_char(c),
{
    if 'A' <= c && c <= 'Z' {
        ((c as u8) + 32) as char
    } else {
        c
    }
}

/// The text with every ASCII capital made small.
pub fn to_ascii_lower(s: &str) -> (r: String)
    ensures
        r@ == ascii_lower(s@),
{
    let v = to_chars(s);
    let mut r = String::new();
    let mut i: usize = 0;
    while i < v.len()
        invariant
            i <= v.len(),
            v@ == s@,
            r@ == ascii_lower(s@.take(i as int)),
        decreases v.len() - i,
    {
        r.push(lower_char(v[i]));
        i += 1;
        assert(r@ =~= ascii_lower(s@.take(i as int)));
    }
    assert(s@.take(i as int) =~= s@);
    r
}

/// What stands before the same end is the same.
pub proof fn lemma_cancel_back(a: Seq<char>, b: Seq<char>, back: Seq<char>)
    requires
        a + back == b + back,
    ensures
        a == b,
{
    assert((a + back).len() == (b + back).len());
    assert((a + back).take(a.len() as int) =~= a);
    assert((b + back).take(b.len() as int) =~= b);
}

/// What stands after the same beginning is the same.
pub proof fn lemma_cancel_front(front: Seq<char>, a: Seq<char>, b: Seq<char>)
    requires
        front + a == front + b,
    ensures
        a == b,
{
    assert((front + a).skip(front.len() as int) =~= a);
    assert((front + b).skip(front.len() as int) =~= b);
}

// ------------------------------------------------------------------- laws --

/// A text contains another exactly where it is that other with something before
/// it and something after it.
pub proof fn law_what_it_is_to_contain(
    hay: Seq<char>,
    needle: Seq<char>,
    a: Seq<char>,
    b: Seq<char>,
)
    ensures
        has(a + needle + b, needle),
        has(hay, needle) ==> exists|x: Seq<char>, y: Seq<char>| hay == #[trigger] (x + needle + y),
{
    let whole = a + needle + b;
    assert(whole.subrange(a.len() as int, (a.len() + needle.len()) as int) =~= needle);
    assert(occurs_at(whole, needle, a.len() as int));
    if has(hay, needle) {
        let i = choose|i: int| occurs_at(hay, needle, i);
        let x = hay.take(i);
        let y = hay.skip(i + needle.len());
        assert(hay =~= x + needle + y) by {
            assert forall|k: int| 0 <= k < hay.len() implies hay[k] == (x + needle + y)[k] by {
                if i <= k < i + needle.len() {
                    assert(hay.subrange(i, i + needle.len())[k - i] == hay[k]);
                }
            }
        }
    }
}

/// A text begins with a prefix exactly where it is the prefix and what is left.
pub proof fn law_what_is_left_of_a_prefix(s: Seq<char>, prefix: Seq<char>, rest: Seq<char>)
    ensures
        after_prefix(prefix + rest, prefix) == Some(rest),
        after_prefix(s, prefix) matches Some(t) ==> s == prefix + t,
{
    assert((prefix + rest).subrange(0, prefix.len() as int) =~= prefix);
    assert((prefix + rest).skip(prefix.len() as int) =~= rest);
    if occurs_at(s, prefix, 0) {
        let t = s.skip(prefix.len() as int);
        assert(s.subrange(0, prefix.len() as int) == prefix);
        assert(s =~= s.subrange(0, prefix.len() as int) + t);
    }
}

/// Cutting at a character parts a text at the first one: nothing is lost but
/// that one, and there is none in the first part.
pub proof fn law_a_cut_is_at_the_first(s: Seq<char>, c: char)
    ensures
        cut(s, c) is None <==> !s.contains(c),
        cut(s, c) matches Some((k, v)) ==> s == k.push(c) + v && !k.contains(c),
{
    lemma_first_index(s, c);
    let k = first_index(s, c);
    if k < s.len() {
        assert(s =~= s.take(k).push(c) + s.skip(k + 1));
        let front = s.take(k);
        if front.contains(c) {
            let i = choose|i: int| 0 <= i < front.len() && front[i] == c;
            assert(s[i] == c);
        }
        assert(s[k] == c);
    }
}

/// Splitting loses nothing: the parts, put together again with the character
/// between them, are the text, and the character is in none of them.
pub proof fn law_splitting_loses_nothing(s: Seq<char>, c: char, i: int)
    ensures
        split_on(s, c).len() > 0,
        joined(split_on(s, c), seq![c]) == s,
        0 <= i < split_on(s, c).len() ==> !split_on(s, c)[i].contains(c),
    decreases s.len(),
{
    lemma_first_index(s, c);
    let k = first_index(s, c);
    if k < s.len() {
        let rest = s.skip(k + 1);
        let more = split_on(rest, c);
        law_splitting_loses_nothing(rest, c, i - 1);
        lemma_joined_front(s.take(k), more, seq![c]);
        assert(s =~= s.take(k) + seq![c] + rest);
        let front = s.take(k);
        if front.contains(c) {
            let j = choose|j: int| 0 <= j < front.len() && front[j] == c;
            assert(s[j] == c);
        }
        let all = seq![front] + more;
        assert(all[0] == front);
        if 0 < i < all.len() {
            assert(all[i] == more[i - 1]);
        }
    } else {
        assert(seq![s].len() == 1 && seq![s][0] == s);
        if s.contains(c) {
            let j = choose|j: int| 0 <= j < s.len() && s[j] == c;
        }
    }
}

proof fn lemma_joined_front(first: Seq<char>, rest: Seq<Seq<char>>, sep: Seq<char>)
    requires
        rest.len() > 0,
    ensures
        joined(seq![first] + rest, sep) == first + sep + joined(rest, sep),
    decreases rest.len(),
{
    let all = seq![first] + rest;
    assert(all.last() == rest.last());
    assert(all.drop_last() =~= seq![first] + rest.drop_last());
    if rest.len() == 1 {
        assert(all.drop_last() =~= seq![first]);
        assert(joined(all.drop_last(), sep) == first);
        assert(joined(all, sep) =~= first + sep + rest[0]);
    } else {
        lemma_joined_front(first, rest.drop_last(), sep);
        assert(joined(all, sep) =~= first + sep + joined(rest, sep));
    }
}

/// What is joined stands in order, with the separator between two and nowhere
/// else.
pub proof fn law_what_is_joined(parts: Seq<Seq<char>>, part: Seq<char>, sep: Seq<char>)
    ensures
        joined(Seq::empty(), sep).len() == 0,
        joined(seq![part], sep) == part,
        parts.len() > 0 ==> joined(parts.push(part), sep) == joined(parts, sep) + sep + part,
{
    assert(parts.push(part).drop_last() =~= parts);
}

proof fn lemma_word_len_append(a: Seq<char>, sp: char, b: Seq<char>)
    requires
        is_space(sp),
    ensures
        word_len(a.push(sp) + b) == word_len(a),
        word_len(a) <= a.len(),
    decreases a.len(),
{
    let whole = a.push(sp) + b;
    if a.len() == 0 {
        assert(whole[0] == sp);
    } else {
        lemma_word_len_append(a.skip(1), sp, b);
        assert(whole.skip(1) =~= a.skip(1).push(sp) + b);
        assert(whole[0] == a[0]);
    }
}

/// Words are what stands between blanks: a blank anywhere parts the words before
/// it from those after it, and a text without one is a word.
pub proof fn law_words_stand_between_blanks(a: Seq<char>, sp: char, b: Seq<char>)
    requires
        is_space(sp),
    ensures
        words(a.push(sp) + b) == words(a) + words(b),
        words(Seq::empty()).len() == 0,
        a.len() > 0 && (forall|i: int| 0 <= i < a.len() ==> !is_space(#[trigger] a[i])) ==> words(a)
            == seq![a],
    decreases a.len(),
{
    let whole = a.push(sp) + b;
    if a.len() == 0 {
        assert(whole[0] == sp);
        assert(whole.skip(1) =~= b);
        assert(words(a) + words(b) =~= words(b));
    } else if is_space(a[0]) {
        assert(whole[0] == a[0]);
        law_words_stand_between_blanks(a.skip(1), sp, b);
        assert(whole.skip(1) =~= a.skip(1).push(sp) + b);
    } else {
        lemma_word_len(a);
        lemma_word_len_append(a, sp, b);
        let n = word_len(a) as int;
        let rest = a.skip(n);
        assert(n > 0);
        assert(whole.take(n) =~= a.take(n));
        assert(whole.skip(n) =~= rest.push(sp) + b);
        law_words_stand_between_blanks(rest, sp, b);
        assert(words(whole) =~= words(a) + words(b));
        if forall|i: int| 0 <= i < a.len() ==> !is_space(#[trigger] a[i]) {
            lemma_word_len_is(a, a.len() as int);
            assert(a.take(a.len() as int) =~= a);
            assert(a.skip(a.len() as int).len() == 0);
            assert(words(a) =~= seq![a]);
        }
    }
}

proof fn lemma_trim_start_ends(s: Seq<char>)
    ensures
        trim_start(s).len() <= s.len(),
        trim_start(s) == s.skip(s.len() - trim_start(s).len()),
        trim_start(s).len() > 0 ==> !is_space(trim_start(s)[0]),
    decreases s.len(),
{
    if s.len() > 0 && is_space(s[0]) {
        lemma_trim_start_ends(s.skip(1));
        let t = trim_start(s);
        assert(s.skip(1).skip(s.len() - 1 - t.len()) =~= s.skip(s.len() - t.len()));
    } else {
        assert(s.skip(0) =~= s);
    }
}

proof fn lemma_trim_end_ends(s: Seq<char>)
    ensures
        trim_end(s).len() <= s.len(),
        trim_end(s) == s.take(trim_end(s).len() as int),
        trim_end(s).len() > 0 ==> !is_space(trim_end(s).last()),
    decreases s.len(),
{
    if s.len() > 0 && is_space(s.last()) {
        lemma_trim_end_ends(s.drop_last());
        let t = trim_end(s);
        assert(s.drop_last().take(t.len() as int) =~= s.take(t.len() as int));
    } else {
        assert(s.take(s.len() as int) =~= s);
    }
}

/// A trimmed text neither begins nor ends with a blank and is a piece of the
/// text, a blank at the front does not change it, and one that has no blank at
/// its ends is left as it is.
pub proof fn law_what_is_trimmed(s: Seq<char>, sp: char)
    requires
        is_space(sp),
    ensures
        trimmed(s).len() > 0 ==> !is_space(trimmed(s)[0]) && !is_space(trimmed(s).last()),
        has(s, trimmed(s)),
        trimmed(seq![sp] + s) == trimmed(s),
        s.len() > 0 && !is_space(s[0]) && !is_space(s.last()) ==> trimmed(s) == s,
        s.len() == 0 ==> trimmed(s).len() == 0,
{
    let t = trim_start(s);
    lemma_trim_start_ends(s);
    lemma_trim_end_ends(t);
    let r = trimmed(s);
    let i = s.len() - t.len();
    assert(r == t.take(r.len() as int));
    assert(s.subrange(i, i + r.len()) =~= r);
    assert(occurs_at(s, r, i));
    assert((seq![sp] + s).skip(1) =~= s);
    assert((seq![sp] + s)[0] == sp);
    if r.len() > 0 {
        assert(r[0] == t[0]);
    }
}

/// Numbers are read as they are written: digits, with one `+` before them at
/// most, and nothing else.
pub proof fn law_what_a_number_looks_like(s: Seq<char>)
    ensures
        parsed(s) is Some ==> s.len() > 0 && (s[0] == '+' || '0' <= s[0] <= '9') && forall|i: int|
            1 <= i < s.len() ==> '0' <= #[trigger] s[i] <= '9',
        s.len() > 0 && (forall|i: int| 0 <= i < s.len() ==> '0' <= #[trigger] s[i] <= '9')
            ==> parsed(s) == Some(value(s)) && parsed(seq!['+'] + s) == Some(value(s)),
        s.len() == 0 ==> parsed(s) is None,
        forall|t: Seq<char>, d: char|
            value(#[trigger] t.push(d)) == value(t) * 10 + (d as int - '0' as int) || !('0' <= d
                <= '9'),
{
    if parsed(s) is Some && s[0] == '+' {
        let t = s.skip(1);
        assert forall|i: int| 1 <= i < s.len() implies '0' <= #[trigger] s[i] <= '9' by {
            assert(is_digit(t[i - 1]));
        }
    } else if parsed(s) is Some {
        assert forall|i: int| 0 <= i < s.len() implies '0' <= #[trigger] s[i] <= '9' by {
            assert(is_digit(s[i]));
        }
    }
    assert((seq!['+'] + s).skip(1) =~= s);
    if s.len() > 0 && (forall|i: int| 0 <= i < s.len() ==> '0' <= #[trigger] s[i] <= '9') {
        assert(all_digits(s));
        assert('0' <= s[0] <= '9');
    }
    assert forall|t: Seq<char>, d: char| '0' <= d <= '9' implies value(#[trigger] t.push(d))
        == value(t) * 10 + (d as int - '0' as int) by {
        assert(t.push(d).drop_last() =~= t);
    }
}

/// A bound is a bound: a number is read within it exactly where it is no larger.
pub proof fn law_a_bound_is_kept(s: Seq<char>, max: nat)
    ensures
        parsed_within(s, max) matches Some(n) ==> n <= max && parsed(s) == Some(n),
        parsed(s) matches Some(n) ==> n <= max ==> parsed_within(s, max) == Some(n),
        parsed(s) matches Some(n) ==> n > max ==> parsed_within(s, max) is None,
        parsed(s) is None ==> parsed_within(s, max) is None,
{
}

/// Rounding takes the nearest whole number, and the even one of two as near.
pub proof fn law_rounding_takes_the_nearest(n: nat, unit: nat)
    requires
        unit > 0,
    ensures
        ({
            let r = round_half_even(n, unit);
            &&& 2 * n <= 2 * (r * unit) + unit
            &&& 2 * (r * unit) <= 2 * n + unit
            &&& 2 * n == 2 * (r * unit) + unit || 2 * (r * unit) == 2 * n + unit ==> r % 2 == 0
        }),
{
    let w = n / unit;
    let rest = n % unit;
    assert(n == w * unit + rest && 0 <= rest < unit) by (nonlinear_arith)
        requires
            unit > 0,
            w == n / unit,
            rest == n % unit,
    ;
    assert((w + 1) * unit == w * unit + unit) by (nonlinear_arith);
}

/// A decimal stands as its digits with the point before the last one, or the
/// last two.
pub proof fn law_where_the_point_stands(n: nat)
    ensures
        ({
            let s = one_decimal(n);
            &&& s.len() >= 3
            &&& s[s.len() - 2] == '.'
            &&& value(s.take(s.len() - 2).push(s.last())) == n
        }),
        ({
            let s = two_decimals(n);
            &&& s.len() >= 4
            &&& s[s.len() - 3] == '.'
            &&& value(s.take(s.len() - 3).push(s[s.len() - 2]).push(s.last())) == n
        }),
{
    law_decimal_reads_back(n / 10);
    law_decimal_reads_back(n / 100);
    let s = one_decimal(n);
    let a = dec(n / 10);
    assert(s.take(s.len() - 2) =~= a);
    assert(a.push(s.last()).drop_last() =~= a);
    assert(digit_value(digit(n % 10)) == n % 10);
    let t = two_decimals(n);
    let b = dec(n / 100);
    assert(t.take(t.len() - 3) =~= b);
    let c = b.push(t[t.len() - 2]);
    assert(c.drop_last() =~= b);
    assert(c.push(t.last()).drop_last() =~= c);
    assert(digit_value(digit(n / 10 % 10)) == n / 10 % 10);
    assert(value(c) == n / 100 * 10 + n / 10 % 10);
    assert(value(c.push(t.last())) == value(c) * 10 + n % 10);
    assert(n == n / 100 * 100 + n / 10 % 10 * 10 + n % 10);
}

proof fn lemma_fitting(s: Seq<char>, max: nat) -> (i: int)
    ensures
        fitting(s, max) matches Some(t) ==> 0 <= i <= s.len() && t == s.skip(i) && byte_len(t)
            <= max && forall|j: int| 0 <= j < i ==> byte_len(#[trigger] s.skip(j)) > max,
    decreases s.len(),
{
    if s.len() == 0 {
        0
    } else if byte_len(s) <= max {
        assert(s.skip(0) =~= s);
        0
    } else {
        let k = lemma_fitting(s.skip(1), max);
        if let Some(t) = fitting(s, max) {
            assert(s.skip(1).skip(k) =~= s.skip(k + 1));
            assert forall|j: int| 0 <= j < k + 1 implies byte_len(#[trigger] s.skip(j)) > max by {
                if j == 0 {
                    assert(s.skip(0) =~= s);
                } else {
                    assert(s.skip(1).skip(j - 1) =~= s.skip(j));
                }
            }
        }
        k + 1
    }
}

/// The tail of a text is its end: as much of it as fits in so many bytes, and no
/// less. A text that fits is kept whole.
pub proof fn law_a_tail_is_the_end(s: Seq<char>, max: nat) -> (i: int)
    ensures
        byte_len(s) <= max ==> tail_of(s, max) == s,
        fitting(s, max) is Some ==> {
            &&& 0 <= i <= s.len()
            &&& tail_of(s, max) == s.skip(i)
            &&& byte_len(tail_of(s, max)) <= max
            &&& forall|j: int| 0 <= j < i ==> byte_len(#[trigger] s.skip(j)) > max
        },
{
    lemma_fitting(s, max)
}

/// Lengths in bytes add up, and a plain character has one.
pub proof fn law_bytes_add_up(a: Seq<char>, b: Seq<char>)
    ensures
        byte_len(a + b) == byte_len(a) + byte_len(b),
        a.len() == 1 && (a[0] as u32) < 0x80 ==> byte_len(a) == 1,
        byte_len(a) >= a.len(),
    decreases a.len(),
{
    if a.len() == 0 {
        assert(a + b =~= b);
    } else {
        law_bytes_add_up(a.skip(1), b);
        assert((a + b).skip(1) =~= a.skip(1) + b);
        assert((a + b)[0] == a[0]);
        if a.len() == 1 {
            assert(byte_len(a.skip(1)) == 0);
        }
    }
}

/// A padded text is the text and as many blanks as are missing.
pub proof fn law_what_padding_adds(s: Seq<char>, w: nat, i: int)
    ensures
        s.is_prefix_of(padded(s, w)),
        s.len() >= w ==> padded(s, w) == s,
        s.len() < w ==> padded(s, w).len() == w,
        s.len() <= i < padded(s, w).len() ==> padded(s, w)[i] == ' ',
{
}

/// Texts are ordered as words in a dictionary: by the first character that
/// differs, and a beginning before what it begins.
pub proof fn law_the_order_of_texts(p: Seq<char>, a: char, x: Seq<char>, b: char, y: Seq<char>)
    ensures
        a != b ==> (before(p.push(a) + x, p.push(b) + y) <==> a < b),
        before(p, p.push(a) + x),
        !before(p.push(a) + x, p),
        !before(p, p),
    decreases p.len(),
{
    let u = p.push(a) + x;
    let v = p.push(b) + y;
    if p.len() == 0 {
        assert(u[0] == a && v[0] == b);
    } else {
        law_the_order_of_texts(p.skip(1), a, x, b, y);
        assert(u.skip(1) =~= p.skip(1).push(a) + x);
        assert(v.skip(1) =~= p.skip(1).push(b) + y);
        assert(u[0] == p[0] && v[0] == p[0]);
    }
}

/// Lowering changes the capital letters of the alphabet alone, each to its small
/// one.
pub proof fn law_what_lowering_changes(s: Seq<char>, i: int)
    requires
        0 <= i < s.len(),
    ensures
        ascii_lower(s).len() == s.len(),
        'A' <= s[i] <= 'Z' ==> ascii_lower(s)[i] as u32 == s[i] as u32 + 32,
        !('A' <= s[i] <= 'Z') ==> ascii_lower(s)[i] == s[i],
        !('A' <= ascii_lower(s)[i] <= 'Z'),
{
}

/// Blanks are what the Unicode standard calls white space; no letter, digit or
/// sign of the first plane's ASCII block is one but the five controls and the
/// space.
pub proof fn law_what_is_blank(c: char)
    ensures
        c == ' ' || c == '\t' || c == '\n' || c == '\r' ==> is_space(c),
        '!' <= c <= '~' ==> !is_space(c),
{
}

/// Lines are parted at line feeds, and a carriage return before one goes with
/// it.
pub proof fn law_where_lines_end(a: Seq<char>, b: Seq<char>)
    requires
        !a.contains('\n'),
    ensures
        lines(a.push('\n') + b) == seq![
            if a.len() > 0 && a.last() == '\r' {
                a.drop_last()
            } else {
                a
            },
        ] + lines(b),
        a.len() > 0 ==> lines(a) == seq![a],
        lines(Seq::empty()).len() == 0,
{
    let whole = a.push('\n') + b;
    let n = a.len() as int;
    assert(forall|i: int| 0 <= i < n ==> whole[i] == a[i]);
    assert(whole[n] == '\n');
    assert forall|i: int| 0 <= i < n implies a[i] != '\n' by {
        assert(a.contains(a[i]));
    }
    lemma_first_index_is(whole, '\n', n);
    assert(whole.take(n) =~= a);
    assert(whole.skip(n + 1) =~= b);
    lemma_first_index(a, '\n');
}

/// Splitting takes the parts one by one: what stands before the first such
/// character, and then the parts of the rest.
pub proof fn law_how_splitting_goes_on(x: Seq<char>, c: char, y: Seq<char>)
    requires
        !x.contains(c),
    ensures
        split_on(x, c) == seq![x],
        split_on(x.push(c) + y, c) == seq![x] + split_on(y, c),
{
    let whole = x.push(c) + y;
    let n = x.len() as int;
    assert forall|i: int| 0 <= i < n implies x[i] != c by {
        assert(x.contains(x[i]));
    }
    assert forall|i: int| 0 <= i < n implies whole[i] != c by {
        assert(whole[i] == x[i]);
    }
    assert(whole[n] == c);
    lemma_first_index_is(whole, c, n);
    lemma_first_index_is(x, c, n);
    assert(whole.take(n) =~= x);
    assert(whole.skip(n + 1) =~= y);
}

} // verus!
