//! Character-level helpers on strings, each stated over `Seq<char>`.

use vstd::arithmetic::power::pow;
use vstd::prelude::*;

verus! {

/// `String::push` of the standard library appends one character.
pub assume_specification[ String::push ](s: &mut String, c: char)
    ensures
        final(s)@ == old(s)@.push(c),
;

/// Whether two string slices hold the same characters.
pub fn str_eq(a: &str, b: &str) -> (r: bool)
    ensures
        r == (a@ == b@),
{
    a.to_owned() == b.to_owned()
}

/// The characters of `s`, in order.
pub fn chars_of(s: &str) -> (v: Vec<char>)
    ensures
        v@ == s@,
{
    let mut out: Vec<char> = Vec::new();
    for c in it: s.chars()
        invariant
            out@ == it.seq().take(it.index() as int),
            it.seq() == s@,
    {
        out.push(c);
        assert(it.seq().take(it.index() as int + 1) =~= it.seq().take(it.index() as int).push(c));
    }
    assert(s@.take(s@.len() as int) =~= s@);
    out
}

/// The string made of the characters of `v`.
pub fn string_of(v: &[char]) -> (s: String)
    ensures
        s@ == v@,
{
    let mut out = String::new();
    for i in 0..v.len()
        invariant
            out@ == v@.take(i as int),
    {
        out.push(v[i]);
        assert(v@.take(i as int + 1) =~= v@.take(i as int).push(v@[i as int]));
    }
    assert(v@.take(v@.len() as int) =~= v@);
    out
}

/// The view of an optional string.
pub open spec fn opt_text(s: Option<String>) -> Option<Seq<char>> {
    match s {
        Some(t) => Some(t@),
        None => None,
    }
}

// Whitespace

/// The characters with the Unicode property `White_Space`.
pub open spec fn is_white(c: char) -> bool {
    ||| '\u{9}' <= c <= '\u{d}'
    ||| c == ' '
    ||| c == '\u{85}'
    ||| c == '\u{a0}'
    ||| c == '\u{1680}'
    ||| '\u{2000}' <= c <= '\u{200a}'
    ||| c == '\u{2028}'
    ||| c == '\u{2029}'
    ||| c == '\u{202f}'
    ||| c == '\u{205f}'
    ||| c == '\u{3000}'
}

/// Whether a character is whitespace.
pub fn is_whitespace(c: char) -> (r: bool)
    ensures
        r == is_white(c),
{
    ('\u{9}' <= c && c <= '\u{d}') || c == ' ' || c == '\u{85}' || c == '\u{a0}' || c == '\u{1680}'
        || ('\u{2000}' <= c && c <= '\u{200a}') || c == '\u{2028}' || c == '\u{2029}' || c
        == '\u{202f}' || c == '\u{205f}' || c == '\u{3000}'
}

/// `s` without the whitespace that it begins with.
pub open spec fn trimmed_start(s: Seq<char>) -> Seq<char>
    decreases s.len(),
{
    if s.len() > 0 && is_white(s[0]) {
        trimmed_start(s.skip(1))
    } else {
        s
    }
}

/// `s` without the whitespace that it ends with.
pub open spec fn trimmed_end(s: Seq<char>) -> Seq<char>
    decreases s.len(),
{
    if s.len() > 0 && is_white(s.last()) {
        trimmed_end(s.drop_last())
    } else {
        s
    }
}

/// `s` without the whitespace at its ends.
pub open spec fn trimmed(s: Seq<char>) -> Seq<char> {
    trimmed_end(trimmed_start(s))
}

/// The characters of `s` without the whitespace at its ends.
pub fn trim_chars(s: &str) -> (v: Vec<char>)
    ensures
        v@ == trimmed(s@),
{
    let chars = chars_of(s);
    let n: usize = chars.len();
    let mut from: usize = 0;
    assert(s@.skip(0) =~= s@);
    while from < n && is_whitespace(chars[from])
        invariant
            from <= n,
            n == chars@.len(),
            chars@ == s@,
            trimmed_start(s@.skip(from as int)) == trimmed_start(s@),
        decreases n - from,
    {
        assert(s@.skip(from as int).skip(1) =~= s@.skip(from as int + 1));
        from = from + 1;
    }
    let ghost rest = trimmed_start(s@);
    assert(rest == s@.skip(from as int));
    let mut to: usize = n;
    assert(s@.subrange(from as int, n as int) =~= rest);
    while from < to && is_whitespace(chars[to - 1])
        invariant
            from <= to <= n,
            n == chars@.len(),
            chars@ == s@,
            trimmed_end(s@.subrange(from as int, to as int)) == trimmed_end(rest),
        decreases to - from,
    {
        assert(s@.subrange(from as int, to as int).drop_last() =~= s@.subrange(
            from as int,
            to as int - 1,
        ));
        to = to - 1;
    }
    let mut out: Vec<char> = Vec::new();
    for i in from..to
        invariant
            from <= i <= to <= n,
            n == chars@.len(),
            chars@ == s@,
            out@ =~= s@.subrange(from as int, i as int),
    {
        out.push(chars[i]);
    }
    out
}

/// `s` without the whitespace at its ends.
pub fn trim(s: &str) -> (t: String)
    ensures
        t@ == trimmed(s@),
{
    let v = trim_chars(s);
    string_of(v.as_slice())
}

// Numbers

/// The value of a digit in a radix of at most 16.
pub open spec fn digit_value(c: char, radix: nat) -> Option<nat> {
    let v: nat = if '0' <= c <= '9' {
        (c as int - '0' as int) as nat
    } else if 'a' <= c <= 'f' {
        (c as int - 'a' as int + 10) as nat
    } else if 'A' <= c <= 'F' {
        (c as int - 'A' as int + 10) as nat
    } else {
        99
    };
    if v < radix { Some(v) } else { None }
}

/// Whether `s` is one or more digits.
pub open spec fn all_digits(s: Seq<char>, radix: nat) -> bool {
    &&& s.len() > 0
    &&& forall|i: int| 0 <= i < s.len() ==> digit_value(#[trigger] s[i], radix) is Some
}

/// The number that the digits of `s` denote.
pub open spec fn digits_value(s: Seq<char>, radix: nat) -> nat
    decreases s.len(),
{
    if s.len() == 0 {
        0
    } else {
        digits_value(s.drop_last(), radix) * radix + digit_value(s.last(), radix)->0
    }
}

/// `s` without one leading `+`.
pub open spec fn without_plus(s: Seq<char>) -> Seq<char> {
    if s.len() > 0 && s[0] == '+' { s.skip(1) } else { s }
}

/// The unsigned number that `s` denotes, with an optional leading `+`, where
/// it is at most `max`.
pub open spec fn unsigned_value(s: Seq<char>, radix: nat, max: nat) -> Option<nat> {
    let d = without_plus(s);
    if all_digits(d, radix) && digits_value(d, radix) <= max {
        Some(digits_value(d, radix))
    } else {
        None
    }
}

/// The view of an optional machine integer.
pub open spec fn opt_nat(n: Option<u64>) -> Option<nat> {
    match n {
        Some(v) => Some(v as nat),
        None => None,
    }
}

proof fn lemma_prefix_value(s: Seq<char>, radix: nat, i: int)
    requires
        radix >= 1,
        0 <= i <= s.len(),
        forall|k: int| 0 <= k < s.len() ==> digit_value(#[trigger] s[k], radix) is Some,
    ensures
        digits_value(s.take(i), radix) <= digits_value(s, radix),
    decreases s.len() - i,
{
    if i == s.len() {
        assert(s.take(i) =~= s);
    } else {
        let p = s.take(i);
        let q = s.take(i + 1);
        assert(q.drop_last() =~= p);
        assert(digits_value(q, radix) == digits_value(p, radix) * radix + digit_value(
            s[i],
            radix,
        )->0);
        let v = digits_value(p, radix);
        assert(v <= v * radix) by (nonlinear_arith)
            requires
                radix >= 1,
        ;
        lemma_prefix_value(s, radix, i + 1);
    }
}

fn digit(c: char, radix: u64) -> (d: Option<u64>)
    requires
        radix <= 16,
    ensures
        opt_nat(d) == digit_value(c, radix as nat),
{
    let v: u64 = if '0' <= c && c <= '9' {
        c as u64 - '0' as u64
    } else if 'a' <= c && c <= 'f' {
        c as u64 - 'a' as u64 + 10
    } else if 'A' <= c && c <= 'F' {
        c as u64 - 'A' as u64 + 10
    } else {
        99
    };
    if v < radix {
        Some(v)
    } else {
        None
    }
}

/// Reads an unsigned number: digits of the radix, after an optional `+`,
/// denoting at most `max`.
pub fn parse_unsigned(s: &[char], radix: u64, max: u64) -> (n: Option<u64>)
    requires
        2 <= radix <= 16,
    ensures
        opt_nat(n) == unsigned_value(s@, radix as nat, max as nat),
{
    let len: usize = s.len();
    let from: usize = if len > 0 && s[0] == '+' { 1 } else { 0 };
    let ghost d = without_plus(s@);
    assert(d =~= s@.skip(from as int));
    if from == len {
        return None;
    }
    let mut v: u64 = 0;
    for i in from..len
        invariant
            from <= i <= len,
            from <= 1,
            2 <= radix <= 16,
            len == s@.len(),
            d == without_plus(s@),
            d == s@.skip(from as int),
            d.len() == len - from,
            forall|k: int| 0 <= k < i - from ==> digit_value(#[trigger] d[k], radix as nat) is Some,
            v == digits_value(d.take(i - from), radix as nat),
            v <= max,
    {
        let ghost k = i - from;
        assert(d[k] == s@[i as int]);
        assert(d.take(k + 1).drop_last() =~= d.take(k));
        assert(d.take(k + 1).last() == d[k]);
        let dv: u64 = match digit(s[i], radix) {
            Some(dv) => dv,
            None => {
                return None;
            },
        };
        let next: Option<u64> = match v.checked_mul(radix) {
            Some(m) => m.checked_add(dv),
            None => None,
        };
        let ghost whole = digits_value(d.take(k + 1), radix as nat);
        proof {
            if all_digits(d, radix as nat) {
                lemma_prefix_value(d, radix as nat, k + 1);
            }
            assert(whole == v as nat * radix as nat + dv as nat);
            assert(v as nat * radix as nat == v as int * radix as int);
        }
        match next {
            Some(w) => {
                if w > max {
                    return None;
                }
                v = w;
            },
            None => {
                return None;
            },
        }
    }
    assert(d.take(len - from) =~= d);
    Some(v)
}

/// The text of a number in decimal.
pub open spec fn decimal(n: nat) -> Seq<char>
    decreases n,
{
    if n < 10 {
        seq![digit_char(n)]
    } else {
        decimal(n / 10).push(digit_char(n % 10))
    }
}

/// The text of a number in lower-case hexadecimal.
pub open spec fn hexadecimal(n: nat) -> Seq<char>
    decreases n,
{
    if n < 16 {
        seq![digit_char(n)]
    } else {
        hexadecimal(n / 16).push(digit_char(n % 16))
    }
}

/// The digit of a value below 16.
pub open spec fn digit_char(n: nat) -> char {
    if n < 10 {
        (('0' as int) + n) as char
    } else {
        (('a' as int) + n - 10) as char
    }
}

fn digit_of(n: u64) -> (c: char)
    requires
        n < 16,
    ensures
        c == digit_char(n as nat),
{
    let b: u8 = if n < 10 { 0x30 + n as u8 } else { 0x57 + n as u8 };
    b as char
}

/// Appends a number in decimal.
pub fn append_decimal(s: &mut String, n: u64)
    ensures
        final(s)@ == old(s)@ + decimal(n as nat),
    decreases n,
{
    if n < 10 {
        s.push(digit_of(n));
        assert(s@ =~= old(s)@ + decimal(n as nat));
    } else {
        append_decimal(s, n / 10);
        s.push(digit_of(n % 10));
        assert(s@ =~= old(s)@ + decimal(n as nat));
    }
}

/// Appends a number in lower-case hexadecimal.
pub fn append_hex(s: &mut String, n: u64)
    ensures
        final(s)@ == old(s)@ + hexadecimal(n as nat),
    decreases n,
{
    if n < 16 {
        s.push(digit_of(n));
        assert(s@ =~= old(s)@ + hexadecimal(n as nat));
    } else {
        append_hex(s, n / 16);
        s.push(digit_of(n % 16));
        assert(s@ =~= old(s)@ + hexadecimal(n as nat));
    }
}

/// The text of a number in decimal.
pub fn decimal_text(n: u64) -> (s: String)
    ensures
        s@ == decimal(n as nat),
{
    let mut s = String::new();
    append_decimal(&mut s, n);
    assert(s@ =~= decimal(n as nat));
    s
}

/// A number's own decimal text reads back as that number.
pub proof fn law_decimal_reads_back(n: nat)
    ensures
        all_digits(decimal(n), 10),
        digits_value(decimal(n), 10) == n,
    decreases n,
{
    if n < 10 {
        let s = seq![digit_char(n)];
        assert(s.drop_last() =~= Seq::<char>::empty());
        assert(digits_value(Seq::<char>::empty(), 10) == 0);
        assert(digit_value(s.last(), 10) == Some(n));
        assert(digits_value(s, 10) == 0 * 10 + n);
    } else {
        law_decimal_reads_back(n / 10);
        let s = decimal(n);
        assert(s.drop_last() =~= decimal(n / 10));
        assert(digit_value(s.last(), 10) == Some(n % 10));
        assert forall|i: int| 0 <= i < s.len() implies digit_value(
            #[trigger] s[i],
            10,
        ) is Some by {
            if i < s.len() - 1 {
                assert(s[i] == decimal(n / 10)[i]);
            }
        }
    }
}

/// Digits behind others shift those by as many places.
pub proof fn lemma_digits_join(a: Seq<char>, b: Seq<char>)
    ensures
        digits_value(a + b, 10) == digits_value(a, 10) * pow(10, b.len()) + digits_value(b, 10),
    decreases b.len(),
{
    if b.len() == 0 {
        assert(a + b =~= a);
        vstd::arithmetic::power::lemma_pow0(10);
    } else {
        let short = b.drop_last();
        lemma_digits_join(a, short);
        assert((a + b).drop_last() =~= a + short);
        assert((a + b).last() == b.last());
        vstd::arithmetic::power::lemma_pow_adds(10, short.len(), 1);
        vstd::arithmetic::power::lemma_pow1(10);
        let d = digits_value(a, 10);
        let p = pow(10, short.len());
        assert((d * p) * 10 == d * (p * 10)) by (nonlinear_arith);
    }
}

/// Whether `s` is digits, a point and digits, behind a minus where `n` is
/// negative.
pub open spec fn is_fraction(s: Seq<char>, n: int, whole: Seq<char>, part: Seq<char>) -> bool {
    &&& all_digits(whole, 10)
    &&& all_digits(part, 10)
    &&& s == (if n < 0 { seq!['-'] } else { Seq::<char>::empty() }) + whole + seq!['.'] + part
}

/// Whether `s` is a decimal fraction of the value `n / unit`: the number that
/// its digits make without the point, taken back by the places behind it.
pub open spec fn denotes(s: Seq<char>, n: int, unit: nat) -> bool {
    exists|whole: Seq<char>, part: Seq<char>| #[trigger]
        is_fraction(s, n, whole, part) && digits_value(whole + part, 10) * unit == (if n < 0 {
            -n
        } else {
            n
        }) * pow(10, part.len())
}

// Decimal fractions

/// Whether `c` is a decimal digit.
pub open spec fn is_digit(c: char) -> bool {
    '0' <= c <= '9'
}

/// The position after the run of decimal digits that starts at `i`.
pub open spec fn digits_end(s: Seq<char>, i: int) -> int
    decreases s.len() - i,
{
    if 0 <= i < s.len() && is_digit(s[i]) {
        digits_end(s, i + 1)
    } else {
        i
    }
}

/// `i`, or the position after it where a sign stands at `i`.
pub open spec fn after_sign(s: Seq<char>, i: int) -> int {
    if 0 <= i < s.len() && (s[i] == '+' || s[i] == '-') { i + 1 } else { i }
}

/// Whether `s` from `i` on is nothing, or an exponent: `e` or `E`, an optional
/// sign, digits.
pub open spec fn is_exponent(s: Seq<char>, i: int) -> bool {
    ||| i == s.len()
    ||| {
        let d = after_sign(s, i + 1);
        &&& i < s.len()
        &&& (s[i] == 'e' || s[i] == 'E')
        &&& digits_end(s, d) > d
        &&& digits_end(s, d) == s.len()
    }
}

/// Whether `s` from `i` on is a decimal number: digits, with an optional
/// point before, in or behind them, and an optional exponent.
pub open spec fn is_decimal_from(s: Seq<char>, i: int) -> bool {
    let a = digits_end(s, i);
    if a < s.len() && s[a] == '.' {
        let b = digits_end(s, a + 1);
        (a > i || b > a + 1) && is_exponent(s, b)
    } else {
        a > i && is_exponent(s, a)
    }
}

/// `c` in lower case, where it is an ASCII letter.
pub open spec fn ascii_lower(c: char) -> char {
    if 'A' <= c <= 'Z' { (c as int + 32) as char } else { c }
}

/// Whether `s` from `i` on spells `word`, in either case.
pub open spec fn spells(s: Seq<char>, i: int, word: Seq<char>) -> bool {
    &&& s.len() - i == word.len()
    &&& forall|k: int| 0 <= k < word.len() ==> ascii_lower(#[trigger] s[i + k]) == word[k]
}

/// Whether `s` is a floating-point literal: an optional sign before a decimal
/// number, `inf`, `infinity` or `nan`.
pub open spec fn is_float(s: Seq<char>) -> bool {
    let i = after_sign(s, 0);
    ||| is_decimal_from(s, i)
    ||| spells(s, i, "inf"@)
    ||| spells(s, i, "infinity"@)
    ||| spells(s, i, "nan"@)
}

/// The position after the run of decimal digits that starts at `from`.
pub fn scan_digits(s: &[char], from: usize) -> (end: usize)
    requires
        from <= s@.len(),
    ensures
        end as int == digits_end(s@, from as int),
        from <= end <= s@.len(),
{
    let mut i: usize = from;
    while i < s.len() && '0' <= s[i] && s[i] <= '9'
        invariant
            from <= i <= s@.len(),
            digits_end(s@, from as int) == digits_end(s@, i as int),
        decreases s@.len() - i,
    {
        i = i + 1;
    }
    i
}

fn scan_sign(s: &[char], from: usize) -> (end: usize)
    requires
        from <= s@.len(),
    ensures
        end as int == after_sign(s@, from as int),
        from <= end <= s@.len(),
{
    if from < s.len() && (s[from] == '+' || s[from] == '-') {
        from + 1
    } else {
        from
    }
}

fn scan_exponent(s: &[char], from: usize) -> (r: bool)
    requires
        from <= s@.len(),
    ensures
        r == is_exponent(s@, from as int),
{
    if from == s.len() {
        return true;
    }
    if s[from] != 'e' && s[from] != 'E' {
        return false;
    }
    let d: usize = scan_sign(s, from + 1);
    let end: usize = scan_digits(s, d);
    end > d && end == s.len()
}

fn scan_decimal(s: &[char], from: usize) -> (r: bool)
    requires
        from <= s@.len(),
    ensures
        r == is_decimal_from(s@, from as int),
{
    let a: usize = scan_digits(s, from);
    if a < s.len() && s[a] == '.' {
        let b: usize = scan_digits(s, a + 1);
        (a > from || b > a + 1) && scan_exponent(s, b)
    } else {
        a > from && scan_exponent(s, a)
    }
}

/// `c` in lower case, where it is an ASCII letter.
pub fn to_ascii_lower(c: char) -> (l: char)
    ensures
        l == ascii_lower(c),
{
    if 'A' <= c && c <= 'Z' {
        (c as u8 + 32) as char
    } else {
        c
    }
}

fn scan_word(s: &[char], from: usize, word: &str) -> (r: bool)
    requires
        from <= s@.len(),
    ensures
        r == spells(s@, from as int, word@),
{
    let w = chars_of(word);
    let n: usize = s.len();
    if n - from != w.len() {
        return false;
    }
    for k in 0..w.len()
        invariant
            from + w@.len() == s@.len(),
            n == s@.len(),
            w@ == word@,
            forall|j: int| 0 <= j < k ==> ascii_lower(#[trigger] s@[from + j]) == w@[j],
    {
        if to_ascii_lower(s[from + k]) != w[k] {
            assert(ascii_lower(s@[from + k]) != word@[k as int]);
            return false;
        }
    }
    true
}

/// Whether `s` is a floating-point literal.
pub fn is_float_literal(s: &[char]) -> (r: bool)
    ensures
        r == is_float(s@),
{
    let i: usize = scan_sign(s, 0);
    scan_decimal(s, i) || scan_word(s, i, "inf") || scan_word(s, i, "infinity") || scan_word(
        s,
        i,
        "nan",
    )
}

/// The signed number that `s` denotes in decimal, where it fits 64 bits.
pub open spec fn signed_value(s: Seq<char>) -> Option<int> {
    if s.len() > 0 && s[0] == '-' {
        let d = s.skip(1);
        if all_digits(d, 10) && digits_value(d, 10) <= 0x8000_0000_0000_0000 {
            Some(-(digits_value(d, 10) as int))
        } else {
            None
        }
    } else {
        match unsigned_value(s, 10, i64::MAX as nat) {
            Some(v) => Some(v as int),
            None => None,
        }
    }
}

/// The view of an optional signed machine integer.
pub open spec fn opt_int(n: Option<i64>) -> Option<int> {
    match n {
        Some(v) => Some(v as int),
        None => None,
    }
}

/// Reads a signed decimal number.
pub fn parse_signed(s: &[char]) -> (n: Option<i64>)
    ensures
        opt_int(n) == signed_value(s@),
{
    if s.len() > 0 && s[0] == '-' {
        let mut rest: Vec<char> = Vec::new();
        for i in 1..s.len()
            invariant
                rest@ =~= s@.subrange(1, i as int),
        {
            rest.push(s[i]);
        }
        assert(rest@ =~= s@.skip(1));
        if rest.len() > 0 && rest[0] == '+' {
            assert(digit_value(s@.skip(1)[0], 10) is None);
            return None;
        }
        match parse_unsigned(rest.as_slice(), 10, 0x8000_0000_0000_0000) {
            Some(v) => if v == 0x8000_0000_0000_0000 {
                Some(i64::MIN)
            } else {
                Some(-(v as i64))
            },
            None => None,
        }
    } else {
        match parse_unsigned(s, 10, i64::MAX as u64) {
            Some(v) => Some(v as i64),
            None => None,
        }
    }
}

/// Every number that fits 64 bits is read from its own text.
pub proof fn law_signed_numbers_read_back(n: int)
    requires
        i64::MIN <= n <= i64::MAX,
    ensures
        n >= 0 ==> signed_value(decimal(n as nat)) == Some(n),
        n < 0 ==> signed_value(seq!['-'] + decimal((-n) as nat)) == Some(n),
        n >= 0 ==> unsigned_value(decimal(n as nat), 10, i64::MAX as nat) == Some(n as nat),
{
    let d = decimal(if n < 0 { (-n) as nat } else { n as nat });
    law_decimal_reads_back(if n < 0 { (-n) as nat } else { n as nat });
    assert(digit_value(d[0], 10) is Some);
    assert((seq!['-'] + d).skip(1) =~= d);
}

/// Whether every character is whitespace.
pub open spec fn all_white(s: Seq<char>) -> bool {
    forall|i: int| 0 <= i < s.len() ==> is_white(#[trigger] s[i])
}

proof fn lemma_white_end(s: Seq<char>, w: Seq<char>)
    requires
        all_white(w),
    ensures
        trimmed_end(s + w) == trimmed_end(s),
    decreases w.len(),
{
    if w.len() == 0 {
        assert(s + w =~= s);
    } else {
        let short = w.drop_last();
        assert(all_white(short)) by {
            assert forall|i: int| 0 <= i < short.len() implies is_white(#[trigger] short[i]) by {
                assert(short[i] == w[i]);
            }
        }
        assert(is_white(w[w.len() - 1]));
        assert((s + w).last() == w.last());
        assert((s + w).drop_last() =~= s + short);
        lemma_white_end(s, short);
    }
}

proof fn lemma_white_start(w: Seq<char>, s: Seq<char>)
    requires
        all_white(w),
    ensures
        trimmed_start(w + s) == trimmed_start(s),
    decreases w.len(),
{
    if w.len() == 0 {
        assert(w + s =~= s);
    } else {
        let short = w.skip(1);
        assert(all_white(short)) by {
            assert forall|i: int| 0 <= i < short.len() implies is_white(#[trigger] short[i]) by {
                assert(short[i] == w[i + 1]);
            }
        }
        assert(is_white(w[0]));
        assert((w + s)[0] == w[0]);
        assert((w + s).skip(1) =~= short + s);
        lemma_white_start(short, s);
    }
}

/// Trimming takes the whitespace around a text off and leaves the text: blanks,
/// tabs and line ends are whitespace, and the visible ASCII characters are not.
pub proof fn law_trimming_leaves_the_text(before: Seq<char>, s: Seq<char>, after: Seq<char>)
    requires
        all_white(before),
        all_white(after),
        s.len() > 0 ==> !is_white(s[0]) && !is_white(s.last()),
    ensures
        trimmed(before + s + after) == s,
        is_white(' ') && is_white('\t') && is_white('\n') && is_white('\r'),
        forall|c: char| '!' <= c <= '~' ==> !#[trigger] is_white(c),
{
    if s.len() == 0 {
        let w = before + after;
        assert(before + s + after =~= w + Seq::<char>::empty());
        assert(all_white(w)) by {
            assert forall|i: int| 0 <= i < w.len() implies is_white(#[trigger] w[i]) by {
                if i < before.len() {
                    assert(w[i] == before[i]);
                } else {
                    assert(w[i] == after[i - before.len()]);
                }
            }
        }
        lemma_white_start(w, Seq::empty());
        assert(s =~= Seq::<char>::empty());
    } else {
        assert(before + s + after =~= before + (s + after));
        lemma_white_start(before, s + after);
        assert((s + after)[0] == s[0]);
        lemma_white_end(s, after);
    }
}

// Splitting

/// The position of the first `c`, or the length where there is none.
pub open spec fn first_of(s: Seq<char>, c: char) -> int
    decreases s.len(),
{
    if s.len() == 0 || s[0] == c {
        0
    } else {
        1 + first_of(s.skip(1), c)
    }
}

/// The position of the last `c`, or -1 where there is none.
pub open spec fn last_of(s: Seq<char>, c: char) -> int
    decreases s.len(),
{
    if s.len() == 0 {
        -1
    } else if s.last() == c {
        s.len() - 1
    } else {
        last_of(s.drop_last(), c)
    }
}

/// The position of the first `a` with `b` behind it, or the length where there
/// is none.
pub open spec fn first_pair(s: Seq<char>, a: char, b: char) -> int
    decreases s.len(),
{
    if s.len() == 0 || (s.len() > 1 && s[0] == a && s[1] == b) {
        0
    } else {
        1 + first_pair(s.skip(1), a, b)
    }
}

/// The position of the first `c`.
pub fn find_first(s: &[char], c: char) -> (r: Option<usize>)
    ensures
        match r {
            Some(i) => i < s@.len() && i == first_of(s@, c),
            None => first_of(s@, c) == s@.len(),
        },
{
    let n: usize = s.len();
    assert(s@.skip(0) =~= s@);
    for i in 0..n
        invariant
            n == s@.len(),
            first_of(s@, c) == i + first_of(s@.skip(i as int), c),
    {
        if s[i] == c {
            return Some(i);
        }
        assert(s@.skip(i as int).skip(1) =~= s@.skip(i as int + 1));
    }
    None
}

/// The position of the last `c`.
pub fn find_last(s: &[char], c: char) -> (r: Option<usize>)
    ensures
        match r {
            Some(i) => i < s@.len() && i == last_of(s@, c),
            None => last_of(s@, c) == -1,
        },
{
    let mut i: usize = s.len();
    assert(s@.take(i as int) =~= s@);
    while i > 0
        invariant
            i <= s@.len(),
            last_of(s@, c) == last_of(s@.take(i as int), c),
        decreases i,
    {
        if s[i - 1] == c {
            return Some(i - 1);
        }
        assert(s@.take(i as int).drop_last() =~= s@.take(i as int - 1));
        i = i - 1;
    }
    None
}

/// The position of the first `a` with `b` behind it.
pub fn find_pair(s: &[char], a: char, b: char) -> (r: Option<usize>)
    ensures
        match r {
            Some(i) => i + 1 < s@.len() && i == first_pair(s@, a, b),
            None => first_pair(s@, a, b) == s@.len(),
        },
{
    let n: usize = s.len();
    assert(s@.skip(0) =~= s@);
    for i in 0..n
        invariant
            n == s@.len(),
            first_pair(s@, a, b) == i + first_pair(s@.skip(i as int), a, b),
    {
        if i + 1 < n && s[i] == a && s[i + 1] == b {
            assert(s@.skip(i as int)[1] == s@[i + 1]);
            return Some(i);
        }
        assert(s@.skip(i as int).skip(1) =~= s@.skip(i as int + 1));
    }
    None
}

/// The characters of `s` from one position up to another.
pub fn slice_of(s: &[char], from: usize, to: usize) -> (v: Vec<char>)
    requires
        from <= to <= s@.len(),
    ensures
        v@ == s@.subrange(from as int, to as int),
{
    let mut v: Vec<char> = Vec::new();
    for i in from..to
        invariant
            from <= i <= to <= s@.len(),
            v@ =~= s@.subrange(from as int, i as int),
    {
        v.push(s[i]);
    }
    v
}

/// A number's own hexadecimal text reads back as that number.
pub proof fn law_hexadecimal_reads_back(n: nat)
    ensures
        all_digits(hexadecimal(n), 16),
        digits_value(hexadecimal(n), 16) == n,
    decreases n,
{
    if n < 16 {
        let s = seq![digit_char(n)];
        assert(s.drop_last() =~= Seq::<char>::empty());
        assert(digits_value(Seq::<char>::empty(), 16) == 0);
        assert(digit_value(s.last(), 16) == Some(n));
    } else {
        law_hexadecimal_reads_back(n / 16);
        let s = hexadecimal(n);
        assert(s.drop_last() =~= hexadecimal(n / 16));
        assert(digit_value(s.last(), 16) == Some(n % 16));
        assert forall|i: int| 0 <= i < s.len() implies digit_value(
            #[trigger] s[i],
            16,
        ) is Some by {
            if i < s.len() - 1 {
                assert(s[i] == hexadecimal(n / 16)[i]);
            }
        }
    }
}

/// A character that does not stand in front of a place is first found there.
pub proof fn lemma_first_of_join(a: Seq<char>, c: char, b: Seq<char>)
    requires
        !a.contains(c),
    ensures
        first_of(a + seq![c] + b, c) == a.len(),
        first_of(a, c) == a.len(),
    decreases a.len(),
{
    let s = a + seq![c] + b;
    if a.len() > 0 {
        assert(s[0] == a[0]);
        assert(a.contains(a[0]));
        assert(s.skip(1) =~= a.skip(1) + seq![c] + b);
        assert(!a.skip(1).contains(c)) by {
            if a.skip(1).contains(c) {
                let i = choose|i: int| 0 <= i < a.skip(1).len() && a.skip(1)[i] == c;
                assert(a[i + 1] == c);
            }
        }
        lemma_first_of_join(a.skip(1), c, b);
    } else {
        assert(s[0] == c);
    }
}

/// A character that does not stand behind a place is last found there.
pub proof fn lemma_last_of_join(a: Seq<char>, c: char, b: Seq<char>)
    requires
        !b.contains(c),
    ensures
        last_of(a + seq![c] + b, c) == a.len(),
        last_of(b, c) == -1,
    decreases b.len(),
{
    let s = a + seq![c] + b;
    if b.len() > 0 {
        assert(s.last() == b.last());
        assert(b.contains(b.last()));
        assert(s.drop_last() =~= a + seq![c] + b.drop_last());
        assert(!b.drop_last().contains(c)) by {
            if b.drop_last().contains(c) {
                let i = choose|i: int| 0 <= i < b.drop_last().len() && b.drop_last()[i] == c;
                assert(b[i] == c);
            }
        }
        lemma_last_of_join(a, c, b.drop_last());
    } else {
        assert(s =~= a + seq![c]);
        assert(s.last() == c);
    }
}

/// A decimal text is digits alone, and so has no whitespace at its ends.
pub proof fn lemma_decimal_is_digits(n: nat)
    ensures
        decimal(n).len() > 0,
        forall|i: int| 0 <= i < decimal(n).len() ==> '0' <= #[trigger] decimal(n)[i] <= '9',
        trimmed(decimal(n)) == decimal(n),
        forall|c: char| c < '0' || c > '9' ==> !#[trigger] decimal(n).contains(c),
{
    let d = decimal(n);
    law_decimal_reads_back(n);
    assert forall|i: int| 0 <= i < d.len() implies '0' <= #[trigger] d[i] <= '9' by {
        assert(digit_value(d[i], 10) is Some);
    }
    assert(d.last() == d[d.len() - 1]);
    let none = Seq::<char>::empty();
    law_trimming_leaves_the_text(none, d, none);
    assert(none + d + none =~= d);
}

/// Whether `s` is a run of decimal digits.
pub open spec fn is_digit_run(s: Seq<char>) -> bool {
    s.len() > 0 && forall|i: int| 0 <= i < s.len() ==> is_digit(#[trigger] s[i])
}

/// Digits with a sign, a point, or an exponent of either letter and either sign are a
/// number, and an exponent needs digits.
pub proof fn law_decimal_numbers_are_numbers(
    whole: Seq<char>,
    part: Seq<char>,
    exponent: Seq<char>,
    mark: char,
    sign: char,
)
    requires
        is_digit_run(whole),
        is_digit_run(part),
        is_digit_run(exponent),
        mark == 'e' || mark == 'E',
        sign == '+' || sign == '-',
    ensures
        is_float(whole),
        is_float(seq![sign] + whole),
        is_float(whole + seq!['.'] + part),
        is_float(seq![sign] + whole + seq!['.'] + part),
        is_float(seq!['.'] + part),
        is_float(whole + seq!['.']),
        is_float(whole + seq![mark] + exponent),
        is_float(whole + seq![mark, sign] + exponent),
        is_float(whole + seq!['.'] + part + seq![mark] + exponent),
        is_float(whole + seq!['.'] + part + seq![mark, sign] + exponent),
        is_float("inf"@) && is_float("infinity"@) && is_float("nan"@),
        !is_decimal_from(whole + seq![mark], 0),
        !is_decimal_from(seq!['.'], 0),
{
    let w = whole.len() as int;
    let p = part.len() as int;
    let e = exponent.len() as int;
    lemma_digits_end(whole, 0, w);
    lemma_digits_end(seq![sign] + whole, 1, w + 1);
    let s = whole + seq!['.'] + part;
    lemma_digits_end(s, 0, w);
    lemma_digits_end(s, w + 1, w + 1 + p);
    let s = seq![sign] + whole + seq!['.'] + part;
    lemma_digits_end(s, 1, w + 1);
    lemma_digits_end(s, w + 2, w + 2 + p);
    let s = seq!['.'] + part;
    lemma_digits_end(s, 0, 0);
    lemma_digits_end(s, 1, 1 + p);
    let s = whole + seq!['.'];
    lemma_digits_end(s, 0, w);
    lemma_digits_end(s, w + 1, w + 1);
    let s = whole + seq![mark] + exponent;
    lemma_digits_end(s, 0, w);
    lemma_digits_end(s, w + 1, w + 1 + e);
    let s = whole + seq![mark, sign] + exponent;
    lemma_digits_end(s, 0, w);
    lemma_digits_end(s, w + 2, w + 2 + e);
    let s = whole + seq!['.'] + part + seq![mark] + exponent;
    lemma_digits_end(s, 0, w);
    lemma_digits_end(s, w + 1, w + 1 + p);
    lemma_digits_end(s, w + p + 2, w + p + 2 + e);
    let s = whole + seq!['.'] + part + seq![mark, sign] + exponent;
    lemma_digits_end(s, 0, w);
    lemma_digits_end(s, w + 1, w + 1 + p);
    lemma_digits_end(s, w + p + 3, w + p + 3 + e);
    let s = whole + seq![mark];
    lemma_digits_end(s, 0, w);
    lemma_digits_end(s, w + 1, w + 1);
    lemma_digits_end(seq!['.'], 0, 0);
    lemma_digits_end(seq!['.'], 1, 1);
    reveal_strlit("inf");
    reveal_strlit("infinity");
    reveal_strlit("nan");
}

pub proof fn lemma_digits_end(s: Seq<char>, i: int, j: int)
    requires
        0 <= i <= j <= s.len(),
        forall|k: int| i <= k < j ==> is_digit(#[trigger] s[k]),
        j == s.len() || !is_digit(s[j]),
    ensures
        digits_end(s, i) == j,
    decreases j - i,
{
    if i < j {
        assert(is_digit(s[i]));
        lemma_digits_end(s, i + 1, j);
    }
}

} // verus!
