//! Character-level helpers shared by the grammar: string comparison, decimal
//! numbers and hexadecimal digits, all stated over `Seq<char>`.
use vstd::prelude::*;

verus! {

/// Relies on `String::push`: appends one character at the end.
#[verifier::external_body]
pub(crate) fn push_char(s: &mut String, c: char)
    ensures
        final(s)@ == old(s)@.push(c),
{
    s.push(c);
}

/// Appends a string slice.
pub(crate) fn push_str(s: &mut String, t: &str)
    ensures
        final(s)@ == old(s)@ + t@,
{
    s.append(t);
}

/// Whether two string slices hold the same characters.
pub fn str_eq(a: &str, b: &str) -> (r: bool)
    ensures
        r == (a@ == b@),
{
    let n = a.unicode_len();
    let m = b.unicode_len();
    if n != m {
        return false;
    }
    let mut i: usize = 0;
    while i < n
        invariant
            n == a@.len(),
            m == b@.len(),
            n == m,
            i <= n,
            a@.subrange(0, i as int) == b@.subrange(0, i as int),
        decreases n - i,
    {
        if a.get_char(i) != b.get_char(i) {
            return false;
        }
        assert(a@.subrange(0, i + 1) =~= a@.subrange(0, i as int).push(a@[i as int]));
        assert(b@.subrange(0, i + 1) =~= b@.subrange(0, i as int).push(b@[i as int]));
        i = i + 1;
    }
    assert(a@ =~= a@.subrange(0, n as int));
    assert(b@ =~= b@.subrange(0, n as int));
    true
}

/// The characters of a string slice, one per element.
pub fn chars_of(s: &str) -> (r: Vec<char>)
    ensures
        r@ == s@,
{
    let n = s.unicode_len();
    let mut r: Vec<char> = Vec::new();
    let mut i: usize = 0;
    while i < n
        invariant
            n == s@.len(),
            i <= n,
            r@ == s@.subrange(0, i as int),
        decreases n - i,
    {
        r.push(s.get_char(i));
        assert(r@ =~= s@.subrange(0, i + 1));
        i = i + 1;
    }
    assert(r@ =~= s@);
    r
}

/// A string holding the characters `v[from..to]`.
pub fn string_of(v: &Vec<char>, from: usize, to: usize) -> (r: String)
    requires
        from <= to <= v@.len(),
    ensures
        r@ == v@.subrange(from as int, to as int),
{
    let mut r = String::new();
    let mut i = from;
    while i < to
        invariant
            from <= i <= to <= v@.len(),
            r@ == v@.subrange(from as int, i as int),
        decreases to - i,
    {
        push_char(&mut r, v[i]);
        assert(r@ =~= v@.subrange(from as int, i + 1));
        i = i + 1;
    }
    r
}

pub open spec fn is_digit(c: char) -> bool {
    '0' <= c && c <= '9'
}

pub open spec fn digit_value(c: char) -> nat {
    (c as u32 - '0' as u32) as nat
}

pub open spec fn digit_char(d: nat) -> char
    recommends
        d < 10,
{
    if d == 0 { '0' }
    else if d == 1 { '1' }
    else if d == 2 { '2' }
    else if d == 3 { '3' }
    else if d == 4 { '4' }
    else if d == 5 { '5' }
    else if d == 6 { '6' }
    else if d == 7 { '7' }
    else if d == 8 { '8' }
    else { '9' }
}

pub open spec fn all_digits(s: Seq<char>) -> bool {
    forall|i: int| 0 <= i < s.len() ==> is_digit(#[trigger] s[i])
}

/// The number that a run of decimal digits stands for.
pub open spec fn digits_value(s: Seq<char>) -> nat
    decreases s.len(),
{
    if s.len() == 0 {
        0
    } else {
        digits_value(s.drop_last()) * 10 + digit_value(s.last())
    }
}

/// The decimal text of `n`: no sign, no leading zeros.
pub open spec fn decimal_text(n: nat) -> Seq<char>
    decreases n,
{
    if n < 10 {
        seq![digit_char(n)]
    } else {
        decimal_text(n / 10).push(digit_char(n % 10))
    }
}

pub proof fn lemma_digit_char(d: nat)
    requires
        d < 10,
    ensures
        is_digit(digit_char(d)),
        digit_value(digit_char(d)) == d,
{
}

/// Decimal text is made of digits, starts with a non-zero digit unless it is
/// "0", and reads back as the number it was made from.
pub proof fn lemma_decimal_text(n: nat)
    ensures
        decimal_text(n).len() >= 1,
        all_digits(decimal_text(n)),
        digits_value(decimal_text(n)) == n,
        n < 10 ==> decimal_text(n).len() == 1,
        n >= 10 ==> decimal_text(n).len() >= 2,
        n < 100 ==> decimal_text(n).len() <= 2,
    decreases n,
{
    if n < 10 {
        lemma_digit_char(n);
        let s = decimal_text(n);
        assert(s.drop_last() =~= Seq::<char>::empty());
        assert(digits_value(s) == digits_value(s.drop_last()) * 10 + digit_value(s.last()));
    } else {
        lemma_decimal_text(n / 10);
        lemma_digit_char(n % 10);
        let s = decimal_text(n);
        assert(s.drop_last() =~= decimal_text(n / 10));
        assert(s.last() == digit_char(n % 10));
        assert(digits_value(s) == digits_value(s.drop_last()) * 10 + digit_value(s.last()));
        assert(n == (n / 10) * 10 + n % 10);
        assert forall|i: int| 0 <= i < s.len() implies is_digit(#[trigger] s[i]) by {
            if i < s.len() - 1 {
                assert(s[i] == decimal_text(n / 10)[i]);
            }
        }
    }
}

/// Digits read left to right never decrease in value as more are read.
pub proof fn lemma_digits_value_prefix(s: Seq<char>, i: int)
    requires
        0 <= i <= s.len(),
    ensures
        digits_value(s.subrange(0, i)) <= digits_value(s),
    decreases s.len() - i,
{
    if i < s.len() {
        lemma_digits_value_prefix(s, i + 1);
        assert(s.subrange(0, i + 1).drop_last() =~= s.subrange(0, i));
    } else {
        assert(s.subrange(0, i) =~= s);
    }
}

/// The text that `u8::from_str` accepts: an optional `+` and at least one
/// digit, with a value that fits in a byte.
pub open spec fn unsigned_digits(s: Seq<char>) -> Seq<char> {
    if s.len() > 0 && s[0] == '+' {
        s.drop_first()
    } else {
        s
    }
}

pub open spec fn is_numeric_text(s: Seq<char>) -> bool {
    unsigned_digits(s).len() >= 1 && all_digits(unsigned_digits(s))
}

pub open spec fn is_u8_text(s: Seq<char>) -> bool {
    is_numeric_text(s) && digits_value(unsigned_digits(s)) <= 255
}

pub open spec fn u8_text_value(s: Seq<char>) -> nat {
    digits_value(unsigned_digits(s))
}

/// Reads `v[from..to]` as a run of decimal digits, giving `None` when it is
/// empty, holds a non-digit, or stands for a number above `limit`.
pub fn read_digits(v: &Vec<char>, from: usize, to: usize, limit: u32) -> (r: Option<u32>)
    requires
        from <= to <= v@.len(),
    ensures
        r == (if to > from && all_digits(v@.subrange(from as int, to as int))
            && digits_value(v@.subrange(from as int, to as int)) <= limit {
            Some(digits_value(v@.subrange(from as int, to as int)) as u32)
        } else {
            None::<u32>
        }),
{
    let ghost s = v@.subrange(from as int, to as int);
    if to == from {
        return None;
    }
    let mut value: u32 = 0;
    let mut i = from;
    while i < to
        invariant
            from <= i <= to <= v@.len(),
            s == v@.subrange(from as int, to as int),
            all_digits(v@.subrange(from as int, i as int)),
            value == digits_value(v@.subrange(from as int, i as int)),
            value <= limit,
        decreases to - i,
    {
        let c = v[i];
        let ghost prefix = v@.subrange(from as int, i as int);
        assert(v@.subrange(from as int, i + 1).drop_last() =~= prefix);
        if !('0' <= c && c <= '9') {
            assert(s[i - from] == c);
            return None;
        }
        let d = (c as u32) - ('0' as u32);
        let next: u64 = value as u64 * 10 + d as u64;
        if next > limit as u64 {
            proof {
                assert(s.subrange(0, i + 1 - from) =~= v@.subrange(from as int, i + 1));
                lemma_digits_value_prefix(s, i + 1 - from);
            }
            return None;
        }
        value = next as u32;
        proof {
            let longer = v@.subrange(from as int, i + 1);
            assert forall|k: int| 0 <= k < longer.len() implies is_digit(#[trigger] longer[k]) by {
                if k < longer.len() - 1 {
                    assert(longer[k] == prefix[k]);
                }
            }
        }
        i = i + 1;
    }
    Some(value)
}

/// Appends the decimal text of `n`.
pub fn push_decimal(out: &mut String, n: u32)
    ensures
        final(out)@ == old(out)@ + decimal_text(n as nat),
    decreases n,
{
    if n >= 10 {
        push_decimal(out, n / 10);
    }
    let d = n % 10;
    let c: char = if d == 0 { '0' } else if d == 1 { '1' } else if d == 2 { '2' } else if d == 3 {
        '3'
    } else if d == 4 { '4' } else if d == 5 { '5' } else if d == 6 { '6' } else if d == 7 {
        '7'
    } else if d == 8 { '8' } else { '9' };
    push_char(out, c);
    proof {
        if n >= 10 {
            assert(decimal_text(n as nat) == decimal_text((n / 10) as nat).push(digit_char((n % 10) as nat)));
        }
    }
    assert(final(out)@ =~= old(out)@ + decimal_text(n as nat)) by {
        if n < 10 {
            assert(decimal_text(n as nat) == seq![digit_char(n as nat)]);
        }
    }
}

/// Whether `v[from..to]` is a non-empty run of decimal digits.
pub fn is_digit_run(v: &Vec<char>, from: usize, to: usize) -> (r: bool)
    requires
        from <= to <= v@.len(),
    ensures
        r == (to > from && all_digits(v@.subrange(from as int, to as int))),
{
    if to == from {
        return false;
    }
    let mut i = from;
    while i < to
        invariant
            from <= i <= to <= v@.len(),
            forall|k: int| from <= k < i ==> is_digit(#[trigger] v@[k]),
        decreases to - i,
    {
        if !('0' <= v[i] && v[i] <= '9') {
            assert(v@.subrange(from as int, to as int)[i - from] == v@[i as int]);
            return false;
        }
        i = i + 1;
    }
    assert forall|k: int| 0 <= k < to - from implies is_digit(
        #[trigger] v@.subrange(from as int, to as int)[k],
    ) by {
        assert(v@.subrange(from as int, to as int)[k] == v@[from + k]);
    }
    true
}

pub open spec fn is_hex(c: char) -> bool {
    ('0' <= c && c <= '9') || ('a' <= c && c <= 'f') || ('A' <= c && c <= 'F')
}

pub open spec fn hex_value(c: char) -> nat {
    if '0' <= c && c <= '9' {
        (c as u32 - '0' as u32) as nat
    } else if 'a' <= c && c <= 'f' {
        (c as u32 - 'a' as u32 + 10) as nat
    } else {
        (c as u32 - 'A' as u32 + 10) as nat
    }
}

/// The lower-case hexadecimal digit for `d`.
pub open spec fn hex_digit(d: nat) -> char {
    if d < 10 {
        digit_char(d)
    } else if d == 10 {
        'a'
    } else if d == 11 {
        'b'
    } else if d == 12 {
        'c'
    } else if d == 13 {
        'd'
    } else if d == 14 {
        'e'
    } else {
        'f'
    }
}

/// What `u8::from_str_radix(_, 16)` gives for a two-character group, with 0
/// in place of an error: a `+` sign before one digit is accepted.
pub open spec fn hex_pair_value(a: char, b: char) -> u8 {
    if a == '+' && is_hex(b) {
        hex_value(b) as u8
    } else if is_hex(a) && is_hex(b) {
        (hex_value(a) * 16 + hex_value(b)) as u8
    } else {
        0
    }
}

pub proof fn lemma_hex_digit(d: nat)
    requires
        d < 16,
    ensures
        is_hex(hex_digit(d)),
        hex_value(hex_digit(d)) == d,
        hex_digit(d) != '+',
        hex_digit(d) != '#',
{
}

fn hex_char_value(c: char) -> (r: u8)
    requires
        is_hex(c),
    ensures
        r == hex_value(c),
{
    if '0' <= c && c <= '9' {
        ((c as u32) - ('0' as u32)) as u8
    } else if 'a' <= c && c <= 'f' {
        ((c as u32) - ('a' as u32) + 10) as u8
    } else {
        ((c as u32) - ('A' as u32) + 10) as u8
    }
}

fn is_hex_char(c: char) -> (r: bool)
    ensures
        r == is_hex(c),
{
    ('0' <= c && c <= '9') || ('a' <= c && c <= 'f') || ('A' <= c && c <= 'F')
}

/// Reads a two-character hexadecimal group leniently.
pub fn hex_pair(a: char, b: char) -> (r: u8)
    ensures
        r == hex_pair_value(a, b),
{
    if a == '+' && is_hex_char(b) {
        hex_char_value(b)
    } else if is_hex_char(a) && is_hex_char(b) {
        hex_char_value(a) * 16 + hex_char_value(b)
    } else {
        0
    }
}

/// Appends the two lower-case hexadecimal digits of `b`.
pub fn push_hex_byte(out: &mut String, b: u8)
    ensures
        final(out)@ == old(out)@ + seq![hex_digit((b / 16) as nat), hex_digit((b % 16) as nat)],
{
    push_char(out, hex_digit_char(b / 16));
    push_char(out, hex_digit_char(b % 16));
    assert(final(out)@ =~= old(out)@ + seq![hex_digit((b / 16) as nat), hex_digit((b % 16) as nat)]);
}

fn hex_digit_char(d: u8) -> (r: char)
    requires
        d < 16,
    ensures
        r == hex_digit(d as nat),
{
    if d == 0 { '0' } else if d == 1 { '1' } else if d == 2 { '2' } else if d == 3 { '3' }
    else if d == 4 { '4' } else if d == 5 { '5' } else if d == 6 { '6' } else if d == 7 { '7' }
    else if d == 8 { '8' } else if d == 9 { '9' } else if d == 10 { 'a' } else if d == 11 { 'b' }
    else if d == 12 { 'c' } else if d == 13 { 'd' } else if d == 14 { 'e' } else { 'f' }
}

/// `s` with every leading copy of `p` removed, as `str::trim_start_matches` does.
pub open spec fn strip_repeated(s: Seq<char>, p: Seq<char>) -> Seq<char>
    decreases s.len(),
{
    if p.len() > 0 && s.len() >= p.len() && s.subrange(0, p.len() as int) == p {
        strip_repeated(s.subrange(p.len() as int, s.len() as int), p)
    } else {
        s
    }
}

/// Whether `v[pos..]` starts with `p`.
pub fn starts_with_at(v: &Vec<char>, pos: usize, p: &Vec<char>) -> (r: bool)
    requires
        pos <= v@.len(),
    ensures
        r == (v@.len() - pos >= p@.len() && v@.subrange(pos as int, pos + p@.len()) == p@),
{
    let n = v.len();
    if n - pos < p.len() {
        return false;
    }
    let mut i: usize = 0;
    while i < p.len()
        invariant
            n == v@.len(),
            pos <= v@.len(),
            v@.len() - pos >= p@.len(),
            i <= p@.len(),
            v@.subrange(pos as int, pos + i) == p@.subrange(0, i as int),
        decreases p@.len() - i,
    {
        if v[pos + i] != p[i] {
            assert(v@.subrange(pos as int, pos + p@.len())[i as int] == v@[pos + i]);
            return false;
        }
        assert(v@.subrange(pos as int, pos + i + 1) =~= v@.subrange(pos as int, pos + i).push(v@[pos + i]));
        assert(p@.subrange(0, i + 1) =~= p@.subrange(0, i as int).push(p@[i as int]));
        i = i + 1;
    }
    assert(p@.subrange(0, p@.len() as int) =~= p@);
    true
}

/// The position after every copy of `p` that starts at `pos`.
pub fn skip_repeated(v: &Vec<char>, pos: usize, p: &Vec<char>) -> (r: usize)
    requires
        pos <= v@.len(),
    ensures
        pos <= r <= v@.len(),
        v@.subrange(r as int, v@.len() as int) == strip_repeated(
            v@.subrange(pos as int, v@.len() as int),
            p@,
        ),
{
    if p.len() == 0 {
        return pos;
    }
    let n = v.len();
    let mut i = pos;
    while starts_with_at(v, i, p)
        invariant
            n == v@.len(),
            pos <= i <= v@.len(),
            p@.len() > 0,
            strip_repeated(v@.subrange(i as int, v@.len() as int), p@) == strip_repeated(
                v@.subrange(pos as int, v@.len() as int),
                p@,
            ),
        decreases v@.len() - i,
    {
        let ghost t = v@.subrange(i as int, v@.len() as int);
        assert(t.subrange(0, p@.len() as int) =~= v@.subrange(i as int, i + p@.len()));
        assert(t.subrange(p@.len() as int, t.len() as int) =~= v@.subrange(i + p@.len(), v@.len() as int));
        i = i + p.len();
    }
    proof {
        let t = v@.subrange(i as int, v@.len() as int);
        if p@.len() > 0 && t.len() >= p@.len() && t.subrange(0, p@.len() as int) == p@ {
            assert(v@.subrange(i as int, i + p@.len()) =~= t.subrange(0, p@.len() as int));
        }
    }
    i
}

} // verus!
