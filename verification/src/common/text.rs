use vstd::prelude::*;
use vstd::std_specs::iter::IteratorSpec;
use vstd::string::*;

verus! {

broadcast use vstd::string::group_string_axioms;

/// Whether `c` is white space: a character with Unicode's `White_Space`
/// property.
pub open spec fn is_whitespace(c: char) -> bool {
    let n: u32 = c as u32;
    ||| 0x09 <= n <= 0x0D
    ||| n == 0x20
    ||| n == 0x85
    ||| n == 0xA0
    ||| n == 0x1680
    ||| 0x2000 <= n <= 0x200A
    ||| n == 0x2028
    ||| n == 0x2029
    ||| n == 0x202F
    ||| n == 0x205F
    ||| n == 0x3000
}

/// `s` without the white space it starts with.
pub open spec fn trim_start(s: Seq<char>) -> Seq<char>
    decreases s.len(),
{
    if s.len() > 0 && is_whitespace(s.first()) {
        trim_start(s.drop_first())
    } else {
        s
    }
}

/// `s` without the white space it ends with.
pub open spec fn trim_end(s: Seq<char>) -> Seq<char>
    decreases s.len(),
{
    if s.len() > 0 && is_whitespace(s.last()) {
        trim_end(s.drop_last())
    } else {
        s
    }
}

/// `s` without the white space around it.
pub open spec fn trimmed(s: Seq<char>) -> Seq<char> {
    trim_end(trim_start(s))
}

/// Whether `c` is one of the ten decimal digits.
pub open spec fn is_digit(c: char) -> bool {
    '0' <= c <= '9'
}

/// The number a decimal digit stands for.
pub open spec fn digit_value(c: char) -> nat
    recommends
        is_digit(c),
{
    (c as u32 - '0' as u32) as nat
}

/// Whether `s` holds decimal digits only.
pub open spec fn all_digits(s: Seq<char>) -> bool {
    forall|i: int| 0 <= i < s.len() ==> is_digit(#[trigger] s[i])
}

/// The number that a sequence of decimal digits writes, the empty sequence
/// writing zero.
pub open spec fn digits_value(s: Seq<char>) -> nat
    recommends
        all_digits(s),
    decreases s.len(),
{
    if s.len() == 0 {
        0
    } else {
        digits_value(s.drop_last()) * 10 + digit_value(s.last())
    }
}

/// The number that `s` writes, if `s` is a number of at most `max` in decimal
/// notation: one decimal digit or more, after an optional `+`.
pub open spec fn parse_unsigned(s: Seq<char>, max: nat) -> Option<nat> {
    let digits = if s.len() > 0 && s.first() == '+' {
        s.drop_first()
    } else {
        s
    };
    if digits.len() > 0 && all_digits(digits) && digits_value(digits) <= max {
        Some(digits_value(digits))
    } else {
        None
    }
}

/// A longer run of digits never writes a smaller number than its beginning.
pub proof fn lemma_digits_value_grows(s: Seq<char>, k: int)
    requires
        0 <= k <= s.len(),
    ensures
        digits_value(s.subrange(0, k)) <= digits_value(s),
    decreases s.len(),
{
    if k == s.len() {
        assert(s.subrange(0, k) =~= s);
    } else {
        assert(s.drop_last().subrange(0, k) =~= s.subrange(0, k));
        lemma_digits_value_grows(s.drop_last(), k);
    }
}

/// Tells whether `c` is white space.
pub fn char_is_whitespace(c: char) -> (r: bool)
    ensures
        r == is_whitespace(c),
{
    let n: u32 = c as u32;
    (0x09 <= n && n <= 0x0D) || n == 0x20 || n == 0x85 || n == 0xA0 || n == 0x1680 || (0x2000 <= n
        && n <= 0x200A) || n == 0x2028 || n == 0x2029 || n == 0x202F || n == 0x205F || n == 0x3000
}

/// The characters of a text, one by one.
pub fn chars_of(s: &str) -> (r: Vec<char>)
    ensures
        r@ == s@,
{
    let mut r: Vec<char> = Vec::new();
    for c in it: s.chars()
        invariant
            it.seq() == s@,
            r@ == s@.subrange(0, it.index()),
    {
        r.push(c);
        assert(r@ =~= s@.subrange(0, it.index() + 1));
    }
    assert(r@ =~= s@);
    r
}

/// The text without the white space around it.
pub fn trim<'a>(s: &'a str) -> (r: &'a str)
    ensures
        r@ == trimmed(s@),
{
    let chars = chars_of(s);
    let n: usize = chars.len();
    let mut start: usize = 0;
    assert(s@.subrange(0, n as int) =~= s@);
    while start < n && char_is_whitespace(chars[start])
        invariant
            chars@ == s@,
            n == chars@.len(),
            start <= n,
            trim_start(s@) == trim_start(s@.subrange(start as int, n as int)),
        decreases n - start,
    {
        assert(s@.subrange(start as int, n as int).drop_first() =~= s@.subrange(
            start as int + 1,
            n as int,
        ));
        start += 1;
    }
    assert(trim_start(s@) == s@.subrange(start as int, n as int));
    let mut end: usize = n;
    while end > start && char_is_whitespace(chars[end - 1])
        invariant
            chars@ == s@,
            n == chars@.len(),
            start <= end <= n,
            trimmed(s@) == trim_end(s@.subrange(start as int, end as int)),
        decreases end - start,
    {
        assert(s@.subrange(start as int, end as int).drop_last() =~= s@.subrange(
            start as int,
            end as int - 1,
        ));
        end -= 1;
    }
    s.substring_char(start, end)
}

/// Tells whether two texts hold the same characters.
pub fn same_text(a: &str, b: &str) -> (r: bool)
    ensures
        r == (a@ == b@),
{
    let left = chars_of(a);
    let right = chars_of(b);
    if left.len() != right.len() {
        return false;
    }
    let mut i: usize = 0;
    while i < left.len()
        invariant
            left@ == a@,
            right@ == b@,
            left@.len() == right@.len(),
            i <= left@.len(),
            forall|j: int| 0 <= j < i ==> left@[j] == right@[j],
        decreases left@.len() - i,
    {
        if left[i] != right[i] {
            return false;
        }
        i += 1;
    }
    assert(a@ =~= b@);
    true
}

/// Reads a number of at most `max` in decimal notation.
fn parse_bounded(s: &str, max: u64) -> (r: Option<u64>)
    requires
        max <= u32::MAX,
    ensures
        r is Some <==> parse_unsigned(s@, max as nat) is Some,
        r matches Some(v) ==> parse_unsigned(s@, max as nat) == Some(v as nat),
{
    let chars = chars_of(s);
    let n: usize = chars.len();
    let first: usize = if n > 0 && chars[0] == '+' {
        1
    } else {
        0
    };
    let ghost digits = s@.subrange(first as int, n as int);
    assert(digits =~= if s@.len() > 0 && s@.first() == '+' {
        s@.drop_first()
    } else {
        s@
    });
    if first == n {
        return None;
    }
    let mut value: u64 = 0;
    let mut i: usize = first;
    while i < n
        invariant
            chars@ == s@,
            n == chars@.len(),
            first <= i <= n,
            digits == s@.subrange(first as int, n as int),
            digits == if s@.len() > 0 && s@.first() == '+' {
                s@.drop_first()
            } else {
                s@
            },
            max <= u32::MAX,
            all_digits(digits.subrange(0, i - first)),
            value == digits_value(digits.subrange(0, i - first)),
            value <= max,
        decreases n - i,
    {
        let c: char = chars[i];
        assert(c == digits[i - first]);
        if !('0' <= c && c <= '9') {
            assert(!is_digit(digits[i - first]));
            return None;
        }
        let digit: u64 = (c as u32 - '0' as u32) as u64;
        let ghost longer = digits.subrange(0, i - first + 1);
        assert(longer.drop_last() =~= digits.subrange(0, i - first));
        assert(longer.last() == c);
        assert(digits_value(longer) == value * 10 + digit);
        if value * 10 + digit > max {
            proof {
                lemma_digits_value_grows(digits, i - first + 1);
            }
            return None;
        }
        value = value * 10 + digit;
        i += 1;
    }
    assert(digits.subrange(0, n - first) =~= digits);
    Some(value)
}

/// Reads a 16-bit number in decimal notation.
pub fn parse_u16(s: &str) -> (r: Option<u16>)
    ensures
        r is Some <==> parse_unsigned(s@, u16::MAX as nat) is Some,
        r matches Some(v) ==> parse_unsigned(s@, u16::MAX as nat) == Some(v as nat),
{
    match parse_bounded(s, 0xFFFF) {
        Some(v) => Some(v as u16),
        None => None,
    }
}

/// Reads a 32-bit number in decimal notation.
pub fn parse_u32(s: &str) -> (r: Option<u32>)
    ensures
        r is Some <==> parse_unsigned(s@, u32::MAX as nat) is Some,
        r matches Some(v) ==> parse_unsigned(s@, u32::MAX as nat) == Some(v as nat),
{
    match parse_bounded(s, 0xFFFF_FFFF) {
        Some(v) => Some(v as u32),
        None => None,
    }
}

/// The decimal digit that stands for `d`.
pub open spec fn digit_char(d: nat) -> char
    recommends
        d < 10,
{
    if d == 0 {
        '0'
    } else if d == 1 {
        '1'
    } else if d == 2 {
        '2'
    } else if d == 3 {
        '3'
    } else if d == 4 {
        '4'
    } else if d == 5 {
        '5'
    } else if d == 6 {
        '6'
    } else if d == 7 {
        '7'
    } else if d == 8 {
        '8'
    } else {
        '9'
    }
}

/// `n` in decimal notation, without leading zeros.
pub open spec fn nat_text(n: nat) -> Seq<char>
    decreases n,
{
    if n < 10 {
        seq![digit_char(n)]
    } else {
        nat_text(n / 10).push(digit_char(n % 10))
    }
}

/// The last `width` decimal digits of `n`, leading zeros included.
pub open spec fn fixed_digits(n: nat, width: nat) -> Seq<char>
    decreases width,
{
    if width == 0 {
        Seq::empty()
    } else {
        fixed_digits(n / 10, (width - 1) as nat).push(digit_char(n % 10))
    }
}

/// What `nat_text` writes is read back by `parse_unsigned` as the same
/// number.
pub proof fn lemma_nat_text_round_trip(n: nat)
    ensures
        nat_text(n).len() > 0,
        all_digits(nat_text(n)),
        digits_value(nat_text(n)) == n,
        nat_text(n).first() != '+',
        parse_unsigned(nat_text(n), n) == Some(n),
    decreases n,
{
    if n < 10 {
        assert(nat_text(n).drop_last() =~= Seq::<char>::empty());
        assert(digits_value(nat_text(n).drop_last()) == 0);
    } else {
        lemma_nat_text_round_trip(n / 10);
        assert(nat_text(n).drop_last() =~= nat_text(n / 10));
        assert(nat_text(n).first() == nat_text(n / 10).first());
        assert forall|i: int| 0 <= i < nat_text(n).len() implies is_digit(
            #[trigger] nat_text(n)[i],
        ) by {
            if i < nat_text(n / 10).len() {
                assert(nat_text(n)[i] == nat_text(n / 10)[i]);
            }
        }
    }
}

/// The text of one decimal digit.
fn digit_text(d: u8) -> (r: &'static str)
    requires
        d < 10,
    ensures
        r@ == seq![digit_char(d as nat)],
{
    proof {
        reveal_strlit("0");
        reveal_strlit("1");
        reveal_strlit("2");
        reveal_strlit("3");
        reveal_strlit("4");
        reveal_strlit("5");
        reveal_strlit("6");
        reveal_strlit("7");
        reveal_strlit("8");
        reveal_strlit("9");
    }
    let r = if d == 0 {
        "0"
    } else if d == 1 {
        "1"
    } else if d == 2 {
        "2"
    } else if d == 3 {
        "3"
    } else if d == 4 {
        "4"
    } else if d == 5 {
        "5"
    } else if d == 6 {
        "6"
    } else if d == 7 {
        "7"
    } else if d == 8 {
        "8"
    } else {
        "9"
    };
    assert(r@ =~= seq![digit_char(d as nat)]);
    r
}

/// Writes `n` in decimal notation at the end of `text`.
pub fn push_nat(text: &mut String, n: u128)
    ensures
        final(text)@ == old(text)@ + nat_text(n as nat),
    decreases n,
{
    if n >= 10 {
        push_nat(text, n / 10);
    }
    text.append(digit_text((n % 10) as u8));
    assert(final(text)@ =~= old(text)@ + nat_text(n as nat));
}

/// Writes the last `width` decimal digits of `n` at the end of `text`.
pub fn push_fixed_digits(text: &mut String, n: u128, width: u8)
    ensures
        final(text)@ == old(text)@ + fixed_digits(n as nat, width as nat),
    decreases width,
{
    if width > 0 {
        push_fixed_digits(text, n / 10, width - 1);
        text.append(digit_text((n % 10) as u8));
    }
    assert(final(text)@ =~= old(text)@ + fixed_digits(n as nat, width as nat));
}

/// `n` in decimal notation.
pub fn nat_to_string(n: u128) -> (r: String)
    ensures
        r@ == nat_text(n as nat),
{
    let mut r = String::new();
    push_nat(&mut r, n);
    assert(r@ =~= nat_text(n as nat));
    r
}

} // verus!
