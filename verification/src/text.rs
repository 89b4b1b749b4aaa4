//! Characters, decimal numbers and the few string operations the crate needs.
//!
//! Text is modelled as `Seq<char>`.  Every function here says exactly which
//! sequence it returns.

use vstd::prelude::*;
use vstd::std_specs::iter::IteratorSpec;

verus! {

/// `String::push`: the character is added at the end.
pub assume_specification[ String::push ](s: &mut String, ch: char)
    ensures
        final(s)@ == old(s)@.push(ch),
;

/// The characters of a string, in order.
pub fn chars_of(s: &str) -> (v: Vec<char>)
    ensures
        v@ == s@,
{
    let mut v: Vec<char> = Vec::new();
    for c in it: s.chars()
        invariant
            it.seq() == s@,
            v@ == s@.take(it.index()),
    {
        v.push(c);
    }
    v
}

/// The string made of `chars[from..to]`.
pub fn string_of(chars: &Vec<char>, from: usize, to: usize) -> (s: String)
    requires
        from <= to <= chars.len(),
    ensures
        s@ == chars@.subrange(from as int, to as int),
{
    let mut s = String::new();
    let mut i: usize = from;
    while i < to
        invariant
            from <= i <= to <= chars.len(),
            s@ == chars@.subrange(from as int, i as int),
        decreases to - i,
    {
        s.push(chars[i]);
        i += 1;
        assert(s@ =~= chars@.subrange(from as int, i as int));
    }
    s
}

/// Whether a vector of characters spells exactly the given text.
pub fn spells(chars: &Vec<char>, text: &str) -> (b: bool)
    ensures
        b == (chars@ == text@),
{
    let want = chars_of(text);
    if chars.len() != want.len() {
        return false;
    }
    let mut i: usize = 0;
    while i < chars.len()
        invariant
            i <= chars.len(),
            chars.len() == want.len(),
            want@ == text@,
            forall|k: int| 0 <= k < i ==> chars@[k] == want@[k],
        decreases chars.len() - i,
    {
        if chars[i] != want[i] {
            return false;
        }
        i += 1;
    }
    assert(chars@ =~= want@);
    true
}

// ---------------------------------------------------------------------------
// Character classes
// ---------------------------------------------------------------------------

/// Characters with the Unicode property `White_Space`.
pub open spec fn is_whitespace(c: char) -> bool {
    let n = c as u32;
    ||| 0x09 <= n <= 0x0D
    ||| n == 0x20
    ||| n == 0x85
    ||| n == 0xA0
    ||| n == 0x1680
    ||| 0x2000 <= n <= 0x200A
    ||| n == 0x2028
    ||| n == 0x2029
    ||| n == 0x202F
    ||| n == 0x205F
    ||| n == 0x3000
}

pub fn char_is_whitespace(c: char) -> (b: bool)
    ensures
        b == is_whitespace(c),
{
    let n: u32 = c as u32;
    (0x09 <= n && n <= 0x0D) || n == 0x20 || n == 0x85 || n == 0xA0 || n == 0x1680 || (0x2000 <= n
        && n <= 0x200A) || n == 0x2028 || n == 0x2029 || n == 0x202F || n == 0x205F || n == 0x3000
}

/// Control codes: the Unicode general category `Cc`.
pub open spec fn is_control(c: char) -> bool {
    let n = c as u32;
    n <= 0x1F || 0x7F <= n <= 0x9F
}

pub fn char_is_control(c: char) -> (b: bool)
    ensures
        b == is_control(c),
{
    let n: u32 = c as u32;
    n <= 0x1F || (0x7F <= n && n <= 0x9F)
}

/// An ASCII upper-case letter becomes its lower-case form; every other
/// character stays.
pub open spec fn ascii_lower(c: char) -> char {
    if 'A' <= c <= 'Z' {
        ((c as u8) + 32) as char
    } else {
        c
    }
}

pub fn char_ascii_lower(c: char) -> (r: char)
    ensures
        r == ascii_lower(c),
{
    if 'A' <= c && c <= 'Z' {
        let b: u8 = c as u8;
        (b + 32) as char
    } else {
        c
    }
}

/// A text with every ASCII upper-case letter folded to lower case.
pub open spec fn ascii_lowercase(s: Seq<char>) -> Seq<char> {
    Seq::new(s.len(), |i: int| ascii_lower(s[i]))
}

pub fn ascii_lowercased(chars: &Vec<char>) -> (r: Vec<char>)
    ensures
        r@ == ascii_lowercase(chars@),
{
    let mut r: Vec<char> = Vec::new();
    let mut i: usize = 0;
    while i < chars.len()
        invariant
            i <= chars.len(),
            r.len() == i,
            forall|k: int| 0 <= k < i ==> r@[k] == ascii_lower(chars@[k]),
        decreases chars.len() - i,
    {
        r.push(char_ascii_lower(chars[i]));
        i += 1;
    }
    assert(r@ =~= ascii_lowercase(chars@));
    r
}

// ---------------------------------------------------------------------------
// Trimming
// ---------------------------------------------------------------------------

/// Which characters are removed from the two ends of a text.
#[derive(Clone, Copy, Debug)]
pub enum Strip {
    /// Full stops and spaces.
    DotsAndSpaces,
    /// Unicode white space.
    Whitespace,
}

impl Strip {
    pub open spec fn strips(self, c: char) -> bool {
        match self {
            Strip::DotsAndSpaces => c == '.' || c == ' ',
            Strip::Whitespace => is_whitespace(c),
        }
    }

    pub fn strips_char(self, c: char) -> (b: bool)
        ensures
            b == self.strips(c),
    {
        match self {
            Strip::DotsAndSpaces => c == '.' || c == ' ',
            Strip::Whitespace => char_is_whitespace(c),
        }
    }
}

/// The text without its leading characters of the given kind.
pub open spec fn trim_front(s: Seq<char>, kind: Strip) -> Seq<char>
    decreases s.len(),
{
    if s.len() > 0 && kind.strips(s[0]) {
        trim_front(s.drop_first(), kind)
    } else {
        s
    }
}

/// The text without its trailing characters of the given kind.
pub open spec fn trim_back(s: Seq<char>, kind: Strip) -> Seq<char>
    decreases s.len(),
{
    if s.len() > 0 && kind.strips(s.last()) {
        trim_back(s.drop_last(), kind)
    } else {
        s
    }
}

/// The text without leading and trailing characters of the given kind.
pub open spec fn trimmed(s: Seq<char>, kind: Strip) -> Seq<char> {
    trim_back(trim_front(s, kind), kind)
}

/// Cutting `i` stripped characters off the front, where the next one stays,
/// is `trim_front`.
pub proof fn lemma_trim_front_is_suffix(s: Seq<char>, kind: Strip, i: int)
    requires
        0 <= i <= s.len(),
        forall|k: int| 0 <= k < i ==> kind.strips(#[trigger] s[k]),
        i < s.len() ==> !kind.strips(s[i]),
    ensures
        trim_front(s, kind) == s.subrange(i, s.len() as int),
    decreases i,
{
    if i == 0 {
        assert(s.subrange(0, s.len() as int) =~= s);
    } else {
        let t = s.drop_first();
        assert forall|k: int| 0 <= k < i - 1 implies kind.strips(#[trigger] t[k]) by {
            assert(t[k] == s[k + 1]);
        }
        lemma_trim_front_is_suffix(t, kind, i - 1);
        assert(t.subrange(i - 1, t.len() as int) =~= s.subrange(i, s.len() as int));
    }
}

/// Cutting stripped characters off the back down to length `j`, where the
/// one before stays, is `trim_back`.
pub proof fn lemma_trim_back_is_prefix(s: Seq<char>, kind: Strip, j: int)
    requires
        0 <= j <= s.len(),
        forall|k: int| j <= k < s.len() ==> kind.strips(#[trigger] s[k]),
        0 < j ==> !kind.strips(s[j - 1]),
    ensures
        trim_back(s, kind) == s.subrange(0, j),
    decreases s.len() - j,
{
    if j == s.len() {
        assert(s.subrange(0, j) =~= s);
    } else {
        let t = s.drop_last();
        lemma_trim_back_is_prefix(t, kind, j);
        assert(t.subrange(0, j) =~= s.subrange(0, j));
    }
}

/// What `trim_front` leaves is the end of the text: it keeps what holds of
/// every character, and it does not begin with a stripped character.
pub proof fn lemma_trim_front_keeps(s: Seq<char>, kind: Strip, holds: spec_fn(char) -> bool)
    requires
        forall|i: int| 0 <= i < s.len() ==> holds(#[trigger] s[i]),
    ensures
        forall|i: int|
            0 <= i < trim_front(s, kind).len() ==> holds(#[trigger] trim_front(s, kind)[i]),
        trim_front(s, kind).len() > 0 ==> !kind.strips(trim_front(s, kind)[0]),
    decreases s.len(),
{
    if s.len() > 0 && kind.strips(s[0]) {
        let t = s.drop_first();
        assert forall|i: int| 0 <= i < t.len() implies holds(#[trigger] t[i]) by {
            assert(t[i] == s[i + 1]);
        }
        lemma_trim_front_keeps(t, kind, holds);
    }
}

/// What `trim_back` leaves is the beginning of the text, and it does not end
/// with a stripped character.  Where the text begins with a character that
/// is not stripped, something is left.
pub proof fn lemma_trim_back_keeps(s: Seq<char>, kind: Strip)
    ensures
        trim_back(s, kind).len() <= s.len(),
        trim_back(s, kind) == s.take(trim_back(s, kind).len() as int),
        trim_back(s, kind).len() > 0 ==> !kind.strips(trim_back(s, kind).last()),
        s.len() > 0 && !kind.strips(s[0]) ==> trim_back(s, kind).len() > 0,
    decreases s.len(),
{
    if s.len() > 0 && kind.strips(s.last()) {
        let t = s.drop_last();
        lemma_trim_back_keeps(t, kind);
        let n = trim_back(t, kind).len() as int;
        assert(t.take(n) =~= s.take(n));
        if t.len() > 0 {
            assert(t[0] == s[0]);
        }
    } else {
        assert(s.take(s.len() as int) =~= s);
    }
}

/// Trimming keeps what holds of every character of the text, and what it
/// leaves neither begins nor ends with a stripped character.
pub proof fn lemma_trimmed_keeps(s: Seq<char>, kind: Strip, holds: spec_fn(char) -> bool)
    requires
        forall|i: int| 0 <= i < s.len() ==> holds(#[trigger] s[i]),
    ensures
        forall|i: int| 0 <= i < trimmed(s, kind).len() ==> holds(#[trigger] trimmed(s, kind)[i]),
        trimmed(s, kind).len() > 0 ==> !kind.strips(trimmed(s, kind)[0]) && !kind.strips(
            trimmed(s, kind).last(),
        ),
{
    let front = trim_front(s, kind);
    lemma_trim_front_keeps(s, kind, holds);
    lemma_trim_back_keeps(front, kind);
    let t = trimmed(s, kind);
    assert forall|i: int| 0 <= i < t.len() implies holds(#[trigger] t[i]) by {
        assert(t[i] == front[i]);
    }
    if t.len() > 0 {
        assert(t[0] == front[0]);
    }
}

/// The bounds `(from, to)` of what trimming leaves of `chars`.
pub fn trim_bounds(chars: &Vec<char>, kind: Strip) -> (r: (usize, usize))
    ensures
        r.0 <= r.1 <= chars.len(),
        chars@.subrange(r.0 as int, r.1 as int) == trimmed(chars@, kind),
{
    let n: usize = chars.len();
    let mut i: usize = 0;
    while i < n && kind.strips_char(chars[i])
        invariant
            i <= n,
            n == chars.len(),
            forall|k: int| 0 <= k < i ==> kind.strips(#[trigger] chars@[k]),
        decreases n - i,
    {
        i += 1;
    }
    let mut j: usize = n;
    while j > i && kind.strips_char(chars[j - 1])
        invariant
            i <= j <= n,
            n == chars.len(),
            forall|k: int| j <= k < n ==> kind.strips(#[trigger] chars@[k]),
        decreases j,
    {
        j -= 1;
    }
    proof {
        let s = chars@;
        lemma_trim_front_is_suffix(s, kind, i as int);
        let t = s.subrange(i as int, n as int);
        assert forall|k: int| j - i <= k < t.len() implies kind.strips(#[trigger] t[k]) by {
            assert(t[k] == s[k + i]);
        }
        if j > i {
            assert(t[j - i - 1] == s[j - 1]);
        }
        lemma_trim_back_is_prefix(t, kind, j - i);
        assert(t.subrange(0, j - i) =~= s.subrange(i as int, j as int));
    }
    (i, j)
}

// ---------------------------------------------------------------------------
// Decimal numbers
// ---------------------------------------------------------------------------

pub open spec fn is_digit(c: char) -> bool {
    '0' <= c <= '9'
}

/// The character for a digit `0..=9`.
pub open spec fn digit_char(d: nat) -> char {
    ((48 + d) as u8) as char
}

/// The value of a digit character, and 0 for any other character.
pub open spec fn digit_value(c: char) -> nat {
    if is_digit(c) {
        ((c as u8) - 48) as nat
    } else {
        0
    }
}

/// A number written in base ten, without sign or leading zeros.
pub open spec fn decimal_digits(n: nat) -> Seq<char>
    decreases n,
{
    if n < 10 {
        seq![digit_char(n)]
    } else {
        decimal_digits(n / 10).push(digit_char(n % 10))
    }
}

pub open spec fn all_digits(s: Seq<char>) -> bool {
    forall|i: int| 0 <= i < s.len() ==> is_digit(#[trigger] s[i])
}

/// The number that a sequence of digits stands for in base ten.
pub open spec fn digits_value(s: Seq<char>) -> nat
    decreases s.len(),
{
    if s.len() == 0 {
        0
    } else {
        digits_value(s.drop_last()) * 10 + digit_value(s.last())
    }
}

/// A text without its leading plus sign, if it has one.
pub open spec fn without_plus(s: Seq<char>) -> Seq<char> {
    if s.len() > 0 && s[0] == '+' {
        s.drop_first()
    } else {
        s
    }
}

/// The number that a text stands for: an optional `+` followed by one or more
/// decimal digits and nothing else.
pub open spec fn parse_decimal(s: Seq<char>) -> Option<nat> {
    let d = without_plus(s);
    if d.len() > 0 && all_digits(d) {
        Some(digits_value(d))
    } else {
        None
    }
}

/// `parse_decimal` for numbers that fit in 64 bits.
pub open spec fn parse_u64_spec(s: Seq<char>) -> Option<u64> {
    match parse_decimal(s) {
        Some(v) => if v <= u64::MAX {
            Some(v as u64)
        } else {
            None
        },
        None => None,
    }
}

/// `parse_decimal` for numbers that fit in 32 bits.
pub open spec fn parse_u32_spec(s: Seq<char>) -> Option<u32> {
    match parse_decimal(s) {
        Some(v) => if v <= u32::MAX {
            Some(v as u32)
        } else {
            None
        },
        None => None,
    }
}

/// A prefix of a sequence of digits stands for a number that is no larger.
pub proof fn lemma_digits_value_prefix(s: Seq<char>, i: int)
    requires
        0 <= i <= s.len(),
    ensures
        digits_value(s.take(i)) <= digits_value(s),
    decreases s.len() - i,
{
    if i == s.len() {
        assert(s.take(i) =~= s);
    } else {
        lemma_digits_value_prefix(s.drop_last(), i);
        assert(s.drop_last().take(i) =~= s.take(i));
    }
}

/// Appends the decimal form of `n` to `s`.
pub fn push_decimal(s: &mut String, n: u64)
    ensures
        final(s)@ == old(s)@ + decimal_digits(n as nat),
    decreases n,
{
    if n >= 10 {
        push_decimal(s, n / 10);
    }
    let d: u8 = (n % 10) as u8;
    s.push((48 + d) as char);
    proof {
        let digits = decimal_digits(n as nat);
        if n >= 10 {
            assert(old(s)@ + digits =~= (old(s)@ + decimal_digits((n / 10) as nat)).push(
                digit_char((n % 10) as nat),
            ));
        } else {
            assert(old(s)@ + digits =~= old(s)@.push(digit_char(n as nat)));
        }
    }
}

/// The decimal form of `n`.
pub fn decimal_string(n: u64) -> (s: String)
    ensures
        s@ == decimal_digits(n as nat),
{
    let mut s = String::new();
    push_decimal(&mut s, n);
    assert(Seq::<char>::empty() + decimal_digits(n as nat) =~= decimal_digits(n as nat));
    s
}

/// Reads an unsigned decimal number in 64 bits.
pub fn parse_u64(s: &str) -> (r: Option<u64>)
    ensures
        r == parse_u64_spec(s@),
{
    let chars = chars_of(s);
    let n: usize = chars.len();
    let start: usize = if n > 0 && chars[0] == '+' {
        1
    } else {
        0
    };
    let ghost d = without_plus(s@);
    assert(d =~= chars@.subrange(start as int, n as int));
    if start == n {
        return None;
    }
    let mut acc: u64 = 0;
    let mut i: usize = start;
    while i < n
        invariant
            start <= i <= n,
            n == chars.len(),
            d == chars@.subrange(start as int, n as int),
            d == without_plus(s@),
            d.len() > 0,
            all_digits(d.take(i - start)),
            acc == digits_value(d.take(i - start)),
        decreases n - i,
    {
        let c: char = chars[i];
        assert(d[i - start] == c);
        if !('0' <= c && c <= '9') {
            assert(!is_digit(d[i - start]));
            return None;
        }
        let v: u64 = ((c as u8) - 48) as u64;
        proof {
            let next = d.take(i - start + 1);
            assert(next.drop_last() =~= d.take(i - start));
            assert(next.last() == c);
            assert(digits_value(next) == acc * 10 + v);
            assert(all_digits(next)) by {
                assert forall|k: int| 0 <= k < next.len() implies is_digit(#[trigger] next[k]) by {
                    if k < i - start {
                        assert(next[k] == d.take(i - start)[k]);
                    }
                }
            }
            lemma_digits_value_prefix(d, i - start + 1);
        }
        let scaled = acc.checked_mul(10);
        if scaled.is_none() {
            return None;
        }
        let sum = scaled.unwrap().checked_add(v);
        if sum.is_none() {
            return None;
        }
        acc = sum.unwrap();
        i += 1;
    }
    assert(d.take(n - start) =~= d);
    Some(acc)
}

/// Reads an unsigned decimal number in 32 bits.
pub fn parse_u32(s: &str) -> (r: Option<u32>)
    ensures
        r == parse_u32_spec(s@),
{
    match parse_u64(s) {
        Some(v) => if v <= 0xFFFF_FFFF {
            Some(v as u32)
        } else {
            None
        },
        None => None,
    }
}

/// Writing a number in base ten and reading it back gives the number.
pub proof fn lemma_decimal_round_trip(n: nat)
    ensures
        decimal_digits(n).len() > 0,
        all_digits(decimal_digits(n)),
        digits_value(decimal_digits(n)) == n,
        parse_decimal(decimal_digits(n)) == Some(n),
    decreases n,
{
    let s = decimal_digits(n);
    if n < 10 {
        assert(s.drop_last() =~= Seq::<char>::empty());
        assert(digits_value(s.drop_last()) == 0);
        assert(s.last() == digit_char(n));
    } else {
        lemma_decimal_round_trip(n / 10);
        let p = decimal_digits(n / 10);
        assert(s.drop_last() =~= p);
        assert(s.last() == digit_char(n % 10));
        assert forall|k: int| 0 <= k < s.len() implies is_digit(#[trigger] s[k]) by {
            if k < p.len() {
                assert(s[k] == p[k]);
            }
        }
    }
    assert(s[0] != '+');
    assert(without_plus(s) == s);
}

} // verus!

