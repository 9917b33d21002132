//! Characters, decimal numbers and substrings.
//!
//! Text is handled as the sequence of its characters. The number formats are those that Rust
//! prints and parses: an optional sign followed by one or more ASCII digits.

use vstd::prelude::*;
use vstd::string::*;

verus! {

/// The characters of `s`.
pub fn chars_of(s: &str) -> (r: Vec<char>)
    ensures
        r@ == s@,
{
    let n: usize = s.unicode_len();
    let mut r: Vec<char> = Vec::new();
    let mut i: usize = 0;
    while i < n
        invariant
            i <= n,
            n == s@.len(),
            r@ == s@.take(i as int),
        decreases n - i,
    {
        r.push(s.get_char(i));
        assert(s@.take(i + 1) == s@.take(i as int).push(s@[i as int]));
        i = i + 1;
    }
    assert(s@.take(n as int) == s@);
    r
}

/// The characters `from..to` of `v`.
pub fn slice_of(v: &Vec<char>, from: usize, to: usize) -> (r: Vec<char>)
    requires
        from <= to <= v@.len(),
    ensures
        r@ == v@.subrange(from as int, to as int),
{
    let mut r: Vec<char> = Vec::new();
    let mut i: usize = from;
    while i < to
        invariant
            from <= i <= to <= v@.len(),
            r@ == v@.subrange(from as int, i as int),
        decreases to - i,
    {
        r.push(v[i]);
        assert(v@.subrange(from as int, i + 1) == v@.subrange(from as int, i as int).push(v@[i as int]));
        i = i + 1;
    }
    r
}

/// Whether `pat` stands in `s` at position `k`.
pub open spec fn matches_at(s: Seq<char>, pat: Seq<char>, k: int) -> bool {
    0 <= k && k + pat.len() <= s.len() && s.subrange(k, k + pat.len() as int) == pat
}

/// Whether `k` is the first position at which `pat` stands in `s`.
pub open spec fn first_match(s: Seq<char>, pat: Seq<char>, k: int) -> bool {
    matches_at(s, pat, k) && forall|j: int| 0 <= j < k ==> !matches_at(s, pat, j)
}

/// Whether `pat` stands somewhere in `s`.
pub open spec fn has_match(s: Seq<char>, pat: Seq<char>) -> bool {
    exists|k: int| matches_at(s, pat, k)
}

pub open spec fn starts_with(s: Seq<char>, pat: Seq<char>) -> bool {
    matches_at(s, pat, 0)
}

pub open spec fn ends_with(s: Seq<char>, pat: Seq<char>) -> bool {
    matches_at(s, pat, s.len() - pat.len())
}

pub fn stands_at(s: &Vec<char>, pat: &Vec<char>, k: usize) -> (r: bool)
    ensures
        r == matches_at(s@, pat@, k as int),
{
    if pat.len() > s.len() || k > s.len() - pat.len() {
        return false;
    }
    let n: usize = s.len();
    let mut i: usize = 0;
    while i < pat.len()
        invariant
            i <= pat@.len(),
            n == s@.len(),
            k + pat@.len() <= n,
            forall|j: int| 0 <= j < i ==> s@[k + j] == pat@[j],
        decreases pat@.len() - i,
    {
        if s[k + i] != pat[i] {
            assert(s@.subrange(k as int, k + pat@.len() as int)[i as int] != pat@[i as int]);
            return false;
        }
        i = i + 1;
    }
    assert(s@.subrange(k as int, k + pat@.len() as int) =~= pat@);
    true
}

/// The first position at which `pat` stands in `s`.
pub fn find(s: &Vec<char>, pat: &Vec<char>) -> (r: Option<usize>)
    ensures
        match r {
            Some(k) => first_match(s@, pat@, k as int),
            None => !has_match(s@, pat@),
        },
{
    if pat.len() > s.len() {
        return None;
    }
    let last: usize = s.len() - pat.len();
    let mut k: usize = 0;
    while k < last
        invariant
            k <= last,
            last == s@.len() - pat@.len(),
            forall|j: int| 0 <= j < k ==> !matches_at(s@, pat@, j),
        decreases last - k,
    {
        if stands_at(s, pat, k) {
            return Some(k);
        }
        k = k + 1;
    }
    if stands_at(s, pat, last) {
        return Some(last);
    }
    None
}

pub fn text_starts_with(s: &Vec<char>, pat: &Vec<char>) -> (r: bool)
    ensures
        r == starts_with(s@, pat@),
{
    stands_at(s, pat, 0)
}

pub fn text_ends_with(s: &Vec<char>, pat: &Vec<char>) -> (r: bool)
    ensures
        r == ends_with(s@, pat@),
{
    if pat.len() > s.len() {
        return false;
    }
    stands_at(s, pat, s.len() - pat.len())
}

pub fn text_contains(s: &Vec<char>, pat: &Vec<char>) -> (r: bool)
    ensures
        r == has_match(s@, pat@),
{
    match find(s, pat) {
        Some(k) => {
            assert(matches_at(s@, pat@, k as int));
            true
        },
        None => false,
    }
}

/// Whether two texts are the same.
pub fn same_text(a: &str, b: &str) -> (r: bool)
    ensures
        r == (a@ == b@),
{
    let x = chars_of(a);
    let y = chars_of(b);
    if x.len() != y.len() {
        return false;
    }
    let r = stands_at(&x, &y, 0);
    assert(x@.subrange(0, y@.len() as int) =~= x@);
    r
}

/// Whether an optional text is there and is `b`.
pub fn is_text(a: &Option<String>, b: &str) -> (r: bool)
    ensures
        r == (a is Some && a->0@ == b@),
{
    match a {
        Some(s) => same_text(s.as_str(), b),
        None => false,
    }
}

/// The view of a text that may be missing.
pub open spec fn text_view(t: Option<String>) -> Option<Seq<char>> {
    match t {
        Some(t) => Some(t@),
        None => None,
    }
}

pub fn same_optional(a: &Option<String>, b: &Option<String>) -> (r: bool)
    ensures
        r == (text_view(*a) == text_view(*b)),
{
    match (a, b) {
        (Some(x), Some(y)) => same_text(x.as_str(), y.as_str()),
        (None, None) => true,
        _ => false,
    }
}

/// `c` with the 26 ASCII capitals replaced by their small letters.
pub open spec fn ascii_lower(c: char) -> char {
    if 'A' <= c <= 'Z' {
        ((c as u32) + 32) as char
    } else {
        c
    }
}

pub open spec fn lowercase(s: Seq<char>) -> Seq<char> {
    s.map_values(|c: char| ascii_lower(c))
}

fn lower_char(c: char) -> (r: char)
    ensures
        r == ascii_lower(c),
{
    if c >= 'A' && c <= 'Z' {
        let b: u8 = c as u8;
        (b + 32) as char
    } else {
        c
    }
}

pub fn to_lowercase(s: &Vec<char>) -> (r: Vec<char>)
    ensures
        r@ == lowercase(s@),
{
    let mut r: Vec<char> = Vec::new();
    let mut i: usize = 0;
    while i < s.len()
        invariant
            i <= s@.len(),
            r@ == lowercase(s@.take(i as int)),
        decreases s@.len() - i,
    {
        r.push(lower_char(s[i]));
        assert(lowercase(s@.take(i + 1)) =~= lowercase(s@.take(i as int)).push(ascii_lower(s@[i as int])));
        i = i + 1;
    }
    assert(s@.take(s@.len() as int) == s@);
    r
}

/// Decimal digits.
pub open spec fn is_digit(c: char) -> bool {
    '0' <= c <= '9'
}

pub open spec fn digit_value(c: char) -> int {
    (c as int) - ('0' as int)
}

pub open spec fn digit_char(d: int) -> char {
    (d + ('0' as int)) as char
}

pub open spec fn all_digits(s: Seq<char>) -> bool {
    s.len() > 0 && forall|i: int| 0 <= i < s.len() ==> is_digit(s[i])
}

/// The number that a row of digits stands for.
pub open spec fn value_of(s: Seq<char>) -> int
    decreases s.len(),
{
    if s.len() == 0 {
        0
    } else {
        value_of(s.drop_last()) * 10 + digit_value(s.last())
    }
}

/// The digits of `n` without leading zeros.
pub open spec fn digits_of(n: nat) -> Seq<char>
    decreases n,
{
    if n < 10 {
        seq![digit_char(n as int)]
    } else {
        digits_of(n / 10).push(digit_char((n % 10) as int))
    }
}

/// The decimal text of an integer.
pub open spec fn decimal(n: int) -> Seq<char> {
    if n < 0 {
        seq!['-'] + digits_of((-n) as nat)
    } else {
        digits_of(n as nat)
    }
}

/// What parsing `s` as an unsigned number up to `max` gives: digits, with an optional plus.
pub open spec fn parsed_unsigned(s: Seq<char>, max: int) -> Option<int> {
    let body = if s.len() > 0 && s[0] == '+' {
        s.skip(1)
    } else {
        s
    };
    if all_digits(body) && value_of(body) <= max {
        Some(value_of(body))
    } else {
        None
    }
}

/// What parsing `s` as a signed number between `min` and `max` gives: digits, with an optional
/// sign.
pub open spec fn parsed_signed(s: Seq<char>, min: int, max: int) -> Option<int> {
    if s.len() > 0 && s[0] == '-' {
        let body = s.skip(1);
        if all_digits(body) && -value_of(body) >= min {
            Some(-value_of(body))
        } else {
            None
        }
    } else {
        parsed_unsigned(s, max)
    }
}

proof fn lemma_value_nonneg(s: Seq<char>)
    requires
        forall|i: int| 0 <= i < s.len() ==> is_digit(s[i]),
    ensures
        value_of(s) >= 0,
    decreases s.len(),
{
    if s.len() > 0 {
        assert forall|i: int| 0 <= i < s.drop_last().len() implies is_digit(s.drop_last()[i]) by {
            assert(s.drop_last()[i] == s[i]);
        }
        lemma_value_nonneg(s.drop_last());
        assert(is_digit(s[s.len() - 1]));
    }
}

/// A number that was parsed is in range.
pub proof fn parsed_numbers_are_in_range(s: Seq<char>, max: int)
    ensures
        parsed_unsigned(s, max) is Some ==> 0 <= parsed_unsigned(s, max)->0 <= max,
{
    let body = if s.len() > 0 && s[0] == '+' {
        s.skip(1)
    } else {
        s
    };
    if all_digits(body) {
        lemma_value_nonneg(body);
    }
}

proof fn lemma_value_prefix(s: Seq<char>, i: int)
    requires
        forall|j: int| 0 <= j < s.len() ==> is_digit(s[j]),
        0 <= i <= s.len(),
    ensures
        value_of(s.take(i)) <= value_of(s),
    decreases s.len() - i,
{
    if i < s.len() {
        lemma_value_prefix(s, i + 1);
        let t = s.take(i + 1);
        assert(t.drop_last() == s.take(i));
        assert(t.last() == s[i]);
        lemma_value_nonneg(s.take(i));
    } else {
        assert(s.take(i) == s);
    }
}

/// Parses the digits `from..` of `s`, up to `max`.
fn parse_digits(s: &Vec<char>, from: usize, max: u64) -> (r: Option<u64>)
    requires
        from <= s@.len(),
        max <= 0xffff_ffff,
    ensures
        match r {
            Some(n) => all_digits(s@.skip(from as int)) && value_of(s@.skip(from as int)) == n
                && n <= max,
            None => !all_digits(s@.skip(from as int)) || value_of(s@.skip(from as int)) > max,
        },
{
    let ghost body = s@.skip(from as int);
    if from == s.len() {
        return None;
    }
    let mut acc: u64 = 0;
    let mut i: usize = from;
    while i < s.len()
        invariant
            from <= i <= s@.len(),
            from < s@.len(),
            body == s@.skip(from as int),
            acc <= max <= 0xffff_ffff,
            forall|j: int| 0 <= j < i - from ==> is_digit(body[j]),
            acc == value_of(body.take(i - from)),
        decreases s@.len() - i,
    {
        let c: char = s[i];
        assert(body[i - from] == c);
        if c < '0' || c > '9' {
            assert(!is_digit(body[i - from]));
            return None;
        }
        let d: u64 = (c as u32 - '0' as u32) as u64;
        proof {
            let t = body.take(i - from + 1);
            assert(t.drop_last() == body.take(i - from));
            assert(t.last() == c);
        }
        acc = acc * 10 + d;
        i = i + 1;
        if acc > max {
            proof {
                if all_digits(body) {
                    lemma_value_prefix(body, i - from);
                }
            }
            return None;
        }
    }
    assert(body.take(i - from) == body);
    Some(acc)
}

pub fn parse_u32(s: &Vec<char>) -> (r: Option<u32>)
    ensures
        match r {
            Some(n) => parsed_unsigned(s@, u32::MAX as int) == Some(n as int),
            None => parsed_unsigned(s@, u32::MAX as int) is None,
        },
{
    let from: usize = if s.len() > 0 && s[0] == '+' {
        1
    } else {
        0
    };
    assert(from == 0 ==> s@.skip(0) == s@);
    match parse_digits(s, from, 0xffff_ffff) {
        Some(n) => Some(n as u32),
        None => None,
    }
}

pub fn parse_i32(s: &Vec<char>) -> (r: Option<i32>)
    ensures
        match r {
            Some(n) => parsed_signed(s@, i32::MIN as int, i32::MAX as int) == Some(n as int),
            None => parsed_signed(s@, i32::MIN as int, i32::MAX as int) is None,
        },
{
    if s.len() > 0 && s[0] == '-' {
        match parse_digits(s, 1, 0x8000_0000) {
            Some(n) => {
                let m: i64 = -(n as i64);
                Some(m as i32)
            },
            None => None,
        }
    } else {
        let from: usize = if s.len() > 0 && s[0] == '+' {
            1
        } else {
            0
        };
        assert(from == 0 ==> s@.skip(0) == s@);
        match parse_digits(s, from, 0x7fff_ffff) {
            Some(n) => Some(n as i32),
            None => None,
        }
    }
}

proof fn lemma_digits_of(n: nat)
    ensures
        all_digits(digits_of(n)),
        value_of(digits_of(n)) == n,
        n > 0 ==> digits_of(n)[0] != '0',
    decreases n,
{
    reveal_with_fuel(value_of, 2);
    if n < 10 {
        let s = seq![digit_char(n as int)];
        assert(s.drop_last() == Seq::<char>::empty());
        assert(is_digit(s[0]));
    } else {
        lemma_digits_of(n / 10);
        let s = digits_of(n / 10).push(digit_char((n % 10) as int));
        assert(s.drop_last() == digits_of(n / 10));
        assert forall|i: int| 0 <= i < s.len() implies is_digit(s[i]) by {
            if i < digits_of(n / 10).len() {
                assert(s[i] == digits_of(n / 10)[i]);
            }
        }
    }
}

/// A decimal text holds digits only, after the sign, and parsing it gives the number back.
pub proof fn decimal_round_trips(n: int, min: int, max: int)
    requires
        min <= n <= max,
    ensures
        parsed_signed(decimal(n), min, max) == Some(n),
        n >= 0 ==> parsed_unsigned(decimal(n), max) == Some(n),
        forall|i: int|
            0 <= i < decimal(n).len() ==> is_digit(#[trigger] decimal(n)[i]) || decimal(n)[i]
                == '-',
{
    if n < 0 {
        lemma_digits_of((-n) as nat);
        assert(decimal(n).skip(1) == digits_of((-n) as nat));
        assert forall|i: int| 0 <= i < decimal(n).len() implies is_digit(#[trigger] decimal(n)[i])
            || decimal(n)[i] == '-' by {
            if i > 0 {
                assert(decimal(n)[i] == digits_of((-n) as nat)[i - 1]);
            }
        }
    } else {
        lemma_digits_of(n as nat);
        assert(is_digit(decimal(n)[0]));
    }
}

/// Two numbers with the same digits are the same number.
pub proof fn digits_are_injective(a: nat, b: nat)
    requires
        digits_of(a) == digits_of(b),
    ensures
        a == b,
{
    lemma_digits_of(a);
    lemma_digits_of(b);
}

fn push_digit(s: &mut String, d: u64)
    requires
        d < 10,
    ensures
        final(s)@ == old(s)@.push(digit_char(d as int)),
{
    proof {
        reveal_strlit("0");
        reveal_strlit("1");
        reveal_strlit("2");
        reveal_strlit("3");
        reveal_strlit("4");
        reveal_strlit("5");
        reveal_strlit("6");
        reveal_strlit("7");
        reveal_strlit("8");
        reveal_strlit("9");
    }
    let t: &str = match d {
        0 => "0",
        1 => "1",
        2 => "2",
        3 => "3",
        4 => "4",
        5 => "5",
        6 => "6",
        7 => "7",
        8 => "8",
        _ => "9",
    };
    assert(t@ =~= seq![digit_char(d as int)]);
    s.append(t);
    assert(s@ =~= old(s)@.push(digit_char(d as int)));
}

/// Appends the digits of `n`.
pub fn push_unsigned(s: &mut String, n: u64)
    ensures
        final(s)@ == old(s)@ + digits_of(n as nat),
    decreases n,
{
    if n >= 10 {
        push_unsigned(s, n / 10);
    }
    push_digit(s, n % 10);
    assert(s@ =~= old(s)@ + digits_of(n as nat));
}

/// Appends the decimal text of `n`.
pub fn push_signed(s: &mut String, n: i64)
    requires
        n > i64::MIN,
    ensures
        final(s)@ == old(s)@ + decimal(n as int),
{
    if n < 0 {
        proof {
            reveal_strlit("-");
        }
        s.append("-");
        push_unsigned(s, (-n) as u64);
        assert(s@ =~= old(s)@ + decimal(n as int));
    } else {
        push_unsigned(s, n as u64);
    }
}

/// `n` zeros.
pub open spec fn zeros(n: nat) -> Seq<char> {
    Seq::new(n, |i: int| '0')
}

/// The decimal text of `n`, filled up with zeros on the left to `width` characters.
pub open spec fn zero_padded(n: nat, width: nat) -> Seq<char> {
    if digits_of(n).len() >= width {
        digits_of(n)
    } else {
        zeros((width - digits_of(n).len()) as nat) + digits_of(n)
    }
}

proof fn lemma_value_skips_zeros(s: Seq<char>, k: nat)
    requires
        all_digits(s),
    ensures
        value_of(zeros(k) + s) == value_of(s),
    decreases s.len(),
{
    reveal_with_fuel(value_of, 2);
    let t = zeros(k) + s;
    assert(t.drop_last() == zeros(k) + s.drop_last());
    assert(t.last() == s.last());
    if s.len() > 1 {
        assert(all_digits(s.drop_last())) by {
            assert forall|i: int| 0 <= i < s.drop_last().len() implies is_digit(s.drop_last()[i]) by {
                assert(s.drop_last()[i] == s[i]);
            }
        }
        lemma_value_skips_zeros(s.drop_last(), k);
    } else {
        assert(s.drop_last() == Seq::<char>::empty());
        assert(zeros(k) + s.drop_last() == zeros(k));
        lemma_zeros_value(k);
    }
}

proof fn lemma_zeros_value(k: nat)
    ensures
        value_of(zeros(k)) == 0,
    decreases k,
{
    if k > 0 {
        assert(zeros(k).drop_last() == zeros((k - 1) as nat));
        lemma_zeros_value((k - 1) as nat);
    }
}

/// Padding loses nothing: the padded text still stands for the number.
pub proof fn padding_keeps_the_value(n: nat, width: nat)
    ensures
        value_of(zero_padded(n, width)) == n,
        all_digits(zero_padded(n, width)),
{
    lemma_digits_of(n);
    if digits_of(n).len() < width {
        let k = (width - digits_of(n).len()) as nat;
        lemma_value_skips_zeros(digits_of(n), k);
        let t = zeros(k) + digits_of(n);
        assert forall|i: int| 0 <= i < t.len() implies is_digit(t[i]) by {
            if i >= k {
                assert(t[i] == digits_of(n)[i - k]);
            }
        }
    }
}

/// The decimal text of `n`, at least `width` characters wide.
pub fn padded_decimal(n: u64, width: usize) -> (r: String)
    ensures
        r@ == zero_padded(n as nat, width as nat),
{
    let mut body: String = String::new();
    push_unsigned(&mut body, n);
    assert(body@ =~= digits_of(n as nat));
    let len: usize = body.as_str().unicode_len();
    if len >= width {
        return body;
    }
    let mut r: String = String::new();
    let mut i: usize = len;
    while i < width
        invariant
            len <= i <= width,
            r@ == zeros((i - len) as nat),
        decreases width - i,
    {
        push_digit(&mut r, 0);
        assert(zeros((i + 1 - len) as nat) =~= zeros((i - len) as nat).push('0'));
        i = i + 1;
    }
    r.append(body.as_str());
    r
}

/// The pieces of `s` between the separators `sep`, in order.
pub open spec fn split(s: Seq<char>, sep: char) -> Seq<Seq<char>>
    decreases s.len(),
{
    if s.len() == 0 {
        seq![Seq::<char>::empty()]
    } else if s.last() == sep {
        split(s.drop_last(), sep).push(Seq::<char>::empty())
    } else {
        let head = split(s.drop_last(), sep);
        head.drop_last().push(head.last().push(s.last()))
    }
}

pub proof fn split_is_never_empty(s: Seq<char>, sep: char)
    ensures
        split(s, sep).len() >= 1,
    decreases s.len(),
{
    if s.len() > 0 {
        split_is_never_empty(s.drop_last(), sep);
    }
}

/// The views of a row of strings.
pub open spec fn views(v: Seq<String>) -> Seq<Seq<char>> {
    v.map_values(|s: String| s@)
}

/// Splits `s` at every `sep`.
pub fn split_text(s: &str, sep: char) -> (r: Vec<String>)
    ensures
        views(r@) == split(s@, sep),
{
    let n: usize = s.unicode_len();
    let mut r: Vec<String> = Vec::new();
    let mut start: usize = 0;
    let mut i: usize = 0;
    assert(s@.subrange(0, 0) =~= Seq::<char>::empty());
    assert(views(r@).push(s@.subrange(0, 0)) =~= split(s@.take(0), sep));
    while i < n
        invariant
            start <= i <= n,
            n == s@.len(),
            split(s@.take(i as int), sep) == views(r@).push(s@.subrange(start as int, i as int)),
        decreases n - i,
    {
        proof {
            assert(s@.take(i + 1).drop_last() == s@.take(i as int));
            assert(s@.take(i + 1).last() == s@[i as int]);
        }
        if s.get_char(i) == sep {
            let piece = String::from_str(s.substring_char(start, i));
            let ghost before = r@;
            r.push(piece);
            assert(views(r@) =~= views(before).push(s@.subrange(start as int, i as int)));
            start = i + 1;
            assert(s@.subrange(start as int, start as int) =~= Seq::<char>::empty());
        } else {
            let ghost head = split(s@.take(i as int), sep);
            assert(head.drop_last() =~= views(r@));
            assert(s@.subrange(start as int, i + 1) =~= s@.subrange(start as int, i as int).push(s@[i as int]));
        }
        i = i + 1;
    }
    let piece = String::from_str(s.substring_char(start, n));
    let ghost before = r@;
    r.push(piece);
    assert(views(r@) =~= views(before).push(s@.subrange(start as int, n as int)));
    assert(s@.take(n as int) == s@);
    r
}

/// A copy of a text that may be missing.
pub(crate) fn copy_text(text: &Option<String>) -> (r: Option<String>)
    ensures
        r == *text,
{
    match text {
        Some(t) => Some(t.clone()),
        None => None,
    }
}

/// A pattern stands at a place exactly if the characters from there on are its characters, one by
/// one.
pub proof fn patterns_stand_where_their_characters_do(s: Seq<char>, pat: Seq<char>, k: int)
    ensures
        matches_at(s, pat, k) <==> 0 <= k && k + pat.len() <= s.len() && forall|i: int|
            0 <= i < pat.len() ==> s[k + i] == #[trigger] pat[i],
        starts_with(pat + s, pat),
        ends_with(s + pat, pat),
        has_match(s + pat + s, pat),
        starts_with(s, pat) || ends_with(s, pat) ==> has_match(s, pat),
{
    if matches_at(s, pat, k) {
        let part = s.subrange(k, k + pat.len() as int);
        assert forall|i: int| 0 <= i < pat.len() implies s[k + i] == #[trigger] pat[i] by {
            assert(part[i] == s[k + i]);
        }
    }
    if 0 <= k && k + pat.len() <= s.len() && forall|i: int|
        0 <= i < pat.len() ==> s[k + i] == #[trigger] pat[i] {
        assert(s.subrange(k, k + pat.len() as int) =~= pat);
    }
    assert((pat + s).subrange(0, pat.len() as int) =~= pat);
    assert((s + pat).subrange(s.len() as int, (s + pat).len() as int) =~= pat);
    let all = s + pat + s;
    assert(all.subrange(s.len() as int, s.len() + pat.len() as int) =~= pat);
    assert(matches_at(all, pat, s.len() as int));
    if starts_with(s, pat) {
        assert(matches_at(s, pat, 0));
    }
    if ends_with(s, pat) {
        assert(matches_at(s, pat, s.len() - pat.len()));
    }
}

/// Capitals become the small letters that are thirty-two places further on; everything else, and
/// the length, stays, and a text in small letters is its own.
pub proof fn only_capitals_change(s: Seq<char>, i: int)
    requires
        0 <= i < s.len(),
    ensures
        lowercase(s).len() == s.len(),
        65 <= s[i] as int <= 90 ==> lowercase(s)[i] as int == s[i] as int + 32,
        !(65 <= s[i] as int <= 90) ==> lowercase(s)[i] == s[i],
        ascii_lower(lowercase(s)[i]) == lowercase(s)[i],
{
}

/// Digits stand for zero to nine in the order of their codes, and a row of digits for ten times
/// what stands before the last, and the last.
pub proof fn digits_stand_for_their_numbers(s: Seq<char>, d: int, c: char)
    requires
        0 <= d < 10,
    ensures
        digit_char(d) as int == 48 + d,
        digit_value(digit_char(d)) == d,
        is_digit(digit_char(d)),
        is_digit(c) <==> 48 <= c as int <= 57,
        is_digit(c) ==> digit_value(c) == c as int - 48,
        value_of(s.push(digit_char(d))) == value_of(s) * 10 + d,
        value_of(seq![digit_char(d)]) == d,
        digits_of(d as nat) == seq![digit_char(d)],
{
    assert(s.push(digit_char(d)).drop_last() =~= s);
    let one = seq![digit_char(d)];
    assert(one.drop_last() =~= Seq::<char>::empty());
    assert(value_of(one.drop_last()) == 0);
}

/// Only digits, with a sign if it is allowed, are parsed, and the sign is what it says.
pub proof fn numbers_are_parsed_as_written(s: Seq<char>, min: int, max: int)
    requires
        min <= 0 <= max,
    ensures
        s.len() == 0 ==> parsed_unsigned(s, max) is None && parsed_signed(s, min, max) is None,
        s.len() > 0 && s[0] == '-' ==> parsed_unsigned(s, max) is None,
        all_digits(s) && value_of(s) <= max ==> parsed_unsigned(s, max) == Some(value_of(s))
            && parsed_signed(s, min, max) == Some(value_of(s)),
        all_digits(s) && value_of(s) <= max ==> parsed_unsigned(seq!['+'] + s, max) == Some(
            value_of(s),
        ),
        all_digits(s) && -value_of(s) >= min ==> parsed_signed(seq!['-'] + s, min, max) == Some(
            -value_of(s),
        ),
        all_digits(s) && value_of(s) > max ==> parsed_unsigned(s, max) is None,
{
    if s.len() > 0 && s[0] == '-' {
        assert(!is_digit(s[0]));
    }
    if all_digits(s) {
        assert(is_digit(s[0]));
    }
    assert((seq!['+'] + s).skip(1) =~= s);
    assert((seq!['-'] + s).skip(1) =~= s);
}

/// A padded number is as wide as asked, or wider if it has to be, and begins with zeros if it was
/// filled up.
pub proof fn padded_numbers_are_wide_enough(n: nat, width: nat)
    ensures
        zero_padded(n, width).len() >= width,
        zero_padded(n, width).len() == width || zero_padded(n, width) == digits_of(n),
        digits_of(n).len() < width ==> zero_padded(n, width)[0] == '0',
{
}

/// Pieces put together again, with the separator between them.
pub open spec fn glued(pieces: Seq<Seq<char>>, sep: char) -> Seq<char>
    decreases pieces.len(),
{
    if pieces.len() == 0 {
        Seq::empty()
    } else if pieces.len() == 1 {
        pieces[0]
    } else {
        glued(pieces.drop_last(), sep).push(sep) + pieces.last()
    }
}

/// A text that was split has no separator left in any piece, and its pieces put together again are
/// the text.
pub proof fn split_texts_can_be_put_together(s: Seq<char>, sep: char)
    ensures
        glued(split(s, sep), sep) == s,
        forall|i: int|
            0 <= i < split(s, sep).len() ==> !(#[trigger] split(s, sep)[i]).contains(sep),
    decreases s.len(),
{
    let all = split(s, sep);
    if s.len() == 0 {
        assert(all[0] =~= s);
    } else {
        let head = split(s.drop_last(), sep);
        split_texts_can_be_put_together(s.drop_last(), sep);
        split_is_never_empty(s.drop_last(), sep);
        assert(s =~= s.drop_last().push(s.last()));
        if s.last() == sep {
            assert(all.drop_last() =~= head);
            assert(glued(all, sep) =~= s);
            assert forall|i: int| 0 <= i < all.len() implies !(#[trigger] all[i]).contains(sep) by {
                if i < head.len() {
                    assert(all[i] == head[i]);
                }
            }
        } else {
            let last = head.last().push(s.last());
            assert(all.drop_last() =~= head.drop_last());
            crate::collections::lemma_push_contains(head.last(), s.last());
            assert(!head[head.len() - 1].contains(sep));
            if head.len() == 1 {
                assert(glued(all, sep) =~= s);
            } else {
                assert(glued(all, sep) =~= glued(head, sep).push(s.last()));
            }
            assert forall|i: int| 0 <= i < all.len() implies !(#[trigger] all[i]).contains(sep) by {
                if i < head.len() - 1 {
                    assert(all[i] == head[i]);
                }
            }
        }
    }
}

} // verus!
