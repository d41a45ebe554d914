//! Text as sequences of characters: searching, splitting, trimming and decimal numbers.
//!
//! Every function here is stated over `Seq<char>`, the view of `&str` and `String`.
//! The executable functions work on `Vec<char>`, which [`chars_of`] and [`string_of`]
//! connect to strings.

use vstd::prelude::*;
use vstd::std_specs::iter::IteratorSpec;

verus! {

/// The characters of `s`, in order.
pub fn chars_of(s: &str) -> (out: Vec<char>)
    ensures
        out@ == s@,
{
    let mut out: Vec<char> = Vec::new();
    for c in it: s.chars()
        invariant
            out@ == it.seq().take(it.index() as int),
            it.seq() == s@,
    {
        out.push(c);
    }
    out
}

/// `String::push`: appends one character to the end of the string.
#[verifier::external_body]
fn push_char(s: &mut String, c: char)
    ensures
        final(s)@ == old(s)@.push(c),
{
    s.push(c)
}

/// The string made of `chars`.
pub fn string_of(chars: &Vec<char>) -> (out: String)
    ensures
        out@ == chars@,
{
    let mut out = String::new();
    let mut i: usize = 0;
    while i < chars.len()
        invariant
            i <= chars.len(),
            out@ == chars@.take(i as int),
        decreases chars.len() - i,
    {
        push_char(&mut out, chars[i]);
        i += 1;
    }
    out
}

/// A copy of `chars[from..to]`.
pub fn slice_of(chars: &Vec<char>, from: usize, to: usize) -> (out: Vec<char>)
    requires
        from <= to <= chars.len(),
    ensures
        out@ == chars@.subrange(from as int, to as int),
{
    let mut out: Vec<char> = Vec::new();
    let mut i: usize = from;
    while i < to
        invariant
            from <= i <= to <= chars.len(),
            out@ == chars@.subrange(from as int, i as int),
        decreases to - i,
    {
        out.push(chars[i]);
        i += 1;
    }
    out
}

/// Whether `a` and `b` hold the same characters.
pub fn same_text(a: &Vec<char>, b: &Vec<char>) -> (r: bool)
    ensures
        r == (a@ == b@),
{
    if a.len() != b.len() {
        return false;
    }
    let mut i: usize = 0;
    while i < a.len()
        invariant
            i <= a.len(),
            a.len() == b.len(),
            a@.take(i as int) == b@.take(i as int),
        decreases a.len() - i,
    {
        if a[i] != b[i] {
            return false;
        }
        assert(a@.take(i + 1) == a@.take(i as int).push(a@[i as int]));
        assert(b@.take(i + 1) == b@.take(i as int).push(b@[i as int]));
        i += 1;
    }
    assert(a@ == a@.take(a.len() as int));
    assert(b@ == b@.take(b.len() as int));
    true
}

/// Whether `chars` spells the literal `word`.
pub fn is_word(chars: &Vec<char>, word: &str) -> (r: bool)
    ensures
        r == (chars@ == word@),
{
    let w = chars_of(word);
    same_text(chars, &w)
}

/// The least index at or after `from` where `s` holds a character of `set`,
/// or the length of `s` where there is none.
pub open spec fn first_of_from(s: Seq<char>, set: Seq<char>, from: int) -> int
    decreases s.len() - from,
{
    if from < 0 || from >= s.len() {
        s.len() as int
    } else if set.contains(s[from]) {
        from
    } else {
        first_of_from(s, set, from + 1)
    }
}

/// The least index where `s` holds a character of `set`, or the length of `s`.
pub open spec fn first_of(s: Seq<char>, set: Seq<char>) -> int {
    first_of_from(s, set, 0)
}

/// What `first_of_from` returns is in range, holds a character of `set` unless it is the
/// length, and nothing before it does.
pub proof fn lemma_first_of_from(s: Seq<char>, set: Seq<char>, from: int)
    requires
        0 <= from <= s.len(),
    ensures
        from <= first_of_from(s, set, from) <= s.len(),
        first_of_from(s, set, from) < s.len() ==> set.contains(s[first_of_from(s, set, from)]),
        forall|j: int| from <= j < first_of_from(s, set, from) ==> !set.contains(#[trigger] s[j]),
    decreases s.len() - from,
{
    if from < s.len() && !set.contains(s[from]) {
        lemma_first_of_from(s, set, from + 1);
    }
}

/// Whether `set` holds `c`.
pub fn holds(set: &Vec<char>, c: char) -> (r: bool)
    ensures
        r == set@.contains(c),
{
    let mut i: usize = 0;
    while i < set.len()
        invariant
            i <= set.len(),
            forall|j: int| 0 <= j < i ==> set@[j] != c,
        decreases set.len() - i,
    {
        if set[i] == c {
            return true;
        }
        i += 1;
    }
    false
}

/// The least index where `chars` holds a character of `set`, or its length.
pub fn find_first_of(chars: &Vec<char>, set: &Vec<char>) -> (at: usize)
    ensures
        at == first_of(chars@, set@),
        at <= chars.len(),
{
    let mut i: usize = 0;
    while i < chars.len()
        invariant
            i <= chars.len(),
            first_of_from(chars@, set@, i as int) == first_of(chars@, set@),
        decreases chars.len() - i,
    {
        if holds(set, chars[i]) {
            return i;
        }
        i += 1;
    }
    i
}

/// Whether `pat` stands in `s` at index `at`.
pub open spec fn occurs_at(s: Seq<char>, pat: Seq<char>, at: int) -> bool {
    0 <= at && at + pat.len() <= s.len() && s.subrange(at, at + pat.len()) == pat
}

/// The least index at or after `from` where `pat` stands in `s`, or the length of `s`
/// where it stands nowhere.
pub open spec fn find_from(s: Seq<char>, pat: Seq<char>, from: int) -> int
    decreases s.len() - from,
{
    if from < 0 || from >= s.len() {
        s.len() as int
    } else if occurs_at(s, pat, from) {
        from
    } else {
        find_from(s, pat, from + 1)
    }
}

/// The least index where `pat` stands in `s`, or the length of `s`.
pub open spec fn find(s: Seq<char>, pat: Seq<char>) -> int {
    find_from(s, pat, 0)
}

/// Whether `pat` stands somewhere in `s`. An empty `pat` stands in every `s`.
pub open spec fn contains_text(s: Seq<char>, pat: Seq<char>) -> bool {
    pat.len() == 0 || find(s, pat) < s.len()
}

/// Whether `s` ends with `pat`.
pub open spec fn ends_with(s: Seq<char>, pat: Seq<char>) -> bool {
    occurs_at(s, pat, s.len() - pat.len())
}

/// What `find_from` returns is in range, is a place where `pat` stands unless it is the
/// length, and `pat` stands nowhere before it.
pub proof fn lemma_find_from(s: Seq<char>, pat: Seq<char>, from: int)
    requires
        0 <= from <= s.len(),
    ensures
        from <= find_from(s, pat, from) <= s.len(),
        find_from(s, pat, from) < s.len() ==> occurs_at(s, pat, find_from(s, pat, from)),
        forall|j: int| from <= j < find_from(s, pat, from) ==> !occurs_at(s, pat, j),
    decreases s.len() - from,
{
    if from < s.len() && !occurs_at(s, pat, from) {
        lemma_find_from(s, pat, from + 1);
    }
}

/// Whether `pat` stands in `chars` at index `at`.
pub fn stands_at(chars: &Vec<char>, pat: &Vec<char>, at: usize) -> (r: bool)
    ensures
        r == occurs_at(chars@, pat@, at as int),
{
    if at > chars.len() || pat.len() > chars.len() - at {
        return false;
    }
    let mut i: usize = 0;
    while i < pat.len()
        invariant
            i <= pat.len(),
            at + pat.len() <= chars.len(),
            forall|j: int| 0 <= j < i ==> chars@[at + j] == pat@[j],
        decreases pat.len() - i,
    {
        if chars[at + i] != pat[i] {
            assert(chars@.subrange(at as int, at + pat.len())[i as int] != pat@[i as int]);
            return false;
        }
        i += 1;
    }
    assert(chars@.subrange(at as int, at + pat.len()) =~= pat@);
    true
}

/// The least index where `pat` stands in `chars`, or the length of `chars`.
pub fn find_text(chars: &Vec<char>, pat: &Vec<char>) -> (at: usize)
    ensures
        at == find(chars@, pat@),
        at <= chars.len(),
{
    let mut i: usize = 0;
    while i < chars.len()
        invariant
            i <= chars.len(),
            find_from(chars@, pat@, i as int) == find(chars@, pat@),
        decreases chars.len() - i,
    {
        if stands_at(chars, pat, i) {
            return i;
        }
        i += 1;
    }
    i
}

/// The least index at or after `from` where `s` holds a character other than `c`,
/// or the length of `s`.
pub open spec fn skip_char(s: Seq<char>, c: char, from: int) -> int
    decreases s.len() - from,
{
    if 0 <= from < s.len() && s[from] == c {
        skip_char(s, c, from + 1)
    } else {
        from
    }
}

/// `s` without the run of `c` that it begins with.
pub open spec fn trim_start_char(s: Seq<char>, c: char) -> Seq<char> {
    s.subrange(skip_char(s, c, 0), s.len() as int)
}

/// `chars` without the run of `c` that it begins with.
pub fn without_leading(chars: &Vec<char>, c: char) -> (out: Vec<char>)
    ensures
        out@ == trim_start_char(chars@, c),
{
    let mut i: usize = 0;
    while i < chars.len() && chars[i] == c
        invariant
            i <= chars.len(),
            skip_char(chars@, c, i as int) == skip_char(chars@, c, 0),
        decreases chars.len() - i,
    {
        i += 1;
    }
    slice_of(chars, i, chars.len())
}

/// The characters with the Unicode property `White_Space`.
pub open spec fn is_whitespace(c: char) -> bool {
    let u = c as u32;
    ||| 0x09 <= u <= 0x0d
    ||| u == 0x20
    ||| u == 0x85
    ||| u == 0xa0
    ||| u == 0x1680
    ||| 0x2000 <= u <= 0x200a
    ||| u == 0x2028
    ||| u == 0x2029
    ||| u == 0x202f
    ||| u == 0x205f
    ||| u == 0x3000
}

/// Whether `c` has the Unicode property `White_Space`.
pub fn is_space(c: char) -> (r: bool)
    ensures
        r == is_whitespace(c),
{
    let u: u32 = c as u32;
    (0x09 <= u && u <= 0x0d) || u == 0x20 || u == 0x85 || u == 0xa0 || u == 0x1680 || (0x2000 <= u
        && u <= 0x200a) || u == 0x2028 || u == 0x2029 || u == 0x202f || u == 0x205f || u == 0x3000
}

/// The least index at or after `from` where `s` holds no whitespace, or its length.
pub open spec fn skip_space(s: Seq<char>, from: int) -> int
    decreases s.len() - from,
{
    if 0 <= from < s.len() && is_whitespace(s[from]) {
        skip_space(s, from + 1)
    } else {
        from
    }
}

/// The least `k` such that `s[k..to]` is whitespace only.
pub open spec fn skip_space_back(s: Seq<char>, to: int) -> int
    decreases to,
{
    if 0 < to <= s.len() && is_whitespace(s[to - 1]) {
        skip_space_back(s, to - 1)
    } else {
        to
    }
}

/// `s` without the whitespace at its two ends.
pub open spec fn trim(s: Seq<char>) -> Seq<char> {
    let a = skip_space(s, 0);
    let b = skip_space_back(s, s.len() as int);
    if a <= b {
        s.subrange(a, b)
    } else {
        Seq::empty()
    }
}

/// `chars` without the whitespace at its two ends.
pub fn trimmed(chars: &Vec<char>) -> (out: Vec<char>)
    ensures
        out@ == trim(chars@),
{
    let mut a: usize = 0;
    while a < chars.len() && is_space(chars[a])
        invariant
            a <= chars.len(),
            skip_space(chars@, a as int) == skip_space(chars@, 0),
        decreases chars.len() - a,
    {
        a += 1;
    }
    let mut b: usize = chars.len();
    while b > 0 && is_space(chars[b - 1])
        invariant
            b <= chars.len(),
            skip_space_back(chars@, b as int) == skip_space_back(chars@, chars@.len() as int),
        decreases b,
    {
        b -= 1;
    }
    if a <= b {
        slice_of(chars, a, b)
    } else {
        Vec::new()
    }
}

/// Whether `c` is one of `0` to `9`.
pub open spec fn is_digit(c: char) -> bool {
    '0' <= c <= '9'
}

/// The number that the digit `c` stands for.
pub open spec fn digit_value(c: char) -> nat {
    (c as u32 - '0' as u32) as nat
}

/// Whether `s` holds decimal digits only.
pub open spec fn all_digits(s: Seq<char>) -> bool {
    forall|i: int| 0 <= i < s.len() ==> is_digit(#[trigger] s[i])
}

/// The number that the decimal digits `s` spell; 0 for the empty sequence.
pub open spec fn decimal_value(s: Seq<char>) -> nat
    decreases s.len(),
{
    if s.len() == 0 {
        0
    } else {
        decimal_value(s.drop_last()) * 10 + digit_value(s.last())
    }
}

/// `s` without the `+` that it may begin with.
pub open spec fn unsigned_digits(s: Seq<char>) -> Seq<char> {
    if s.len() > 0 && s[0] == '+' {
        s.drop_first()
    } else {
        s
    }
}

/// The unsigned number that `s` spells as std's integer parsing reads it: an optional `+`,
/// then one or more decimal digits and nothing else. `None` where `s` has another shape or
/// spells a number above `max`.
pub open spec fn parse_unsigned(s: Seq<char>, max: nat) -> Option<nat> {
    let digits = unsigned_digits(s);
    if digits.len() > 0 && all_digits(digits) && decimal_value(digits) <= max {
        Some(decimal_value(digits))
    } else {
        None
    }
}

/// A prefix of a digit sequence spells no more than the whole.
pub proof fn lemma_decimal_prefix(s: Seq<char>, k: int)
    requires
        0 <= k <= s.len(),
    ensures
        decimal_value(s.take(k)) <= decimal_value(s),
    decreases s.len() - k,
{
    if k == s.len() {
        assert(s.take(k) == s);
    } else {
        lemma_decimal_prefix(s, k + 1);
        assert(s.take(k + 1).drop_last() == s.take(k));
    }
}

/// Whether `chars` holds decimal digits only.
pub fn only_digits(chars: &Vec<char>) -> (r: bool)
    ensures
        r == all_digits(chars@),
{
    let mut i: usize = 0;
    while i < chars.len()
        invariant
            i <= chars.len(),
            forall|j: int| 0 <= j < i ==> is_digit(#[trigger] chars@[j]),
        decreases chars.len() - i,
    {
        let c = chars[i];
        if !('0' <= c && c <= '9') {
            return false;
        }
        i += 1;
    }
    true
}

/// The number that `chars` spells, where it is an optional `+` and then one or more decimal
/// digits that spell a number up to `max`.
pub fn parse_number(chars: &Vec<char>, max: u64) -> (r: Option<u64>)
    ensures
        match r {
            Some(v) => parse_unsigned(chars@, max as nat) == Some(v as nat),
            None => parse_unsigned(chars@, max as nat) is None,
        },
{
    let digits = if chars.len() > 0 && chars[0] == '+' {
        slice_of(chars, 1, chars.len())
    } else {
        slice_of(chars, 0, chars.len())
    };
    assert(digits@ == unsigned_digits(chars@));
    if digits.len() == 0 || !only_digits(&digits) {
        return None;
    }
    let mut acc: u64 = 0;
    let mut i: usize = 0;
    while i < digits.len()
        invariant
            i <= digits.len(),
            digits@ == unsigned_digits(chars@),
            all_digits(digits@),
            acc as nat == decimal_value(digits@.take(i as int)),
            acc <= max,
        decreases digits.len() - i,
    {
        assert(is_digit(digits@[i as int]));
        let d: u64 = (digits[i] as u32 - '0' as u32) as u64;
        proof {
            assert(digits@.take(i + 1).drop_last() == digits@.take(i as int));
            assert(decimal_value(digits@.take(i + 1)) == acc * 10 + d);
            lemma_decimal_prefix(digits@, i + 1);
        }
        let next: Option<u64> = match acc.checked_mul(10) {
            Some(m) => m.checked_add(d),
            None => None,
        };
        match next {
            Some(v) => {
                if v > max {
                    return None;
                }
                acc = v;
            },
            None => {
                return None;
            },
        }
        i += 1;
    }
    assert(digits@.take(digits.len() as int) == digits@);
    Some(acc)
}

/// The character for a digit below ten.
pub open spec fn digit_char(d: nat) -> char {
    ('0' as u32 + d) as char
}

/// `n` in decimal digits, without leading zeros.
pub open spec fn decimal_text(n: nat) -> Seq<char>
    decreases n,
{
    if n < 10 {
        seq![digit_char(n)]
    } else {
        decimal_text(n / 10).push(digit_char(n % 10))
    }
}

/// `decimal_text` gives one or more digits, and they spell the number back.
pub proof fn lemma_decimal_text(n: nat)
    ensures
        decimal_text(n).len() > 0,
        all_digits(decimal_text(n)),
        decimal_value(decimal_text(n)) == n,
        decimal_text(n)[0] != '+',
    decreases n,
{
    if n < 10 {
        assert(decimal_text(n).drop_last() == Seq::<char>::empty());
        assert(decimal_value(decimal_text(n).drop_last()) == 0);
    } else {
        lemma_decimal_text(n / 10);
        assert(decimal_text(n).drop_last() == decimal_text(n / 10));
    }
}

/// Reading back what `decimal_text` wrote gives the number.
pub proof fn lemma_decimal_round_trip(n: nat, max: nat)
    requires
        n <= max,
    ensures
        parse_unsigned(decimal_text(n), max) == Some(n),
{
    lemma_decimal_text(n);
}

/// Appends `n` in decimal digits to `out`.
pub fn push_decimal(out: &mut Vec<char>, n: u64)
    ensures
        final(out)@ == old(out)@ + decimal_text(n as nat),
    decreases n,
{
    if n >= 10 {
        push_decimal(out, n / 10);
    }
    let d: u8 = (n % 10) as u8;
    out.push((48u8 + d) as char);
}

/// `n` in decimal digits.
pub fn decimal_of(n: u64) -> (out: Vec<char>)
    ensures
        out@ == decimal_text(n as nat),
{
    let mut out: Vec<char> = Vec::new();
    push_decimal(&mut out, n);
    out
}

/// Strings as texts.
pub open spec fn strings_view(strings: Seq<String>) -> Seq<Seq<char>> {
    Seq::new(strings.len(), |i: int| strings[i]@)
}

/// The texts that `parts` hold.
pub open spec fn texts(parts: Seq<Vec<char>>) -> Seq<Seq<char>> {
    Seq::new(parts.len(), |i: int| parts[i]@)
}

/// The pieces of `s` from `start` on, cut at each `c` at or after `at`.
pub open spec fn split_scan(s: Seq<char>, c: char, start: int, at: int) -> Seq<Seq<char>>
    decreases s.len() - at,
{
    if at < 0 || at >= s.len() {
        seq![s.subrange(start, s.len() as int)]
    } else if s[at] == c {
        seq![s.subrange(start, at)] + split_scan(s, c, at + 1, at + 1)
    } else {
        split_scan(s, c, start, at + 1)
    }
}

/// The pieces that `s` falls into when it is cut at each `c`: one more than `s` holds `c`s,
/// so one empty piece for an empty `s`.
pub open spec fn split(s: Seq<char>, c: char) -> Seq<Seq<char>> {
    split_scan(s, c, 0, 0)
}

/// The pieces that `chars` falls into when it is cut at each `c`.
pub fn split_on(chars: &Vec<char>, c: char) -> (parts: Vec<Vec<char>>)
    ensures
        texts(parts@) == split(chars@, c),
        parts.len() >= 1,
{
    let mut parts: Vec<Vec<char>> = Vec::new();
    let mut start: usize = 0;
    let mut i: usize = 0;
    while i < chars.len()
        invariant
            start <= i <= chars.len(),
            texts(parts@) + split_scan(chars@, c, start as int, i as int) == split(chars@, c),
        decreases chars.len() - i,
    {
        if chars[i] == c {
            let piece = slice_of(chars, start, i);
            let ghost before = texts(parts@);
            parts.push(piece);
            assert(texts(parts@) == before + seq![chars@.subrange(start as int, i as int)]);
            start = i + 1;
        }
        i += 1;
    }
    let piece = slice_of(chars, start, chars.len());
    let ghost before = texts(parts@);
    parts.push(piece);
    assert(texts(parts@) == before + seq![chars@.subrange(start as int, chars@.len() as int)]);
    parts
}

/// An index `at` that holds a character of `set`, with no index between `from` and `at`
/// that does, is what `first_of_from` returns; so is the length, where no index from
/// `from` on holds one.
pub proof fn lemma_first_of_is(s: Seq<char>, set: Seq<char>, from: int, at: int)
    requires
        0 <= from <= at <= s.len(),
        at < s.len() ==> set.contains(s[at]),
        forall|j: int| from <= j < at ==> !set.contains(#[trigger] s[j]),
    ensures
        first_of_from(s, set, from) == at,
    decreases at - from,
{
    if from < at {
        assert(!set.contains(s[from]));
        lemma_first_of_is(s, set, from + 1, at);
    }
}

/// An index `at` where `pat` stands, with no index between `from` and `at` where it
/// does, is what `find_from` returns; so is the length, where it stands nowhere from
/// `from` on.
pub proof fn lemma_find_is(s: Seq<char>, pat: Seq<char>, from: int, at: int)
    requires
        0 <= from <= at <= s.len(),
        at < s.len() ==> occurs_at(s, pat, at),
        forall|j: int| from <= j < at ==> !occurs_at(s, pat, j),
    ensures
        find_from(s, pat, from) == at,
    decreases at - from,
{
    if from < at {
        lemma_find_is(s, pat, from + 1, at);
    }
}

/// Whether `s` holds `c` nowhere.
pub open spec fn lacks(s: Seq<char>, c: char) -> bool {
    forall|i: int| 0 <= i < s.len() ==> #[trigger] s[i] != c
}

/// Scanning a text that holds no `c` from `at` on gives one piece: the text from `start`.
pub proof fn lemma_split_scan_single(s: Seq<char>, c: char, start: int, at: int)
    requires
        0 <= start <= at <= s.len(),
        forall|i: int| at <= i < s.len() ==> #[trigger] s[i] != c,
    ensures
        split_scan(s, c, start, at) == seq![s.subrange(start, s.len() as int)],
    decreases s.len() - at,
{
    if at < s.len() {
        lemma_split_scan_single(s, c, start, at + 1);
    }
}

/// A text that holds no `c` is one piece.
pub proof fn lemma_split_single(s: Seq<char>, c: char)
    requires
        lacks(s, c),
    ensures
        split(s, c) == seq![s],
{
    lemma_split_scan_single(s, c, 0, 0);
    assert(s.subrange(0, s.len() as int) == s);
}

/// Scanning `b` behind a prefix gives the pieces of `b`.
pub proof fn lemma_split_scan_shift(p: Seq<char>, b: Seq<char>, c: char, start: int, at: int)
    requires
        0 <= start <= at <= b.len(),
    ensures
        split_scan(p + b, c, p.len() + start, p.len() + at) == split_scan(b, c, start, at),
    decreases b.len() - at,
{
    let s = p + b;
    if at < b.len() {
        assert(s[p.len() + at] == b[at]);
        if b[at] == c {
            lemma_split_scan_shift(p, b, c, at + 1, at + 1);
            assert(s.subrange(p.len() + start, p.len() + at) == b.subrange(start, at));
        } else {
            lemma_split_scan_shift(p, b, c, start, at + 1);
        }
    } else {
        assert(s.subrange(p.len() + start, s.len() as int) == b.subrange(start, b.len() as int));
    }
}

/// Scanning `a`, one `c` and `b` gives the pieces of `a` from `start` on, then the
/// pieces of `b`.
pub proof fn lemma_split_scan_concat(
    a: Seq<char>,
    b: Seq<char>,
    c: char,
    start: int,
    at: int,
)
    requires
        0 <= start <= at <= a.len(),
    ensures
        split_scan(a + seq![c] + b, c, start, at) == split_scan(a, c, start, at) + split(b, c),
    decreases a.len() - at,
{
    let s = a + seq![c] + b;
    if at < a.len() {
        assert(s[at] == a[at]);
        if a[at] == c {
            lemma_split_scan_concat(a, b, c, at + 1, at + 1);
            assert(s.subrange(start, at) == a.subrange(start, at));
            assert(seq![a.subrange(start, at)] + (split_scan(a, c, at + 1, at + 1) + split(b, c))
                == (seq![a.subrange(start, at)] + split_scan(a, c, at + 1, at + 1)) + split(b, c));
        } else {
            lemma_split_scan_concat(a, b, c, start, at + 1);
        }
    } else {
        assert(s[at] == c);
        assert(s.subrange(start, at) == a.subrange(start, a.len() as int));
        lemma_split_scan_shift(a + seq![c], b, c, 0, 0);
    }
}

/// The pieces of `a`, one `c` and `b` are the pieces of `a`, then the pieces of `b`.
pub proof fn lemma_split_concat(a: Seq<char>, b: Seq<char>, c: char)
    ensures
        split(a + seq![c] + b, c) == split(a, c) + split(b, c),
{
    lemma_split_scan_concat(a, b, c, 0, 0);
}

/// Decimal texts of numbers below 1000 have up to three digits, and no decimal text
/// but `0` begins with a zero.
pub proof fn lemma_decimal_text_shape(n: nat)
    ensures
        n < 10 ==> decimal_text(n).len() == 1,
        10 <= n < 100 ==> decimal_text(n).len() == 2,
        100 <= n < 1000 ==> decimal_text(n).len() == 3,
        n > 0 ==> decimal_text(n)[0] != '0',
        n == 0 ==> decimal_text(n) == seq!['0'],
    decreases n,
{
    if n >= 10 {
        lemma_decimal_text_shape(n / 10);
        lemma_decimal_text(n / 10);
        assert(decimal_text(n)[0] == decimal_text(n / 10)[0]);
    }
}

/// Whether the byte `b` is written as it is in the value of an option: an ASCII letter, a
/// digit, `-`, `.`, `_` or `~`.
pub open spec fn is_unreserved(b: u8) -> bool {
    ||| 0x30 <= b <= 0x39
    ||| 0x41 <= b <= 0x5a
    ||| 0x61 <= b <= 0x7a
    ||| b == 0x2d
    ||| b == 0x2e
    ||| b == 0x5f
    ||| b == 0x7e
}

/// The upper-case character for a hexadecimal digit.
pub open spec fn upper_hex_char(d: nat) -> char {
    if d < 10 {
        ('0' as u32 + d) as char
    } else {
        ('A' as u32 + d - 10) as char
    }
}

/// The byte `b` as the value of an option holds it: itself where it is unreserved, else
/// `%` and its two hexadecimal digits.
pub open spec fn percent_byte(b: u8) -> Seq<char> {
    if is_unreserved(b) {
        seq![b as char]
    } else {
        seq!['%', upper_hex_char((b / 16) as nat), upper_hex_char((b % 16) as nat)]
    }
}

/// The bytes `bytes` in percent-encoding.
pub open spec fn percent_text(bytes: Seq<u8>) -> Seq<char>
    decreases bytes.len(),
{
    if bytes.len() == 0 {
        Seq::empty()
    } else {
        percent_text(bytes.drop_last()) + percent_byte(bytes.last())
    }
}

/// The upper-case character for the hexadecimal digit `d`.
fn upper_hex(d: u8) -> (c: char)
    requires
        d < 16,
    ensures
        c == upper_hex_char(d as nat),
{
    if d < 10 {
        (48u8 + d) as char
    } else {
        (55u8 + d) as char
    }
}

/// Appends `bytes` in percent-encoding to `out`.
pub fn push_percent(out: &mut Vec<char>, bytes: &[u8])
    ensures
        final(out)@ == old(out)@ + percent_text(bytes@),
{
    let mut i: usize = 0;
    while i < bytes.len()
        invariant
            i <= bytes@.len(),
            out@ == old(out)@ + percent_text(bytes@.take(i as int)),
        decreases bytes.len() - i,
    {
        let b = bytes[i];
        proof {
            assert(bytes@.take(i + 1).drop_last() == bytes@.take(i as int));
            assert(bytes@.take(i + 1).last() == b);
        }
        let plain = (0x30 <= b && b <= 0x39) || (0x41 <= b && b <= 0x5a) || (0x61 <= b && b
            <= 0x7a) || b == 0x2d || b == 0x2e || b == 0x5f || b == 0x7e;
        if plain {
            out.push(b as char);
        } else {
            out.push('%');
            out.push(upper_hex(b / 16));
            out.push(upper_hex(b % 16));
        }
        i += 1;
        assert(out@ =~= old(out)@ + percent_text(bytes@.take(i as int)));
    }
    assert(bytes@.take(bytes@.len() as int) == bytes@);
}

} // verus!
