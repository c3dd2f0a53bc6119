//! Character-level text utilities with exact specifications.
//!
//! Strings are modelled as `Seq<char>`; the executable functions work on
//! `&[char]` so that positions are character positions throughout.

use vstd::prelude::*;
use vstd::std_specs::iter::IteratorSpec;

verus! {

broadcast use vstd::string::group_string_axioms;

/// Unicode `White_Space`, listed by code point.
pub open spec fn is_white_space(c: char) -> bool {
    let u = c as u32;
    ||| 0x09 <= u <= 0x0D
    ||| u == 0x20
    ||| u == 0x85
    ||| u == 0xA0
    ||| u == 0x1680
    ||| 0x2000 <= u <= 0x200A
    ||| u == 0x2028
    ||| u == 0x2029
    ||| u == 0x202F
    ||| u == 0x205F
    ||| u == 0x3000
}

/// `s` without its leading white space.
pub open spec fn skip_leading_space(s: Seq<char>) -> Seq<char>
    decreases s.len(),
{
    if s.len() > 0 && is_white_space(s[0]) {
        skip_leading_space(s.drop_first())
    } else {
        s
    }
}

/// `s` without its trailing white space.
pub open spec fn skip_trailing_space(s: Seq<char>) -> Seq<char>
    decreases s.len(),
{
    if s.len() > 0 && is_white_space(s.last()) {
        skip_trailing_space(s.drop_last())
    } else {
        s
    }
}

/// `s` without leading and trailing white space.
pub open spec fn trimmed(s: Seq<char>) -> Seq<char> {
    skip_trailing_space(skip_leading_space(s))
}

/// `pattern` occurs in `s` starting at position `at`.
pub open spec fn occurs_at(s: Seq<char>, pattern: Seq<char>, at: int) -> bool {
    &&& 0 <= at
    &&& at + pattern.len() <= s.len()
    &&& s.subrange(at, at + pattern.len()) == pattern
}

/// `pattern` occurs somewhere in `s`.
pub open spec fn contains(s: Seq<char>, pattern: Seq<char>) -> bool {
    exists|at: int| occurs_at(s, pattern, at)
}

/// `at` is the first position where `pattern` occurs in `s`.
pub open spec fn first_occurrence(s: Seq<char>, pattern: Seq<char>, at: int) -> bool {
    &&& occurs_at(s, pattern, at)
    &&& forall|j: int| 0 <= j < at ==> !occurs_at(s, pattern, j)
}

/// `at` is the first position of the character `c` in `s`.
pub open spec fn first_char(s: Seq<char>, c: char, at: int) -> bool {
    &&& 0 <= at < s.len()
    &&& s[at] == c
    &&& forall|j: int| 0 <= j < at ==> s[j] != c
}

/// `at` is the last position of the character `c` in `s`.
pub open spec fn last_char(s: Seq<char>, c: char, at: int) -> bool {
    &&& 0 <= at < s.len()
    &&& s[at] == c
    &&& forall|j: int| at < j < s.len() ==> s[j] != c
}

/// The first position of `c` in `s`, if it occurs.
pub open spec fn first_position(s: Seq<char>, c: char) -> Option<int> {
    if exists|i: int| first_char(s, c, i) {
        Some(choose|i: int| first_char(s, c, i))
    } else {
        None
    }
}

/// The last position of `c` in `s`, if it occurs.
pub open spec fn last_position(s: Seq<char>, c: char) -> Option<int> {
    if exists|i: int| last_char(s, c, i) {
        Some(choose|i: int| last_char(s, c, i))
    } else {
        None
    }
}

/// The first position where `pattern` occurs in `s`, if it occurs.
pub open spec fn find_position(s: Seq<char>, pattern: Seq<char>) -> Option<int> {
    if exists|i: int| first_occurrence(s, pattern, i) {
        Some(choose|i: int| first_occurrence(s, pattern, i))
    } else {
        None
    }
}

/// The value of a sequence of decimal digits, most significant first.
pub open spec fn decimal_value(digits: Seq<char>) -> nat
    decreases digits.len(),
{
    if digits.len() == 0 {
        0
    } else {
        decimal_value(digits.drop_last()) * 10 + digit_value(digits.last())
    }
}

/// The value of the decimal digit `c`.
pub open spec fn digit_value(c: char) -> nat
    recommends
        '0' <= c <= '9',
{
    (c as u32 - '0' as u32) as nat
}

/// Every character of `s` is an ASCII decimal digit.
pub open spec fn all_digits(s: Seq<char>) -> bool {
    forall|i: int| 0 <= i < s.len() ==> '0' <= #[trigger] s[i] <= '9'
}

/// What parsing `s` as an unsigned 16-bit decimal number gives: an optional
/// `+`, then at least one digit, the value at most 65535.
pub open spec fn parse_u16(s: Seq<char>) -> Option<u16> {
    let digits = if s.len() > 0 && s[0] == '+' {
        s.drop_first()
    } else {
        s
    };
    if digits.len() > 0 && all_digits(digits) && decimal_value(digits) <= 0xFFFF {
        Some(decimal_value(digits) as u16)
    } else {
        None
    }
}

/// The decimal digits of `n`, most significant first, without leading zeros.
pub open spec fn decimal_digits(n: nat) -> Seq<char>
    decreases n,
{
    if n < 10 {
        seq![digit_char(n)]
    } else {
        decimal_digits(n / 10).push(digit_char(n % 10))
    }
}

/// The character of the digit `d`.
pub open spec fn digit_char(d: nat) -> char
    recommends
        d < 10,
{
    if d == 0 {
        '0'
    } else if d == 1 {
        '1'
    } else if d == 2 {
        '2'
    } else if d == 3 {
        '3'
    } else if d == 4 {
        '4'
    } else if d == 5 {
        '5'
    } else if d == 6 {
        '6'
    } else if d == 7 {
        '7'
    } else if d == 8 {
        '8'
    } else {
        '9'
    }
}

/// A first position of a character is the first position.
pub proof fn lemma_first_position(s: Seq<char>, c: char, at: int)
    requires
        first_char(s, c, at),
    ensures
        first_position(s, c) == Some(at),
{
    let k = choose|k: int| first_char(s, c, k);
    assert(first_char(s, c, k));
    if k < at {
        assert(s[k] == c);
    } else if at < k {
        assert(s[at] == c);
    }
}

/// A character that does not occur has no first and no last position.
pub proof fn lemma_no_position(s: Seq<char>, c: char)
    requires
        !s.contains(c),
    ensures
        first_position(s, c) is None,
        last_position(s, c) is None,
{
    if exists|k: int| first_char(s, c, k) {
        let k = choose|k: int| first_char(s, c, k);
        assert(s[k] == c);
    }
    if exists|k: int| last_char(s, c, k) {
        let k = choose|k: int| last_char(s, c, k);
        assert(s[k] == c);
    }
}

/// A last position of a character is the last position.
pub proof fn lemma_last_position(s: Seq<char>, c: char, at: int)
    requires
        last_char(s, c, at),
    ensures
        last_position(s, c) == Some(at),
{
    let k = choose|k: int| last_char(s, c, k);
    assert(last_char(s, c, k));
    if k < at {
        assert(s[at] == c);
    } else if at < k {
        assert(s[k] == c);
    }
}

/// A first occurrence of a pattern is the first occurrence.
pub proof fn lemma_find_position(s: Seq<char>, pattern: Seq<char>, at: int)
    requires
        first_occurrence(s, pattern, at),
    ensures
        find_position(s, pattern) == Some(at),
{
    let k = choose|k: int| first_occurrence(s, pattern, k);
    assert(first_occurrence(s, pattern, k));
    if k < at {
        assert(occurs_at(s, pattern, k));
    } else if at < k {
        assert(occurs_at(s, pattern, at));
    }
}

/// Whether `c` is white space.
pub fn char_is_whitespace(c: char) -> (white: bool)
    ensures
        white == is_white_space(c),
{
    let u: u32 = c as u32;
    (0x09 <= u && u <= 0x0D) || u == 0x20 || u == 0x85 || u == 0xA0 || u == 0x1680 || (0x2000 <= u
        && u <= 0x200A) || u == 0x2028 || u == 0x2029 || u == 0x202F || u == 0x205F || u == 0x3000
}

/// The characters of `s`, in order.
pub fn chars_of(s: &str) -> (chars: Vec<char>)
    ensures
        chars@ == s@,
{
    let mut chars: Vec<char> = Vec::new();
    for c in it: s.chars()
        invariant
            chars@ == it.seq().take(it.index() as int),
            it.seq() == s@,
    {
        chars.push(c);
    }
    chars
}

/// `String::from_iter` over a slice of characters: the string that holds
/// exactly these characters, in order.
#[verifier::external_body]
pub(crate) fn string_of(chars: &[char]) -> (s: String)
    ensures
        s@ == chars@,
{
    String::from_iter(chars.iter())
}

/// The bounds of `s` without leading and trailing white space.
pub fn trim_range(s: &[char]) -> (range: (usize, usize))
    ensures
        range.0 <= range.1 <= s.len(),
        s@.subrange(range.0 as int, range.1 as int) == trimmed(s@),
{
    let mut lo: usize = 0;
    assert(s@.subrange(0, s.len() as int) == s@);
    while lo < s.len() && char_is_whitespace(s[lo])
        invariant
            lo <= s.len(),
            skip_leading_space(s@) == skip_leading_space(s@.subrange(lo as int, s.len() as int)),
        decreases s.len() - lo,
    {
        proof {
            let cur = s@.subrange(lo as int, s.len() as int);
            assert(cur.drop_first() == s@.subrange(lo + 1, s.len() as int));
        }
        lo += 1;
    }
    let mut hi: usize = s.len();
    while hi > lo && char_is_whitespace(s[hi - 1])
        invariant
            lo <= hi <= s.len(),
            skip_leading_space(s@) == s@.subrange(lo as int, s.len() as int),
            trimmed(s@) == skip_trailing_space(s@.subrange(lo as int, hi as int)),
        decreases hi,
    {
        proof {
            let cur = s@.subrange(lo as int, hi as int);
            assert(cur.drop_last() == s@.subrange(lo as int, hi - 1));
        }
        hi -= 1;
    }
    (lo, hi)
}

/// Whether `pattern` occurs in `s` at position `at`.
pub fn matches_at(s: &[char], at: usize, pattern: &[char]) -> (found: bool)
    ensures
        found == occurs_at(s@, pattern@, at as int),
{
    if pattern.len() > s.len() || at > s.len() - pattern.len() {
        return false;
    }
    let mut i: usize = 0;
    while i < pattern.len()
        invariant
            i <= pattern.len(),
            at + pattern.len() <= s.len(),
            forall|j: int| 0 <= j < i ==> s@[at + j] == pattern@[j],
        decreases pattern.len() - i,
    {
        if s[at + i] != pattern[i] {
            proof {
                let sub = s@.subrange(at as int, at + pattern.len());
                assert(sub[i as int] == s@[at + i]);
            }
            return false;
        }
        i += 1;
    }
    assert(s@.subrange(at as int, at + pattern.len()) =~= pattern@);
    true
}

/// Whether `s` begins with `pattern`.
pub fn starts_with(s: &[char], pattern: &[char]) -> (found: bool)
    ensures
        found == occurs_at(s@, pattern@, 0),
{
    matches_at(s, 0, pattern)
}

/// The first position at or after `from` where `pattern` occurs in `s`.
pub fn find_from(s: &[char], from: usize, pattern: &[char]) -> (at: Option<usize>)
    ensures
        match at {
            Some(i) => from <= i && occurs_at(s@, pattern@, i as int) && forall|j: int|
                from <= j < i ==> !occurs_at(s@, pattern@, j),
            None => forall|j: int| from <= j ==> !occurs_at(s@, pattern@, j),
        },
{
    if from > s.len() {
        return None;
    }
    let mut i: usize = from;
    loop
        invariant
            from <= i <= s.len(),
            forall|j: int| from <= j < i ==> !occurs_at(s@, pattern@, j),
        decreases s.len() - i,
    {
        if matches_at(s, i, pattern) {
            return Some(i);
        }
        if i == s.len() {
            return None;
        }
        i += 1;
    }
}

/// The first position where `pattern` occurs in `s`.
pub fn find(s: &[char], pattern: &[char]) -> (at: Option<usize>)
    ensures
        at matches Some(i) ==> first_occurrence(s@, pattern@, i as int) && find_position(
            s@,
            pattern@,
        ) == Some(i as int),
        at is None ==> !contains(s@, pattern@) && find_position(s@, pattern@) is None,
{
    let at = find_from(s, 0, pattern);
    proof {
        match at {
            Some(i) => lemma_find_position(s@, pattern@, i as int),
            None => {
                assert forall|j: int| !occurs_at(s@, pattern@, j) by {}
            },
        }
    }
    at
}

/// Whether `pattern` occurs in `s`.
pub fn has(s: &[char], pattern: &[char]) -> (found: bool)
    ensures
        found == contains(s@, pattern@),
{
    find(s, pattern).is_some()
}

/// The first position of `c` in `s`.
pub fn find_char(s: &[char], c: char) -> (at: Option<usize>)
    ensures
        at matches Some(i) ==> first_char(s@, c, i as int) && first_position(s@, c) == Some(
            i as int,
        ),
        at is None ==> !s@.contains(c) && first_position(s@, c) is None,
{
    let mut i: usize = 0;
    while i < s.len()
        invariant
            i <= s.len(),
            forall|j: int| 0 <= j < i ==> s@[j] != c,
        decreases s.len() - i,
    {
        if s[i] == c {
            proof {
                lemma_first_position(s@, c, i as int);
            }
            return Some(i);
        }
        i += 1;
    }
    proof {
        lemma_no_position(s@, c);
    }
    None
}

/// The last position of `c` in `s`.
pub fn rfind_char(s: &[char], c: char) -> (at: Option<usize>)
    ensures
        at matches Some(i) ==> last_char(s@, c, i as int) && last_position(s@, c) == Some(
            i as int,
        ),
        at is None ==> !s@.contains(c) && last_position(s@, c) is None,
{
    let mut i: usize = s.len();
    while i > 0
        invariant
            i <= s.len(),
            forall|j: int| i <= j < s.len() ==> s@[j] != c,
        decreases i,
    {
        i -= 1;
        if s[i] == c {
            proof {
                lemma_last_position(s@, c, i as int);
            }
            return Some(i);
        }
    }
    proof {
        lemma_no_position(s@, c);
    }
    None
}

/// A prefix of a digit sequence has no larger a value than the whole.
pub proof fn lemma_decimal_value_prefix(digits: Seq<char>, k: int)
    requires
        0 <= k <= digits.len(),
    ensures
        decimal_value(digits.take(k)) <= decimal_value(digits),
    decreases digits.len(),
{
    if k == digits.len() {
        assert(digits.take(k) == digits);
    } else {
        lemma_decimal_value_prefix(digits.drop_last(), k);
        assert(digits.drop_last().take(k) == digits.take(k));
    }
}

/// Parses an unsigned 16-bit decimal number.
pub fn parse_port(s: &[char]) -> (port: Option<u16>)
    ensures
        port == parse_u16(s@),
{
    let start: usize = if s.len() > 0 && s[0] == '+' {
        1
    } else {
        0
    };
    let ghost digits = s@.subrange(start as int, s.len() as int);
    assert(digits == if s@.len() > 0 && s@[0] == '+' {
        s@.drop_first()
    } else {
        s@
    });
    if start == s.len() {
        return None;
    }
    let mut value: u32 = 0;
    let mut i: usize = start;
    while i < s.len()
        invariant
            start <= i <= s.len(),
            digits == s@.subrange(start as int, s.len() as int),
            digits == if s@.len() > 0 && s@[0] == '+' {
                s@.drop_first()
            } else {
                s@
            },
            all_digits(digits.take(i - start)),
            value == decimal_value(digits.take(i - start)),
            value <= 0xFFFF,
        decreases s.len() - i,
    {
        let c = s[i];
        let ghost next_prefix = digits.take(i - start + 1);
        proof {
            assert(next_prefix.drop_last() == digits.take(i - start));
            assert(next_prefix.last() == c);
            assert(digits[i - start] == c);
        }
        if c < '0' || c > '9' {
            assert(!('0' <= digits[i - start] <= '9'));
            return None;
        }
        let d: u32 = c as u32 - '0' as u32;
        let next: u32 = value * 10 + d;
        assert(next == decimal_value(next_prefix));
        if next > 0xFFFF {
            proof {
                lemma_decimal_value_prefix(digits, i - start + 1);
            }
            return None;
        }
        value = next;
        i += 1;
    }
    assert(digits.take(i - start) == digits);
    Some(value as u16)
}

/// Appends the decimal digits of `n` to `out`.
pub fn push_decimal(out: &mut Vec<char>, n: u64)
    ensures
        final(out)@ == old(out)@ + decimal_digits(n as nat),
    decreases n,
{
    if n >= 10 {
        push_decimal(out, n / 10);
    }
    let d: u64 = n % 10;
    let c: char = if d == 0 {
        '0'
    } else if d == 1 {
        '1'
    } else if d == 2 {
        '2'
    } else if d == 3 {
        '3'
    } else if d == 4 {
        '4'
    } else if d == 5 {
        '5'
    } else if d == 6 {
        '6'
    } else if d == 7 {
        '7'
    } else if d == 8 {
        '8'
    } else {
        '9'
    };
    out.push(c);
    proof {
        if n < 10 {
            assert(final(out)@ == old(out)@ + seq![c]);
        } else {
            assert(final(out)@ == old(out)@ + decimal_digits((n / 10) as nat).push(c));
        }
    }
}

/// Text that neither begins nor ends with white space is its own trimmed
/// form.
pub proof fn lemma_trimmed_identity(s: Seq<char>)
    requires
        s.len() > 0 ==> !is_white_space(s[0]) && !is_white_space(s.last()),
    ensures
        trimmed(s) == s,
{
}

/// The digits of a number are digits, and they denote the number.
pub proof fn lemma_decimal_digits(n: nat)
    ensures
        decimal_digits(n).len() > 0,
        all_digits(decimal_digits(n)),
        decimal_value(decimal_digits(n)) == n,
    decreases n,
{
    if n < 10 {
        let d = decimal_digits(n);
        assert(d.drop_last() == Seq::<char>::empty());
        assert(decimal_value(d.drop_last()) == 0);
    } else {
        lemma_decimal_digits(n / 10);
        let d = decimal_digits(n);
        assert(d.drop_last() == decimal_digits(n / 10));
        assert(d.last() == digit_char(n % 10));
    }
}

/// Parsing the digits of a 16-bit number gives the number back.
pub proof fn lemma_parse_decimal_digits(n: u16)
    ensures
        parse_u16(decimal_digits(n as nat)) == Some(n),
{
    lemma_decimal_digits(n as nat);
    assert('0' <= decimal_digits(n as nat)[0] <= '9');
}

proof fn lemma_skip_leading_is_part(s: Seq<char>)
    ensures
        forall|c: char| skip_leading_space(s).contains(c) ==> s.contains(c),
    decreases s.len(),
{
    if s.len() > 0 && is_white_space(s[0]) {
        lemma_skip_leading_is_part(s.drop_first());
        assert forall|c: char| skip_leading_space(s).contains(c) implies s.contains(c) by {
            assert(s.drop_first().contains(c));
            let i = choose|i: int| 0 <= i < s.drop_first().len() && s.drop_first()[i] == c;
            assert(s[i + 1] == c);
        }
    }
}

proof fn lemma_skip_trailing_is_part(s: Seq<char>)
    ensures
        forall|c: char| skip_trailing_space(s).contains(c) ==> s.contains(c),
    decreases s.len(),
{
    if s.len() > 0 && is_white_space(s.last()) {
        lemma_skip_trailing_is_part(s.drop_last());
        assert forall|c: char| skip_trailing_space(s).contains(c) implies s.contains(c) by {
            assert(s.drop_last().contains(c));
            let i = choose|i: int| 0 <= i < s.drop_last().len() && s.drop_last()[i] == c;
            assert(s[i] == c);
        }
    }
}

/// Trimming adds nothing: every character of the trimmed text is a
/// character of the text.
pub proof fn lemma_trimmed_is_part(s: Seq<char>)
    ensures
        forall|i: int| 0 <= i < trimmed(s).len() ==> s.contains(#[trigger] trimmed(s)[i]),
{
    let mid = skip_leading_space(s);
    lemma_skip_leading_is_part(s);
    lemma_skip_trailing_is_part(mid);
    assert forall|i: int| 0 <= i < trimmed(s).len() implies s.contains(
        #[trigger] trimmed(s)[i],
    ) by {
        assert(trimmed(s).contains(trimmed(s)[i]));
        assert(mid.contains(trimmed(s)[i]));
    }
}

/// Dropping trailing white space leaves a prefix.
pub proof fn lemma_skip_trailing_is_prefix(s: Seq<char>)
    ensures
        occurs_at(s, skip_trailing_space(s), 0),
    decreases s.len(),
{
    let kept = skip_trailing_space(s);
    if s.len() > 0 && is_white_space(s.last()) {
        lemma_skip_trailing_is_prefix(s.drop_last());
        assert(s.subrange(0, kept.len() as int) == s.drop_last().subrange(0, kept.len() as int));
    } else {
        assert(s.subrange(0, s.len() as int) == s);
    }
}

/// The first `limit` characters of `text` behind its leading white space,
/// or all of them if there are fewer. The rest of the text is not looked
/// at.
pub fn leading_chars(text: &str, limit: usize) -> (head: Vec<char>)
    ensures
        head@.len() <= limit,
        occurs_at(skip_leading_space(text@), head@, 0),
        head@.len() == limit || head@ == skip_leading_space(text@),
{
    let mut it = text.chars();
    let mut head: Vec<char> = Vec::new();
    let mut skipping = true;
    loop
        invariant
            head@.len() <= limit,
            it.obeys_prophetic_iter_laws(),
            it.decrease() is Some,
            skipping ==> head@.len() == 0 && skip_leading_space(text@) == skip_leading_space(
                it.remaining(),
            ),
            !skipping ==> head@ + it.remaining() == skip_leading_space(text@),
        decreases it.decrease()->0,
    {
        if head.len() >= limit {
            proof {
                let rest = skip_leading_space(text@);
                if skipping {
                    assert(rest.subrange(0, 0) == head@);
                } else {
                    assert(rest.subrange(0, head@.len() as int) == head@);
                }
            }
            return head;
        }
        let ghost remaining = it.remaining();
        match it.next() {
            Some(c) => {
                proof {
                    assert(remaining.drop_first() == it.remaining());
                }
                if !skipping || !char_is_whitespace(c) {
                    proof {
                        if skipping {
                            assert(skip_leading_space(remaining) == remaining);
                        }
                        assert(remaining == seq![c] + it.remaining());
                    }
                    skipping = false;
                    head.push(c);
                }
            },
            None => {
                proof {
                    let rest = skip_leading_space(text@);
                    if skipping {
                        assert(rest == remaining);
                        assert(rest.subrange(0, 0) == head@);
                    } else {
                        assert(rest == head@);
                        assert(rest.subrange(0, rest.len() as int) == rest);
                    }
                }
                return head;
            },
        }
    }
}

} // verus!
