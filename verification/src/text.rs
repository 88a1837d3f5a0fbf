//! Text as sequences of characters: the searches and cuts that the URL and
//! dependency rules need.

use vstd::prelude::*;

verus! {

/// Whether `char::is_whitespace` holds of the character, that is whether
/// it has the Unicode property White_Space.
pub uninterp spec fn is_whitespace(c: char) -> bool;

/// Calls `char::is_whitespace`. Trusted: the result is the named property.
#[verifier::external_body]
fn char_is_whitespace(c: char) -> (r: bool)
    ensures
        r == is_whitespace(c),
{
    c.is_whitespace()
}

/// Whether the text is empty once trimmed: it holds white space only.
pub open spec fn is_blank(s: Seq<char>) -> bool {
    forall|i: int| 0 <= i < s.len() ==> is_whitespace(#[trigger] s[i])
}

/// Whether `pat` stands in `s` at position `at`.
pub open spec fn occurs_at(s: Seq<char>, at: int, pat: Seq<char>) -> bool {
    0 <= at && at + pat.len() <= s.len() && s.subrange(at, at + pat.len()) == pat
}

/// Whether `s` begins with `pat`.
pub open spec fn has_prefix(s: Seq<char>, pat: Seq<char>) -> bool {
    occurs_at(s, 0, pat)
}

/// The first position at or after `from` at which `pat` stands in `s`.
pub open spec fn find_from(s: Seq<char>, pat: Seq<char>, from: int) -> Option<int>
    decreases s.len() + 1 - from,
{
    if from < 0 || from > s.len() || from + pat.len() > s.len() {
        None
    } else if occurs_at(s, from, pat) {
        Some(from)
    } else {
        find_from(s, pat, from + 1)
    }
}

/// The first position at which `pat` stands in `s`.
pub open spec fn find_first(s: Seq<char>, pat: Seq<char>) -> Option<int> {
    find_from(s, pat, 0)
}

/// The last position of the character `c` in the first `upto` characters
/// of `s`.
pub open spec fn find_last_char(s: Seq<char>, c: char, upto: int) -> Option<int>
    decreases upto,
{
    if upto <= 0 || upto > s.len() {
        None
    } else if s[upto - 1] == c {
        Some(upto - 1)
    } else {
        find_last_char(s, c, upto - 1)
    }
}

/// `find_from` gives the least position at which the pattern stands, and
/// nothing only where it stands nowhere.
pub proof fn lemma_find_from(s: Seq<char>, pat: Seq<char>, from: int)
    requires
        0 <= from,
    ensures
        find_from(s, pat, from) matches Some(i) ==> from <= i && occurs_at(s, i, pat) && forall|j: int|
            from <= j < i ==> !occurs_at(s, j, pat),
        find_from(s, pat, from) is None ==> forall|j: int| from <= j ==> !occurs_at(s, j, pat),
    decreases s.len() + 1 - from,
{
    if from > s.len() || from + pat.len() > s.len() {
    } else if occurs_at(s, from, pat) {
    } else {
        lemma_find_from(s, pat, from + 1);
    }
}

/// The characters of a text, in order.
pub fn chars_of(s: &str) -> (r: Vec<char>)
    ensures
        r@ == s@,
{
    let mut out: Vec<char> = Vec::new();
    for c in it: s.chars()
        invariant
            out@ == it.seq().take(it.index() as int),
    {
        out.push(c);
    }
    out
}

/// The text made of the characters `s[from..to]`.
pub fn text_of(s: &Vec<char>, from: usize, to: usize) -> (r: String)
    requires
        from <= to <= s@.len(),
    ensures
        r@ == s@.subrange(from as int, to as int),
{
    let mut out = String::new();
    let mut i: usize = from;
    assert(s@.subrange(from as int, from as int) =~= Seq::<char>::empty());
    while i < to
        invariant
            from <= i <= to <= s@.len(),
            out@ == s@.subrange(from as int, i as int),
        decreases to - i,
    {
        push_char(&mut out, s[i]);
        assert(s@.subrange(from as int, i + 1) =~= s@.subrange(from as int, i as int).push(s@[i as int]));
        i += 1;
    }
    out
}

/// Calls `String::push`. Trusted: the character is appended.
#[verifier::external_body]
fn push_char(s: &mut String, c: char)
    ensures
        final(s)@ == old(s)@.push(c),
{
    s.push(c)
}

/// Whether the text holds white space only.
pub fn blank(s: &Vec<char>) -> (r: bool)
    ensures
        r == is_blank(s@),
{
    let n = s.len();
    let mut i: usize = 0;
    while i < n
        invariant
            n == s@.len(),
            i <= n,
            forall|j: int| 0 <= j < i ==> is_whitespace(#[trigger] s@[j]),
        decreases n - i,
    {
        if !char_is_whitespace(s[i]) {
            return false;
        }
        i += 1;
    }
    true
}

/// Whether `pat` stands in `s` at position `at`.
pub fn matches_at(s: &Vec<char>, at: usize, pat: &Vec<char>) -> (r: bool)
    ensures
        r == occurs_at(s@, at as int, pat@),
{
    let n = s.len();
    let m = pat.len();
    if at > n || m > n - at {
        return false;
    }
    let mut i: usize = 0;
    while i < m
        invariant
            n == s@.len(),
            m == pat@.len(),
            at + m <= n,
            i <= m,
            forall|j: int| 0 <= j < i ==> s@[at + j] == pat@[j],
        decreases m - i,
    {
        if s[at + i] != pat[i] {
            assert(s@.subrange(at as int, at + m)[i as int] != pat@[i as int]);
            return false;
        }
        i += 1;
    }
    assert(s@.subrange(at as int, at + m) =~= pat@);
    true
}

/// The first position at which `pat` stands in `s`.
pub fn find(s: &Vec<char>, pat: &Vec<char>) -> (r: Option<usize>)
    ensures
        r is Some <==> find_first(s@, pat@) is Some,
        r matches Some(i) ==> find_first(s@, pat@) == Some(i as int) && occurs_at(s@, i as int, pat@),
{
    let n = s.len();
    let m = pat.len();
    if m > n {
        return None;
    }
    let limit = n - m;
    let mut i: usize = 0;
    while i < limit
        invariant
            n == s@.len(),
            m == pat@.len(),
            limit == n - m,
            i <= limit,
            find_first(s@, pat@) == find_from(s@, pat@, i as int),
        decreases limit - i,
    {
        if matches_at(s, i, pat) {
            return Some(i);
        }
        i += 1;
    }
    if matches_at(s, limit, pat) {
        Some(limit)
    } else {
        assert(find_from(s@, pat@, limit + 1) is None);
        None
    }
}

/// The last position of the character in the text.
pub fn find_last(s: &Vec<char>, c: char) -> (r: Option<usize>)
    ensures
        r is Some <==> find_last_char(s@, c, s@.len() as int) is Some,
        r matches Some(i) ==> find_last_char(s@, c, s@.len() as int) == Some(i as int) && i < s@.len()
            && s@[i as int] == c,
{
    let mut i: usize = s.len();
    while i > 0
        invariant
            i <= s@.len(),
            find_last_char(s@, c, s@.len() as int) == find_last_char(s@, c, i as int),
        decreases i,
    {
        if s[i - 1] == c {
            return Some(i - 1);
        }
        i -= 1;
    }
    None
}

/// Appends the characters of `tail` to `out`.
pub fn push_all(out: &mut Vec<char>, tail: &Vec<char>)
    ensures
        final(out)@ == old(out)@ + tail@,
{
    let n = tail.len();
    let mut i: usize = 0;
    assert(old(out)@ + tail@.take(0) =~= old(out)@);
    while i < n
        invariant
            n == tail@.len(),
            i <= n,
            out@ == old(out)@ + tail@.take(i as int),
        decreases n - i,
    {
        out.push(tail[i]);
        assert(old(out)@ + tail@.take(i + 1) =~= (old(out)@ + tail@.take(i as int)).push(tail@[i as int]));
        i += 1;
    }
    assert(tail@.take(n as int) =~= tail@);
}

/// The character of a decimal digit.
pub open spec fn digit_char(d: nat) -> char {
    (0x30 + d) as char
}

/// A number in decimal digits, without leading zeros.
pub open spec fn decimal_text(n: nat) -> Seq<char>
    decreases n,
{
    if n < 10 {
        seq![digit_char(n)]
    } else {
        decimal_text(n / 10).push(digit_char(n % 10))
    }
}

/// A number in decimal digits.
pub fn decimal(n: u64) -> (r: Vec<char>)
    ensures
        r@ == decimal_text(n as nat),
{
    let mut low: Vec<char> = Vec::new();
    let mut m: u64 = n;
    assert(decimal_text(n as nat) =~= decimal_text(m as nat) + Seq::new(0, |k: int| low@[low@.len() - 1 - k]));
    while m >= 10
        invariant
            decimal_text(n as nat) == decimal_text(m as nat) + Seq::new(
                low@.len(),
                |k: int| low@[low@.len() - 1 - k],
            ),
        decreases m,
    {
        let ghost before = low@;
        let d: u8 = (m % 10) as u8;
        low.push((0x30u8 + d) as char);
        assert(decimal_text(m as nat) == decimal_text((m / 10) as nat).push(digit_char((m % 10) as nat)));
        assert(decimal_text((m / 10) as nat).push(digit_char((m % 10) as nat)) + Seq::new(
            before.len(),
            |k: int| before[before.len() - 1 - k],
        ) =~= decimal_text((m / 10) as nat) + Seq::new(low@.len(), |k: int| low@[low@.len() - 1 - k]));
        m = m / 10;
    }
    let mut out: Vec<char> = Vec::new();
    out.push((0x30u8 + m as u8) as char);
    let n_low = low.len();
    let mut k: usize = 0;
    while k < n_low
        invariant
            n_low == low@.len(),
            k <= n_low,
            out@.len() == k + 1,
            out@[0] == digit_char(m as nat),
            forall|j: int| 1 <= j <= k ==> #[trigger] out@[j] == low@[n_low - j],
        decreases n_low - k,
    {
        out.push(low[n_low - 1 - k]);
        k += 1;
    }
    assert(out@ =~= decimal_text(m as nat) + Seq::new(low@.len(), |k: int| low@[low@.len() - 1 - k]));
    out
}

} // verus!
