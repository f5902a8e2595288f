//! Text as sequences of characters.

use vstd::prelude::*;
use vstd::slice::slice_subrange;

verus! {

/// `String::push` appends one character.
pub assume_specification[ String::push ](s: &mut String, c: char)
    ensures
        final(s)@ == old(s)@.push(c),
;

/// The characters of a string.
pub fn chars_of(s: &str) -> (r: Vec<char>)
    ensures
        r@ == s@,
{
    let mut out: Vec<char> = Vec::new();
    for c in it: s.chars()
        invariant
            out@ == it.seq().take(it.index()),
            it.seq() == s@,
    {
        out.push(c);
        assert(it.seq().take(it.index() + 1) =~= it.seq().take(it.index()).push(c));
    }
    assert(s@.take(s@.len() as int) =~= s@);
    out
}

/// The string with the given characters.
pub fn string_of(s: &[char]) -> (r: String)
    ensures
        r@ == s@,
{
    let mut out = String::new();
    for i in 0..s.len()
        invariant
            out@ == s@.take(i as int),
    {
        out.push(s[i]);
        assert(s@.take(i + 1) =~= s@.take(i as int).push(s@[i as int]));
    }
    assert(s@.take(s@.len() as int) =~= s@);
    out
}

/// `pat` stands in `s` at position `i`.
pub open spec fn is_at(s: Seq<char>, pat: Seq<char>, i: int) -> bool {
    0 <= i && i + pat.len() <= s.len() && s.subrange(i, i + pat.len()) == pat
}

/// The first position from `from` on at which `pat` stands.
pub open spec fn first_from(s: Seq<char>, pat: Seq<char>, from: int) -> Option<int>
    decreases s.len() - from + 1,
{
    if from > s.len() || from < 0 {
        None
    } else if is_at(s, pat, from) {
        Some(from)
    } else {
        first_from(s, pat, from + 1)
    }
}

/// The last position before `to` at which `pat` stands.
pub open spec fn last_before(s: Seq<char>, pat: Seq<char>, to: int) -> Option<int>
    decreases to,
{
    if to <= 0 {
        None
    } else if is_at(s, pat, to - 1) {
        Some(to - 1)
    } else {
        last_before(s, pat, to - 1)
    }
}

/// The first position at which `pat` stands.
pub open spec fn first_at(s: Seq<char>, pat: Seq<char>) -> Option<int> {
    first_from(s, pat, 0)
}

/// The last position at which `pat` stands.
pub open spec fn last_at(s: Seq<char>, pat: Seq<char>) -> Option<int> {
    last_before(s, pat, s.len() as int + 1)
}

pub proof fn lemma_first_from(s: Seq<char>, pat: Seq<char>, from: int)
    requires
        0 <= from,
    ensures
        first_from(s, pat, from) matches Some(i) ==> from <= i && is_at(s, pat, i) && (forall|j: int|
            from <= j < i ==> !#[trigger] is_at(s, pat, j)),
        first_from(s, pat, from) is None ==> forall|j: int| from <= j ==> !#[trigger] is_at(s, pat, j),
    decreases s.len() - from + 1,
{
    if from <= s.len() && !is_at(s, pat, from) {
        lemma_first_from(s, pat, from + 1);
    }
}

pub proof fn lemma_last_before(s: Seq<char>, pat: Seq<char>, to: int)
    ensures
        last_before(s, pat, to) matches Some(i) ==> i < to && is_at(s, pat, i) && (forall|j: int|
            i < j < to ==> !#[trigger] is_at(s, pat, j)),
        last_before(s, pat, to) is None ==> forall|j: int| j < to ==> !#[trigger] is_at(s, pat, j),
    decreases to,
{
    if to > 0 && !is_at(s, pat, to - 1) {
        lemma_last_before(s, pat, to - 1);
    }
}

/// Whether two character sequences are the same.
pub fn same(a: &[char], b: &[char]) -> (r: bool)
    ensures
        r == (a@ == b@),
{
    if a.len() != b.len() {
        return false;
    }
    for i in 0..a.len()
        invariant
            a@.len() == b@.len(),
            forall|j: int| 0 <= j < i ==> a@[j] == b@[j],
    {
        if a[i] != b[i] {
            return false;
        }
    }
    assert(a@ =~= b@);
    true
}

/// Whether two strings are the same.
pub fn same_str(a: &str, b: &str) -> (r: bool)
    ensures
        r == (a@ == b@),
{
    let a = chars_of(a);
    let b = chars_of(b);
    same(a.as_slice(), b.as_slice())
}

/// Whether `pat` stands in `s` at position `i`.
pub fn at(s: &[char], pat: &[char], i: usize) -> (r: bool)
    ensures
        r == is_at(s@, pat@, i as int),
{
    if pat.len() > s.len() || i > s.len() - pat.len() {
        return false;
    }
    same(slice_subrange(s, i, i + pat.len()), pat)
}

/// The first position of `pat` in `s`.
pub fn find(s: &[char], pat: &[char]) -> (r: Option<usize>)
    ensures
        match r {
            Some(i) => first_at(s@, pat@) == Some(i as int),
            None => first_at(s@, pat@) is None,
        },
{
    let mut i: usize = 0;
    while i < s.len()
        invariant
            i <= s.len(),
            first_at(s@, pat@) == first_from(s@, pat@, i as int),
        decreases s.len() - i,
    {
        if at(s, pat, i) {
            return Some(i);
        }
        i += 1;
    }
    if at(s, pat, i) {
        return Some(i);
    }
    assert(first_from(s@, pat@, i + 1) is None);
    None
}

/// The last position of `pat` in `s`.
pub fn rfind(s: &[char], pat: &[char]) -> (r: Option<usize>)
    ensures
        match r {
            Some(i) => last_at(s@, pat@) == Some(i as int),
            None => last_at(s@, pat@) is None,
        },
{
    let mut i: usize = s.len();
    if at(s, pat, i) {
        return Some(i);
    }
    while i > 0
        invariant
            i <= s.len(),
            last_at(s@, pat@) == last_before(s@, pat@, i as int),
        decreases i,
    {
        i -= 1;
        if at(s, pat, i) {
            return Some(i);
        }
    }
    None
}

/// `c` is an ASCII letter or digit.
pub open spec fn is_alnum(c: char) -> bool {
    ('a' <= c <= 'z') || ('A' <= c <= 'Z') || ('0' <= c <= '9')
}

/// Whether `c` is an ASCII letter or digit.
pub fn alnum(c: char) -> (r: bool)
    ensures
        r == is_alnum(c),
{
    ('a' <= c && c <= 'z') || ('A' <= c && c <= 'Z') || ('0' <= c && c <= '9')
}

/// The decimal digit with value `d`.
pub open spec fn digit(d: int) -> char {
    (d + 48) as char
}

/// `n` in decimal, without leading zeros.
pub open spec fn decimal(n: nat) -> Seq<char>
    decreases n,
{
    if n < 10 {
        seq![digit(n as int)]
    } else {
        decimal(n / 10).push(digit((n % 10) as int))
    }
}

/// Appends `n` in decimal.
pub fn push_decimal(out: &mut String, n: u64)
    ensures
        final(out)@ == old(out)@ + decimal(n as nat),
    decreases n,
{
    let c = ((n % 10) as u8 + 48) as char;
    if n >= 10 {
        push_decimal(out, n / 10);
    }
    out.push(c);
    assert(out@ =~= old(out)@ + decimal(n as nat));
}

/// The first position of a text in another is one where it stands and before
/// which it stands nowhere.
pub proof fn law_first_position(s: Seq<char>, pat: Seq<char>, i: int)
    ensures
        first_at(s, pat) == Some(i) <==> 0 <= i <= s.len() - pat.len() && s.subrange(
            i,
            i + pat.len(),
        ) == pat && forall|j: int|
            0 <= j < i ==> #[trigger] s.subrange(j, j + pat.len()) != pat,
        first_at(s, pat) is None <==> forall|j: int|
            0 <= j <= s.len() - pat.len() ==> #[trigger] s.subrange(j, j + pat.len()) != pat,
{
    lemma_first_from(s, pat, 0);
    if let Some(k) = first_at(s, pat) {
        assert(s.subrange(k, k + pat.len()) == pat);
        assert forall|j: int| 0 <= j < k implies #[trigger] s.subrange(j, j + pat.len())
            != pat by {
            assert(!is_at(s, pat, j));
        }
    } else {
        assert forall|j: int| 0 <= j <= s.len() - pat.len() implies #[trigger] s.subrange(
            j,
            j + pat.len(),
        ) != pat by {
            assert(!is_at(s, pat, j));
        }
    }
}

/// The last position of a text in another is one where it stands and behind which
/// it stands nowhere.
pub proof fn law_last_position(s: Seq<char>, pat: Seq<char>, i: int)
    ensures
        last_at(s, pat) == Some(i) <==> 0 <= i <= s.len() - pat.len() && s.subrange(
            i,
            i + pat.len(),
        ) == pat && forall|j: int|
            i < j <= s.len() - pat.len() ==> #[trigger] s.subrange(j, j + pat.len()) != pat,
        last_at(s, pat) is None <==> forall|j: int|
            0 <= j <= s.len() - pat.len() ==> #[trigger] s.subrange(j, j + pat.len()) != pat,
{
    lemma_last_before(s, pat, s.len() as int + 1);
    if let Some(k) = last_at(s, pat) {
        assert(s.subrange(k, k + pat.len()) == pat);
        assert forall|j: int| k < j <= s.len() - pat.len() implies #[trigger] s.subrange(
            j,
            j + pat.len(),
        ) != pat by {
            assert(!is_at(s, pat, j));
        }
    } else {
        assert forall|j: int| 0 <= j <= s.len() - pat.len() implies #[trigger] s.subrange(
            j,
            j + pat.len(),
        ) != pat by {
            assert(!is_at(s, pat, j));
        }
    }
}

/// The number that decimal digits stand for.
pub open spec fn value_of(s: Seq<char>) -> int
    decreases s.len(),
{
    if s.len() == 0 {
        0
    } else {
        value_of(s.drop_last()) * 10 + (s.last() as int - '0' as int)
    }
}

/// A number in decimal is made of digits that stand for it, without a zero in
/// front of others.
pub proof fn law_decimal_stands_for_the_number(n: nat)
    ensures
        value_of(decimal(n)) == n,
        decimal(n).len() > 0,
        forall|i: int| 0 <= i < decimal(n).len() ==> '0' <= #[trigger] decimal(n)[i] <= '9',
        decimal(n).len() > 1 ==> decimal(n)[0] != '0',
    decreases n,
{
    reveal_with_fuel(value_of, 2);
    if n < 10 {
        assert(decimal(n).drop_last() =~= Seq::<char>::empty());
        assert(digit(n as int) as int == n + 48);
    } else {
        law_decimal_stands_for_the_number(n / 10);
        let before = decimal(n / 10);
        assert(decimal(n).drop_last() =~= before);
        assert(digit((n % 10) as int) as int == n % 10 + 48);
        assert(decimal(n)[0] == before[0]);
        if before.len() == 1 {
            assert(n / 10 > 0);
            assert(before[0] as int == value_of(before) + 48) by {
                assert(before.drop_last() =~= Seq::<char>::empty());
            }
        }
    }
}

} // verus!
