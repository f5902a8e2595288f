//! What the system says of a process.

use vstd::prelude::*;
use vstd::slice::slice_subrange;

use crate::text::{chars_of, last_at, rfind, same_str};

verus! {

/// A white space character.
pub open spec fn is_space(c: char) -> bool {
    let n = c as u32;
    ||| 9 <= n <= 13
    ||| n == 32
    ||| n == 0x85
    ||| n == 0xa0
    ||| n == 0x1680
    ||| 0x2000 <= n <= 0x200a
    ||| n == 0x2028
    ||| n == 0x2029
    ||| n == 0x202f
    ||| n == 0x205f
    ||| n == 0x3000
}

fn space(c: char) -> (r: bool)
    ensures
        r == is_space(c),
{
    let n: u32 = c as u32;
    (9 <= n && n <= 13) || n == 32 || n == 0x85 || n == 0xa0 || n == 0x1680 || (0x2000 <= n && n
        <= 0x200a) || n == 0x2028 || n == 0x2029 || n == 0x202f || n == 0x205f || n == 0x3000
}

/// The first position from `i` on that holds no white space.
pub open spec fn word_start(s: Seq<char>, i: int) -> int
    decreases s.len() - i,
{
    if 0 <= i < s.len() && is_space(s[i]) {
        word_start(s, i + 1)
    } else {
        i
    }
}

/// The first position from `i` on that holds white space, or the end.
pub open spec fn word_end(s: Seq<char>, i: int) -> int
    decreases s.len() - i,
{
    if 0 <= i < s.len() && !is_space(s[i]) {
        word_end(s, i + 1)
    } else {
        i
    }
}

proof fn lemma_word(s: Seq<char>, i: int)
    requires
        0 <= i <= s.len(),
    ensures
        i <= word_start(s, i) <= s.len(),
        i <= word_end(s, i) <= s.len(),
        i < s.len() && !is_space(s[i]) ==> i < word_end(s, i),
        word_start(s, i) < s.len() ==> !is_space(s[word_start(s, i)]),
    decreases s.len() - i,
{
    if i < s.len() {
        lemma_word(s, i + 1);
    }
}

/// Where the word number `n`, counted from zero, stands behind position `i`.
pub open spec fn word_at(s: Seq<char>, i: int, n: nat) -> Option<(int, int)>
    decreases n,
{
    let start = word_start(s, i);
    if start >= s.len() {
        None
    } else if n == 0 {
        Some((start, word_end(s, start)))
    } else {
        word_at(s, word_end(s, start), (n - 1) as nat)
    }
}

/// The value of a decimal digit.
pub open spec fn digit_value(c: char) -> Option<nat> {
    if '0' <= c <= '9' {
        Some((c as u32 - '0' as u32) as nat)
    } else {
        None
    }
}

/// The number that decimal digits make, if there are no other characters.
pub open spec fn digits_value(s: Seq<char>) -> Option<nat>
    decreases s.len(),
{
    if s.len() == 0 {
        Some(0)
    } else {
        match (digits_value(s.drop_last()), digit_value(s.last())) {
            (Some(head), Some(d)) => Some(head * 10 + d),
            _ => None,
        }
    }
}

/// The number that a text names: digits, perhaps behind a plus sign, no larger
/// than `max`.
pub open spec fn number_in(s: Seq<char>, max: nat) -> Option<nat> {
    let digits = if s.len() > 0 && s[0] == '+' {
        s.skip(1)
    } else {
        s
    };
    if digits.len() == 0 {
        None
    } else {
        match digits_value(digits) {
            Some(n) => if n <= max {
                Some(n)
            } else {
                None
            },
            None => None,
        }
    }
}

proof fn lemma_digits_grow(s: Seq<char>, n: int)
    requires
        0 <= n <= s.len(),
        digits_value(s) is Some,
    ensures
        digits_value(s.take(n)) is Some,
        digits_value(s.take(n))->Some_0 <= digits_value(s)->Some_0,
    decreases s.len() - n,
{
    if n < s.len() {
        lemma_digits_grow(s, n + 1);
        assert(s.take(n + 1).drop_last() =~= s.take(n));
    } else {
        assert(s.take(n) =~= s);
    }
}

/// The number that a text names, if it is no larger than `max`.
pub fn parse_number(s: &[char], max: u64) -> (r: Option<u64>)
    ensures
        match r {
            Some(n) => number_in(s@, max as nat) == Some(n as nat),
            None => number_in(s@, max as nat) is None,
        },
{
    let from: usize = if s.len() > 0 && s[0] == '+' {
        1
    } else {
        0
    };
    let ghost digits = s@.skip(from as int);
    assert(from == 0 ==> digits =~= s@);
    if s.len() == from {
        return None;
    }
    let mut value: u64 = 0;
    assert(digits.take(0) =~= Seq::empty());
    for i in from..s.len()
        invariant
            digits == s@.skip(from as int),
            digits.len() == s@.len() - from,
            from <= i,
            digits_value(digits.take(i - from)) == Some(value as nat),
            value <= max,
            number_in(s@, max as nat) == (match digits_value(digits) {
                Some(n) => if n <= max {
                    Some(n)
                } else {
                    None
                },
                None => None,
            }),
    {
        let ghost next = digits.take(i + 1 - from);
        assert(next.drop_last() =~= digits.take(i - from));
        assert(next.last() == s@[i as int]);
        let c = s[i];
        if c < '0' || c > '9' {
            proof {
                if digits_value(digits) is Some {
                    lemma_digits_grow(digits, i + 1 - from);
                }
            }
            return None;
        }
        let d: u64 = (c as u32 - '0' as u32) as u64;
        let larger: u128 = value as u128 * 10 + d as u128;
        if larger > max as u128 {
            proof {
                if digits_value(digits) is Some {
                    lemma_digits_grow(digits, i + 1 - from);
                }
            }
            return None;
        }
        value = larger as u64;
    }
    assert(digits.take(digits.len() as int) =~= digits);
    Some(value)
}

/// The process id that a directory name gives.
pub fn parse_pid(name: &str) -> (r: Option<u32>)
    ensures
        match r {
            Some(pid) => number_in(name@, u32::MAX as nat) == Some(pid as nat),
            None => number_in(name@, u32::MAX as nat) is None,
        },
{
    let chars = chars_of(name);
    match parse_number(chars.as_slice(), u32::MAX as u64) {
        Some(n) => Some(n as u32),
        None => None,
    }
}

fn nth_word(s: &[char], n: usize) -> (r: Option<(usize, usize)>)
    ensures
        match r {
            Some(w) => word_at(s@, 0, n as nat) == Some((w.0 as int, w.1 as int)) && w.0 < w.1
                <= s@.len(),
            None => word_at(s@, 0, n as nat) is None,
        },
{
    let mut at: usize = 0;
    let mut left: usize = n;
    loop
        invariant
            at <= s@.len(),
            word_at(s@, 0, n as nat) == word_at(s@, at as int, left as nat),
        decreases left,
    {
        let ghost from = at as int;
        proof {
            lemma_word(s@, from);
        }
        let mut start: usize = at;
        while start < s.len() && space(s[start])
            invariant
                start <= s@.len(),
                word_start(s@, from) == word_start(s@, start as int),
            decreases s@.len() - start,
        {
            start = start + 1;
        }
        if start == s.len() {
            return None;
        }
        proof {
            lemma_word(s@, start as int);
        }
        let mut end: usize = start;
        while end < s.len() && !space(s[end])
            invariant
                start <= end <= s@.len(),
                word_end(s@, start as int) == word_end(s@, end as int),
            decreases s@.len() - end,
        {
            end = end + 1;
        }
        if left == 0 {
            return Some((start, end));
        }
        left = left - 1;
        at = end;
    }
}

/// The state and the start time in what the system says of a process: the
/// first and the twentieth word behind the last closing parenthesis. The name
/// of the program stands before it and may hold anything.
pub open spec fn stat_of(stat: Seq<char>) -> Option<(Seq<char>, nat)> {
    match last_at(stat, seq![')']) {
        None => None,
        Some(i) => {
            let rest = stat.skip(i + 1);
            match (word_at(rest, 0, 0), word_at(rest, 0, 19)) {
                (Some(state), Some(time)) => match number_in(
                    rest.subrange(time.0, time.1),
                    u64::MAX as nat,
                ) {
                    Some(n) => Some((rest.subrange(state.0, state.1), n)),
                    None => None,
                },
                _ => None,
            }
        },
    }
}

/// The state and the start time in `/proc/<pid>/stat`.
pub fn parse_proc_stat(stat: &str) -> (r: Option<(&str, u64)>)
    ensures
        match r {
            Some(found) => stat_of(stat@) == Some((found.0@, found.1 as nat)),
            None => stat_of(stat@) is None,
        },
{
    let chars = chars_of(stat);
    let s = chars.as_slice();
    let paren = vec![')'];
    assert(paren@ =~= seq![')']);
    let i = match rfind(s, paren.as_slice()) {
        Some(i) => i,
        None => {
            return None;
        },
    };
    proof {
        crate::text::lemma_last_before(s@, seq![')'], s@.len() as int + 1);
    }
    let len: usize = s.len();
    let rest = slice_subrange(s, i + 1, len);
    assert(rest@ =~= stat@.skip(i + 1));
    let state = match nth_word(rest, 0) {
        Some(word) => word,
        None => {
            return None;
        },
    };
    let time = match nth_word(rest, 19) {
        Some(word) => word,
        None => {
            return None;
        },
    };
    let digits = slice_subrange(rest, time.0, time.1);
    match parse_number(digits, u64::MAX) {
        Some(n) => {
            let word = stat.substring_char(i + 1 + state.0, i + 1 + state.1);
            assert(word@ =~= rest@.subrange(state.0 as int, state.1 as int));
            Some((word, n))
        },
        None => None,
    }
}

/// A process that has ended and waits for its parent.
pub open spec fn is_defunct(stat: Option<Seq<char>>) -> bool {
    match stat {
        Some(stat) => match stat_of(stat) {
            Some(found) => found.0 == "Z"@,
            None => false,
        },
        None => false,
    }
}

/// Whether a process has ended and waits for its parent, by what the system
/// says of it. `stat` is missing where that cannot be read.
pub fn is_zombie(stat: Option<&str>) -> (r: bool)
    ensures
        r == is_defunct(
            (match stat {
                Some(stat) => Some(stat@),
                None => None,
            }),
        ),
{
    match stat {
        Some(stat) => match parse_proc_stat(stat) {
            Some((state, _)) => same_str(state, "Z"),
            None => false,
        },
        None => false,
    }
}

/// The start time of a process, by what the system says of it.
pub fn process_start_time(stat: &str) -> (r: Option<u64>)
    ensures
        match r {
            Some(time) => stat_of(stat@) is Some && stat_of(stat@)->Some_0.1 == time,
            None => stat_of(stat@) is None,
        },
{
    match parse_proc_stat(stat) {
        Some((_, time)) => Some(time),
        None => None,
    }
}

/// The name of a program, whatever it holds, does not matter: only what stands
/// behind the last parenthesis does.
pub proof fn law_program_name_is_passed_over(a: Seq<char>, b: Seq<char>, rest: Seq<char>)
    requires
        !rest.contains(')'),
    ensures
        stat_of(a + seq![')'] + rest) == stat_of(b + seq![')'] + rest),
{
    lemma_last_paren(a, rest);
    lemma_last_paren(b, rest);
    assert((a + seq![')'] + rest).skip(a.len() as int + 1) =~= rest);
    assert((b + seq![')'] + rest).skip(b.len() as int + 1) =~= rest);
}

proof fn lemma_last_paren(a: Seq<char>, rest: Seq<char>)
    requires
        !rest.contains(')'),
    ensures
        last_at(a + seq![')'] + rest, seq![')']) == Some(a.len() as int),
{
    let s = a + seq![')'] + rest;
    crate::text::lemma_last_before(s, seq![')'], s.len() as int + 1);
    assert(s.subrange(a.len() as int, a.len() as int + 1) =~= seq![')']);
    assert(crate::text::is_at(s, seq![')'], a.len() as int));
    match last_at(s, seq![')']) {
        Some(i) => {
            if i > a.len() {
                assert(s.subrange(i, i + 1)[0] == ')');
                assert(rest[i - a.len() - 1] == ')');
            }
        },
        None => {},
    }
}

/// What counts as white space: the ASCII spaces, and those of other scripts.
pub proof fn law_white_space(c: char)
    ensures
        is_space(' ') && is_space('\t') && is_space('\n') && is_space('\r'),
        33 <= c as int <= 126 ==> !is_space(c),
        is_space(c) <==> (9 <= c as int <= 13 || c as int == 32 || c as int == 0x85 || c as int
            == 0xa0 || c as int == 0x1680 || 0x2000 <= c as int <= 0x200a || c as int == 0x2028
            || c as int == 0x2029 || c as int == 0x202f || c as int == 0x205f || c as int
            == 0x3000),
{
}

/// A word begins at the first character that is no white space and goes on to the
/// next white space or the end; the next word is looked for behind it.
pub proof fn law_words(s: Seq<char>, from: int, start: int, end: int, n: nat)
    requires
        0 <= from <= start < end <= s.len(),
        forall|i: int| from <= i < start ==> is_space(#[trigger] s[i]),
        forall|i: int| start <= i < end ==> !is_space(#[trigger] s[i]),
        end == s.len() || is_space(s[end]),
    ensures
        word_at(s, from, 0) == Some((start, end)),
        n > 0 ==> word_at(s, from, n) == word_at(s, end, (n - 1) as nat),
{
    lemma_start_is(s, from, start);
    lemma_end_is(s, start, end);
}

proof fn lemma_start_is(s: Seq<char>, from: int, start: int)
    requires
        0 <= from <= start < s.len(),
        forall|i: int| from <= i < start ==> is_space(#[trigger] s[i]),
        !is_space(s[start]),
    ensures
        word_start(s, from) == start,
    decreases start - from,
{
    if from < start {
        assert(is_space(s[from]));
        lemma_start_is(s, from + 1, start);
    }
}

proof fn lemma_end_is(s: Seq<char>, from: int, end: int)
    requires
        0 <= from <= end <= s.len(),
        forall|i: int| from <= i < end ==> !is_space(#[trigger] s[i]),
        end == s.len() || is_space(s[end]),
    ensures
        word_end(s, from) == end,
    decreases end - from,
{
    if from < end {
        assert(!is_space(s[from]));
        lemma_end_is(s, from + 1, end);
    }
}

/// Without anything but white space there is no word.
pub proof fn law_no_words(s: Seq<char>, from: int, n: nat)
    requires
        0 <= from <= s.len(),
        forall|i: int| from <= i < s.len() ==> is_space(#[trigger] s[i]),
    ensures
        word_at(s, from, n) is None,
    decreases s.len() - from,
{
    if from < s.len() {
        assert(is_space(s[from]));
        law_no_words(s, from + 1, n);
        assert(word_start(s, from) == word_start(s, from + 1));
        if n > 0 {
            law_no_words(s, from + 1, (n - 1) as nat);
        }
    }
}

/// A number that is written in decimal is read again, also behind a plus sign,
/// unless it is larger than allowed; a text with another character is no number.
pub proof fn law_numbers_are_read_again(n: nat, max: nat, s: Seq<char>)
    ensures
        n <= max ==> number_in(crate::text::decimal(n), max) == Some(n),
        n <= max ==> number_in(seq!['+'] + crate::text::decimal(n), max) == Some(n),
        n > max ==> number_in(crate::text::decimal(n), max) is None,
        number_in(Seq::empty(), max) is None,
        number_in(seq!['+'], max) is None,
        (exists|i: int|
            0 < i < s.len() && !('0' <= #[trigger] s[i] <= '9')) ==> number_in(s, max) is None,
{
    let d = crate::text::decimal(n);
    crate::text::law_decimal_stands_for_the_number(n);
    lemma_digits_value(d);
    assert(d[0] != '+');
    assert((seq!['+'] + d).skip(1) =~= d);
    if exists|i: int| 0 < i < s.len() && !('0' <= #[trigger] s[i] <= '9') {
        let i = choose|i: int| 0 < i < s.len() && !('0' <= #[trigger] s[i] <= '9');
        lemma_no_digits(s, i);
        assert(s.skip(1)[i - 1] == s[i]);
        lemma_no_digits(s.skip(1), i - 1);
    }
}

proof fn lemma_digits_value(s: Seq<char>)
    requires
        forall|i: int| 0 <= i < s.len() ==> '0' <= #[trigger] s[i] <= '9',
    ensures
        digits_value(s) is Some,
        digits_value(s)->Some_0 == crate::text::value_of(s),
    decreases s.len(),
{
    if s.len() > 0 {
        let init = s.drop_last();
        assert forall|i: int| 0 <= i < init.len() implies '0' <= #[trigger] init[i] <= '9' by {
            assert(init[i] == s[i]);
        }
        lemma_digits_value(init);
        assert('0' <= s[s.len() - 1] <= '9');
    }
}

proof fn lemma_no_digits(s: Seq<char>, i: int)
    requires
        0 <= i < s.len(),
        !('0' <= s[i] <= '9'),
    ensures
        digits_value(s) is None,
    decreases s.len(),
{
    if i < s.len() - 1 {
        lemma_no_digits(s.drop_last(), i);
    }
}

/// What is read of a process behind the last parenthesis: the first word as its
/// state and the twentieth as the number of its start time; without these there is
/// nothing.
pub proof fn law_what_is_read_of_a_process(name: Seq<char>, rest: Seq<char>)
    requires
        !rest.contains(')'),
    ensures
        ({
            let (state, time) = (word_at(rest, 0, 0), word_at(rest, 0, 19));
            let found = stat_of(name + seq![')'] + rest);
            &&& state is None || time is None ==> found is None
            &&& state is Some && time is Some ==> {
                let (a, b) = (state->Some_0, time->Some_0);
                let n = number_in(rest.subrange(b.0, b.1), 0xffff_ffff_ffff_ffff);
                &&& n is None ==> found is None
                &&& n is Some ==> found == Some((rest.subrange(a.0, a.1), n->Some_0))
            }
        }),
{
    lemma_last_paren(name, rest);
    assert((name + seq![')'] + rest).skip(name.len() as int + 1) =~= rest);
}

/// A process is defunct exactly if its state can be read and is `Z`; without a
/// parenthesis nothing can be read.
pub proof fn law_defunct_processes(stat: Seq<char>)
    ensures
        is_defunct(Some(stat)) <==> stat_of(stat) is Some && stat_of(stat)->Some_0.0 == seq!['Z'],
        !is_defunct(None),
        !stat.contains(')') ==> stat_of(stat) is None,
{
    reveal_strlit("Z");
    assert("Z"@ =~= seq!['Z']);
    crate::text::lemma_last_before(stat, seq![')'], stat.len() as int + 1);
    if let Some(i) = last_at(stat, seq![')']) {
        assert(stat.subrange(i, i + 1)[0] == ')');
        assert(stat[i] == ')');
    }
}

} // verus!
