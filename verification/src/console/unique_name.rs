//! Names that no other task has.

use vstd::prelude::*;

use crate::kernel::task::TaskId;
use crate::text::{decimal, push_decimal, same_str};

verus! {

/// The names of all tasks but one.
pub open spec fn other_names(names: Seq<(TaskId, Seq<char>)>, exclude: Option<TaskId>) -> Seq<
    Seq<char>,
>
    decreases names.len(),
{
    if names.len() == 0 {
        Seq::empty()
    } else {
        let before = other_names(names.drop_last(), exclude);
        if exclude == Some(names.last().0) {
            before
        } else {
            before.push(names.last().1)
        }
    }
}

/// A name with a number behind it.
pub open spec fn numbered(base: Seq<char>, k: nat) -> Seq<char> {
    base.push('-') + decimal(k)
}

/// The first numbered name from `k` on that is not taken.
pub open spec fn free_from(base: Seq<char>, taken: Seq<Seq<char>>, k: nat, limit: nat) -> Seq<char>
    decreases limit - k,
{
    if k >= limit || !taken.contains(numbered(base, k)) {
        numbered(base, k)
    } else {
        free_from(base, taken, k + 1, limit)
    }
}

/// The base itself if it is free, else the first of the base with the numbers
/// from two on that is free.
pub open spec fn unique_of(base: Seq<char>, taken: Seq<Seq<char>>) -> Seq<char> {
    if taken.contains(base) {
        free_from(base, taken, 2, taken.len() + 2)
    } else {
        base
    }
}

/// The names of a list of tasks.
pub open spec fn name_views(v: Seq<(TaskId, String)>) -> Seq<(TaskId, Seq<char>)> {
    v.map_values(|e: (TaskId, String)| (e.0, e.1@))
}

proof fn lemma_other_names(names: Seq<(TaskId, Seq<char>)>, exclude: Option<TaskId>, x: Seq<char>)
    ensures
        other_names(names, exclude).len() <= names.len(),
        other_names(names, exclude).contains(x) <==> exists|i: int|
            0 <= i < names.len() && exclude != Some((#[trigger] names[i]).0) && names[i].1 == x,
    decreases names.len(),
{
    if names.len() > 0 {
        let before = other_names(names.drop_last(), exclude);
        let all = other_names(names, exclude);
        lemma_other_names(names.drop_last(), exclude, x);
        if all.contains(x) {
            let j = choose|j: int| 0 <= j < all.len() && all[j] == x;
            if j < before.len() {
                assert(before[j] == x);
                let i = choose|i: int|
                    0 <= i < names.drop_last().len() && exclude != Some(
                        (#[trigger] names.drop_last()[i]).0,
                    ) && names.drop_last()[i].1 == x;
                assert(names[i].1 == x);
            } else {
                assert(names[names.len() - 1].1 == x);
            }
        }
        if exists|i: int|
            0 <= i < names.len() && exclude != Some((#[trigger] names[i]).0) && names[i].1 == x {
            let i = choose|i: int|
                0 <= i < names.len() && exclude != Some((#[trigger] names[i]).0) && names[i].1
                    == x;
            if i < names.len() - 1 {
                assert(names.drop_last()[i].1 == x);
                let j = choose|j: int| 0 <= j < before.len() && before[j] == x;
                assert(all[j] == x);
            } else {
                assert(all[all.len() - 1] == x);
            }
        }
    }
}

/// Numbers that are written the same are the same.
proof fn lemma_decimal_injective(a: nat, b: nat)
    requires
        decimal(a) == decimal(b),
    ensures
        a == b,
    decreases a,
{
    lemma_decimal_len(a);
    lemma_decimal_len(b);
    if a < 10 {
        assert(decimal(a).len() == 1);
        assert(b < 10);
        assert(decimal(a)[0] as int == a + 48);
        assert(decimal(b)[0] as int == b + 48);
    } else {
        if b < 10 {
            assert(decimal(b).len() == 1);
        }
        let da = decimal(a);
        let db = decimal(b);
        assert(da.drop_last() =~= decimal(a / 10));
        assert(db.drop_last() =~= decimal(b / 10));
        assert(da.last() as int == a % 10 + 48);
        assert(db.last() as int == b % 10 + 48);
        lemma_decimal_injective(a / 10, b / 10);
    }
}

proof fn lemma_decimal_len(n: nat)
    ensures
        decimal(n).len() >= 1,
        n >= 10 ==> decimal(n).len() >= 2,
    decreases n,
{
    if n >= 10 {
        lemma_decimal_len(n / 10);
    }
}

proof fn lemma_numbered_injective(base: Seq<char>, j: nat, k: nat)
    requires
        numbered(base, j) == numbered(base, k),
    ensures
        j == k,
{
    let n = base.len() as int + 1;
    assert(numbered(base, j).skip(n) =~= decimal(j));
    assert(numbered(base, k).skip(n) =~= decimal(k));
    lemma_decimal_injective(j, k);
}

/// Among more numbers than there are names, one is free.
proof fn lemma_one_is_free(base: Seq<char>, taken: Seq<Seq<char>>, low: nat)
    ensures
        exists|k: nat|
            low <= k <= taken.len() + low && !taken.contains(#[trigger] numbered(base, k)),
    decreases taken.len(),
{
    let first = numbered(base, low);
    if taken.contains(first) {
        let at = choose|i: int| 0 <= i < taken.len() && taken[i] == first;
        let rest = taken.remove(at);
        lemma_one_is_free(base, rest, low + 1);
        let k = choose|k: nat|
            low + 1 <= k <= rest.len() + low + 1 && !rest.contains(#[trigger] numbered(base, k));
        let name = numbered(base, k);
        if taken.contains(name) {
            let i = choose|i: int| 0 <= i < taken.len() && taken[i] == name;
            if i == at {
                lemma_numbered_injective(base, k, low);
            } else if i < at {
                assert(rest[i] == name);
            } else {
                assert(rest[i - 1] == name);
            }
        }
        assert(!taken.contains(numbered(base, k)));
    }
}

proof fn lemma_free_from(base: Seq<char>, taken: Seq<Seq<char>>, k: nat, limit: nat)
    requires
        exists|j: nat| k <= j <= limit && !taken.contains(#[trigger] numbered(base, j)),
    ensures
        !taken.contains(free_from(base, taken, k, limit)),
        exists|j: nat|
            k <= j <= limit && free_from(base, taken, k, limit) == #[trigger] numbered(base, j),
    decreases limit - k,
{
    if k < limit && taken.contains(numbered(base, k)) {
        lemma_free_from(base, taken, k + 1, limit);
        let j = choose|j: nat|
            k + 1 <= j <= limit && free_from(base, taken, k + 1, limit) == #[trigger] numbered(
                base,
                j,
            );
        assert(k <= j <= limit && free_from(base, taken, k, limit) == numbered(base, j));
    }
}

/// A unique name is taken by no other task.
pub proof fn law_unique_name_is_free(base: Seq<char>, taken: Seq<Seq<char>>)
    ensures
        !taken.contains(unique_of(base, taken)),
{
    if taken.contains(base) {
        lemma_one_is_free(base, taken, 2);
        lemma_free_from(base, taken, 2, taken.len() + 2);
    }
}

/// A name that is free already stays as it is.
pub proof fn law_free_name_is_kept(base: Seq<char>, taken: Seq<Seq<char>>)
    requires
        !taken.contains(base),
    ensures
        unique_of(base, taken) == base,
{
}

fn is_taken(name: &str, exclude: Option<TaskId>, names: &Vec<(TaskId, String)>) -> (r: bool)
    ensures
        r == other_names(name_views(names@), exclude).contains(name@),
{
    let ghost all = name_views(names@);
    proof {
        lemma_other_names(all, exclude, name@);
    }
    for i in 0..names.len()
        invariant
            all == name_views(names@),
            forall|j: int|
                0 <= j < i ==> !(exclude != Some((#[trigger] all[j]).0) && all[j].1 == name@),
    {
        let other = match exclude {
            Some(id) => id != names[i].0,
            None => true,
        };
        assert(all[i as int] == (names@[i as int].0, names@[i as int].1@));
        if other && same_str(names[i].1.as_str(), name) {
            proof {
                lemma_other_names(all, exclude, name@);
            }
            return true;
        }
    }
    false
}

fn numbered_name(base: &str, k: u64) -> (r: String)
    ensures
        r@ == numbered(base@, k as nat),
{
    let mut out = base.to_string();
    out.push('-');
    push_decimal(&mut out, k);
    out
}

/// A name made of `base` that no task but the excluded one has.
pub fn unique_task_name(
    base: &str,
    exclude: Option<TaskId>,
    names: &Vec<(TaskId, String)>,
) -> (r: String)
    requires
        names@.len() < u64::MAX - 2,
    ensures
        r@ == unique_of(base@, other_names(name_views(names@), exclude)),
        !other_names(name_views(names@), exclude).contains(r@),
{
    let ghost taken = other_names(name_views(names@), exclude);
    proof {
        lemma_other_names(name_views(names@), exclude, base@);
        law_unique_name_is_free(base@, taken);
    }
    if !is_taken(base, exclude, names) {
        return base.to_string();
    }
    let ghost limit = taken.len() + 2;
    let mut k: u64 = 2;
    loop
        invariant
            taken == other_names(name_views(names@), exclude),
            limit == taken.len() + 2,
            limit < u64::MAX,
            2 <= k <= limit,
            unique_of(base@, taken) == free_from(base@, taken, k as nat, limit),
            !taken.contains(unique_of(base@, taken)),
        decreases limit - k,
    {
        let name = numbered_name(base, k);
        if !is_taken(name.as_str(), exclude, names) {
            return name;
        }
        k = k + 1;
    }
}

/// The name is the base, or the base with a dash and a number from two on; of those
/// that are free it is the first.
pub proof fn law_unique_name_is_the_first(base: Seq<char>, taken: Seq<Seq<char>>)
    ensures
        taken.contains(base) ==> exists|k: nat|
            k >= 2 && unique_of(base, taken) == base + seq!['-'] + #[trigger] decimal(k) && forall|
                j: nat,
            |
                2 <= j < k ==> taken.contains(base + seq!['-'] + #[trigger] decimal(j)),
        !taken.contains(base) ==> unique_of(base, taken) == base,
{
    if taken.contains(base) {
        let limit = taken.len() + 2;
        lemma_one_is_free(base, taken, 2);
        lemma_first_free(base, taken, 2, limit);
        let k = choose|k: nat|
            2 <= k <= limit && free_from(base, taken, 2, limit) == #[trigger] numbered(base, k)
                && forall|j: nat| 2 <= j < k ==> taken.contains(#[trigger] numbered(base, j));
        assert(numbered(base, k) =~= base + seq!['-'] + decimal(k));
        assert forall|j: nat| 2 <= j < k implies taken.contains(
            base + seq!['-'] + #[trigger] decimal(j),
        ) by {
            assert(taken.contains(numbered(base, j)));
            assert(numbered(base, j) =~= base + seq!['-'] + decimal(j));
        }
    }
}

proof fn lemma_first_free(base: Seq<char>, taken: Seq<Seq<char>>, k: nat, limit: nat)
    requires
        k <= limit,
    ensures
        exists|n: nat|
            k <= n <= limit && free_from(base, taken, k, limit) == #[trigger] numbered(base, n)
                && forall|j: nat| k <= j < n ==> taken.contains(#[trigger] numbered(base, j)),
    decreases limit - k,
{
    if k < limit && taken.contains(numbered(base, k)) {
        lemma_first_free(base, taken, k + 1, limit);
        let n = choose|n: nat|
            k + 1 <= n <= limit && free_from(base, taken, k + 1, limit) == #[trigger] numbered(
                base,
                n,
            ) && forall|j: nat| k + 1 <= j < n ==> taken.contains(#[trigger] numbered(base, j));
        assert(free_from(base, taken, k, limit) == numbered(base, n));
    } else {
        assert(free_from(base, taken, k, limit) == numbered(base, k));
    }
}

/// The names that count are those of every task but the excluded one.
pub proof fn law_names_that_count(
    names: Seq<(TaskId, Seq<char>)>,
    exclude: Option<TaskId>,
    name: Seq<char>,
)
    ensures
        other_names(names, exclude).contains(name) <==> exists|i: int|
            0 <= i < names.len() && exclude != Some((#[trigger] names[i]).0) && names[i].1 == name,
{
    lemma_other_names(names, exclude, name);
}

} // verus!
