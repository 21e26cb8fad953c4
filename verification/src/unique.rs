//! Ids made unique by a numbered suffix.

use vstd::prelude::*;
use vstd::seq_lib::*;

use crate::text::{concatenation, decimal, decimal_text, digit_char, joined};

verus! {

/// An id with a numbered suffix.
pub open spec fn suffixed(base: Seq<char>, n: nat) -> Seq<char> {
    base + "-"@ + decimal_text(n)
}

/// Whether `n` is the first number, from a start on, whose suffix makes an id that is not used.
pub open spec fn first_free(used: Seq<Seq<char>>, base: Seq<char>, start: nat, n: nat) -> bool {
    &&& start <= n
    &&& !used.contains(suffixed(base, n))
    &&& forall|k: nat| start <= k < n ==> used.contains(#[trigger] suffixed(base, k))
}

/// An id that is not used: the base itself, or else the base with the first suffix that is free.
pub open spec fn unique_id(used: Seq<Seq<char>>, base: Seq<char>, start: nat) -> Seq<char> {
    if !used.contains(base) {
        base
    } else {
        suffixed(base, choose|n: nat| first_free(used, base, start, n))
    }
}

proof fn lemma_decimal_length(n: nat)
    ensures
        decimal_text(n).len() >= 1,
        n >= 10 ==> decimal_text(n).len() >= 2,
    decreases n,
{
    if n >= 10 {
        lemma_decimal_length(n / 10);
    }
}

/// Two numbers with the same digits are the same.
pub proof fn lemma_decimal_injective(a: nat, b: nat)
    requires
        decimal_text(a) == decimal_text(b),
    ensures
        a == b,
    decreases a,
{
    lemma_decimal_length(a);
    lemma_decimal_length(b);
    assert(decimal_text(a).last() == digit_char(a % 10));
    assert(decimal_text(b).last() == digit_char(b % 10));
    assert(a % 10 == b % 10);
    if a >= 10 {
        assert(decimal_text(a).drop_last() =~= decimal_text(a / 10));
        assert(decimal_text(b).drop_last() =~= decimal_text(b / 10));
        lemma_decimal_injective(a / 10, b / 10);
    }
}

/// Two suffixes of one base that give the same id are the same.
pub proof fn lemma_suffix_injective(base: Seq<char>, a: nat, b: nat)
    requires
        suffixed(base, a) == suffixed(base, b),
    ensures
        a == b,
{
    let front = base + "-"@;
    assert(suffixed(base, a).skip(front.len() as int) =~= decimal_text(a));
    assert(suffixed(base, b).skip(front.len() as int) =~= decimal_text(b));
    lemma_decimal_injective(a, b);
}

/// At most as many suffixes are used as there are used ids.
proof fn lemma_used_suffixes(used: Seq<Seq<char>>, base: Seq<char>, start: nat, end: nat)
    requires
        start <= end,
        forall|k: nat| start <= k < end ==> used.contains(#[trigger] suffixed(base, k)),
    ensures
        end - start <= used.len(),
{
    let tried = Seq::new((end - start) as nat, |k: int| suffixed(base, (start + k) as nat));
    assert forall|i: int, j: int|
        0 <= i < tried.len() && 0 <= j < tried.len() && i != j implies tried[i] != tried[j] by {
        if tried[i] == tried[j] {
            lemma_suffix_injective(base, (start + i) as nat, (start + j) as nat);
        }
    }
    assert(tried.no_duplicates());
    tried.unique_seq_to_set();
    used.lemma_cardinality_of_set();
    assert forall|id: Seq<char>| tried.to_set().contains(id) implies used.to_set().contains(
        id,
    ) by {
        let i = choose|i: int| 0 <= i < tried.len() && tried[i] == id;
        assert(used.contains(suffixed(base, (start + i) as nat)));
    }
    vstd::set_lib::lemma_len_subset(tried.to_set(), used.to_set());
}

/// Only one number is the first free one.
proof fn lemma_first_free_unique(used: Seq<Seq<char>>, base: Seq<char>, start: nat, n: nat)
    requires
        first_free(used, base, start, n),
    ensures
        suffixed(base, n) == suffixed(base, choose|m: nat| first_free(used, base, start, m)),
{
    let m = choose|m: nat| first_free(used, base, start, m);
    assert(first_free(used, base, start, m));
    if m < n {
        assert(used.contains(suffixed(base, m)));
    }
    if n < m {
        assert(used.contains(suffixed(base, n)));
    }
}

/// An id that was made unique is not among the used ones.
pub proof fn law_unique_id_is_free(used: Seq<Seq<char>>, base: Seq<char>, start: nat)
    ensures
        !used.contains(unique_id(used, base, start)),
{
    if used.contains(base) {
        let n = lemma_some_free(used, base, start, start);
        lemma_first_free_unique(used, base, start, n);
    }
}

/// An id that is taken gets the first number from a start on with which it is free.
pub proof fn law_taken_ids_get_the_first_free_number(
    used: Seq<Seq<char>>,
    base: Seq<char>,
    start: nat,
) -> (n: nat)
    requires
        used.contains(base),
    ensures
        start <= n,
        unique_id(used, base, start) == base + "-"@ + decimal_text(n),
        !used.contains(base + "-"@ + decimal_text(n)),
        forall|k: nat| start <= k < n ==> used.contains(#[trigger] suffixed(base, k)),
{
    let n = lemma_some_free(used, base, start, start);
    lemma_first_free_unique(used, base, start, n);
    n
}

/// Some suffix is free.
proof fn lemma_some_free(used: Seq<Seq<char>>, base: Seq<char>, start: nat, from: nat) -> (n: nat)
    requires
        start <= from,
        forall|k: nat| start <= k < from ==> used.contains(#[trigger] suffixed(base, k)),
    ensures
        first_free(used, base, start, n),
    decreases used.len() + start - from + 1,
{
    lemma_used_suffixes(used, base, start, from);
    if used.contains(suffixed(base, from)) {
        lemma_used_suffixes(used, base, start, from + 1);
        lemma_some_free(used, base, start, from + 1)
    } else {
        from
    }
}

/// Whether an id is among the used ones.
pub fn is_used(used: &Vec<String>, id: &String) -> (r: bool)
    ensures
        r == used.deep_view().contains(id@),
{
    let ghost all = used.deep_view();
    let mut i: usize = 0;
    while i < used.len()
        invariant
            i <= used@.len(),
            all == used.deep_view(),
            forall|k: int| 0 <= k < i ==> #[trigger] all[k] != id@,
        decreases used@.len() - i,
    {
        assert(all[i as int] == used@[i as int]@);
        if used[i] == *id {
            return true;
        }
        i = i + 1;
    }
    false
}

/// Makes an id unique among the used ones.
pub fn make_unique(used: &Vec<String>, base: &String, start: usize) -> (r: String)
    requires
        start + used@.len() < usize::MAX,
    ensures
        r@ == unique_id(used.deep_view(), base@, start as nat),
{
    if !is_used(used, base) {
        return base.clone();
    }
    let ghost all = used.deep_view();
    let mut n: usize = start;
    loop
        invariant
            all == used.deep_view(),
            all.contains(base@),
            start + used@.len() < usize::MAX,
            start <= n <= start + used@.len(),
            forall|k: nat| start <= k < n ==> all.contains(#[trigger] suffixed(base@, k)),
        decreases start + used@.len() - n,
    {
        let number = decimal(n as u64);
        let pieces = vec![base.as_str(), "-", number.as_str()];
        let ghost views = Seq::new(pieces@.len(), |k: int| pieces@[k]@);
        let candidate = joined(pieces);
        proof {
            assert(views =~= seq![base@, "-"@, decimal_text(n as nat)]);
            reveal_with_fuel(concatenation, 4);
            assert(views.drop_last() =~= seq![base@, "-"@]);
            assert(views.drop_last().drop_last() =~= seq![base@]);
            assert(views.drop_last().drop_last().drop_last() =~= Seq::empty());
            assert(candidate@ =~= suffixed(base@, n as nat));
        }
        if !is_used(used, &candidate) {
            proof {
                assert(first_free(all, base@, start as nat, n as nat));
                lemma_first_free_unique(all, base@, start as nat, n as nat);
            }
            return candidate;
        }
        proof {
            lemma_used_suffixes(all, base@, start as nat, (n + 1) as nat);
        }
        n = n + 1;
    }
}

} // verus!
