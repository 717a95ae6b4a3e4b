use vstd::prelude::*;

verus! {

/// Number of `true` entries of a sequence of flags.
pub open spec fn num_true(s: Seq<bool>) -> nat
    decreases s.len(),
{
    if s.len() == 0 {
        0
    } else {
        num_true(s.drop_last()) + if s.last() {
            1nat
        } else {
            0nat
        }
    }
}

/// A sequence of `n` false flags holds no `true` entry.
pub proof fn lemma_num_true_all_false(s: Seq<bool>)
    requires
        forall|i: int| 0 <= i < s.len() ==> !s[i],
    ensures
        num_true(s) == 0,
    decreases s.len(),
{
    if s.len() > 0 {
        lemma_num_true_all_false(s.drop_last());
    }
}

/// The count never exceeds the length.
pub proof fn lemma_num_true_le_len(s: Seq<bool>)
    ensures
        num_true(s) <= s.len(),
    decreases s.len(),
{
    if s.len() > 0 {
        lemma_num_true_le_len(s.drop_last());
    }
}

/// A false entry leaves room below the length.
pub proof fn lemma_num_true_lt_len(s: Seq<bool>, i: int)
    requires
        0 <= i < s.len(),
        !s[i],
    ensures
        num_true(s) < s.len(),
    decreases s.len(),
{
    if i == s.len() - 1 {
        lemma_num_true_le_len(s.drop_last());
    } else {
        lemma_num_true_lt_len(s.drop_last(), i);
    }
}

/// Raising one false entry to true adds one to the count.
pub proof fn lemma_num_true_set(s: Seq<bool>, i: int)
    requires
        0 <= i < s.len(),
        !s[i],
    ensures
        num_true(s.update(i, true)) == num_true(s) + 1,
    decreases s.len(),
{
    let t = s.update(i, true);
    if i == s.len() - 1 {
        assert(t.drop_last() =~= s.drop_last());
    } else {
        assert(t.drop_last() =~= s.drop_last().update(i, true));
        lemma_num_true_set(s.drop_last(), i);
    }
}

/// Pointwise `a && !b` of two flag sequences.
pub open spec fn minus_flags(a: Seq<bool>, b: Seq<bool>) -> Seq<bool> {
    Seq::new(a.len(), |i: int| a[i] && !b[i])
}

/// The members of `a` that are not members of `b`.
pub fn flags_difference(a: &Vec<bool>, b: &Vec<bool>) -> (d: Vec<bool>)
    requires
        a@.len() == b@.len(),
    ensures
        d@ == minus_flags(a@, b@),
{
    let mut d: Vec<bool> = Vec::new();
    let mut i: usize = 0;
    while i < a.len()
        invariant
            a@.len() == b@.len(),
            i <= a@.len(),
            d@.len() == i,
            forall|k: int| 0 <= k < i ==> #[trigger] d@[k] == (a@[k] && !b@[k]),
        decreases a@.len() - i,
    {
        d.push(a[i] && !b[i]);
        i += 1;
    }
    assert(d@ =~= minus_flags(a@, b@));
    d
}

/// The number of members of a flag set.
pub fn count_flags(a: &Vec<bool>) -> (count: usize)
    ensures
        count == num_true(a@),
{
    let mut count: usize = 0;
    let mut i: usize = 0;
    while i < a.len()
        invariant
            i <= a@.len(),
            count == num_true(a@.subrange(0, i as int)),
            count <= i,
        decreases a@.len() - i,
    {
        proof {
            assert(a@.subrange(0, i + 1).drop_last() =~= a@.subrange(0, i as int));
        }
        if a[i] {
            count += 1;
        }
        i += 1;
    }
    assert(a@.subrange(0, a@.len() as int) =~= a@);
    count
}

} // verus!
