//! Counting a population by strategy name.

use vstd::prelude::*;

verus! {

/// How many of `names` read `name`.
pub open spec fn occurrences(names: Seq<String>, name: Seq<char>) -> nat
    decreases names.len(),
{
    if names.len() == 0 {
        0
    } else {
        occurrences(names.drop_last(), name) + if names.last()@ == name {
            1nat
        } else {
            0nat
        }
    }
}

/// The sum of the counts of a name/count list.
pub open spec fn total_count(counts: Seq<(String, usize)>) -> int
    decreases counts.len(),
{
    if counts.len() == 0 {
        0
    } else {
        total_count(counts.drop_last()) + counts.last().1
    }
}

/// No name is listed twice.
pub open spec fn names_distinct(counts: Seq<(String, usize)>) -> bool {
    forall|i: int, j: int| 0 <= i < j < counts.len() ==> counts[i].0@ != counts[j].0@
}

/// `counts` is the census of `names`: each name once, with the number of
/// times it occurs, which is never zero, and every name of the population
/// listed.
pub open spec fn is_census(counts: Seq<(String, usize)>, names: Seq<String>) -> bool {
    &&& names_distinct(counts)
    &&& forall|i: int| 0 <= i < counts.len() ==> #[trigger] counts[i].1 > 0
    &&& forall|i: int| 0 <= i < counts.len() ==> counts[i].1 == occurrences(names, #[trigger] counts[i].0@)
    &&& forall|k: int|
        0 <= k < names.len() ==> exists|i: int| 0 <= i < counts.len() && counts[i].0@ == (#[trigger] names[k])@
}

proof fn lemma_occurrences_push(names: Seq<String>, x: String, y: Seq<char>)
    ensures
        occurrences(names.push(x), y) == occurrences(names, y) + if x@ == y {
            1nat
        } else {
            0nat
        },
{
    assert(names.push(x).drop_last() =~= names);
}

/// The position of `name` in `counts`, if it is listed.
fn find_name(counts: &Vec<(String, usize)>, name: &String) -> (r: Option<usize>)
    ensures
        r matches Some(j) ==> j < counts@.len() && counts@[j as int].0@ == name@,
        r is None ==> forall|m: int| 0 <= m < counts@.len() ==> counts@[m].0@ != name@,
{
    let mut j: usize = 0;
    while j < counts.len()
        invariant
            j <= counts@.len(),
            forall|m: int| 0 <= m < j ==> counts@[m].0@ != name@,
        decreases counts@.len() - j,
    {
        if counts[j].0 == *name {
            return Some(j);
        }
        j = j + 1;
    }
    None
}

proof fn lemma_total_count_update(counts: Seq<(String, usize)>, j: int, entry: (String, usize))
    requires
        0 <= j < counts.len(),
    ensures
        total_count(counts.update(j, entry)) == total_count(counts) - counts[j].1 + entry.1,
    decreases counts.len(),
{
    if j < counts.len() - 1 {
        assert(counts.update(j, entry).drop_last() =~= counts.drop_last().update(j, entry));
        lemma_total_count_update(counts.drop_last(), j, entry);
    } else {
        assert(counts.update(j, entry).drop_last() =~= counts.drop_last());
    }
}

/// The census of `names`, in order of first appearance; the counts add up
/// to the population size.
pub fn tally(names: &Vec<String>) -> (counts: Vec<(String, usize)>)
    ensures
        is_census(counts@, names@),
        total_count(counts@) == names@.len(),
{
    let mut counts: Vec<(String, usize)> = Vec::new();
    let mut k: usize = 0;
    while k < names.len()
        invariant
            k <= names@.len(),
            is_census(counts@, names@.take(k as int)),
            total_count(counts@) == k,
        decreases names@.len() - k,
    {
        let ghost prefix = names@.take(k as int);
        let ghost next = names@.take(k + 1);
        proof {
            assert(next.drop_last() =~= prefix);
            assert(next.last() == names@[k as int]);
        }
        let name = &names[k];
        proof {
            assert(next =~= prefix.push(names@[k as int]));
        }
        match find_name(&counts, name) {
            Some(j) => {
                proof {
                    lemma_count_le_total(counts@, j as int);
                }
                let entry_name = counts[j].0.clone();
                let c = counts[j].1;
                let ghost old_counts = counts@;
                counts.set(j, (entry_name, c + 1));
                proof {
                    lemma_total_count_update(old_counts, j as int, (entry_name, (c + 1) as usize));
                    assert forall|m: int| 0 <= m < counts@.len() implies #[trigger] counts@[m].1
                        == occurrences(next, counts@[m].0@) by {
                        lemma_occurrences_push(prefix, names@[k as int], counts@[m].0@);
                        if m != j {
                            assert(old_counts[m].0@ != old_counts[j as int].0@);
                        }
                    }
                    assert forall|q: int| 0 <= q < next.len() implies exists|m: int|
                        0 <= m < counts@.len() && counts@[m].0@ == (#[trigger] next[q])@ by {
                        if q < prefix.len() {
                            assert(next[q] == prefix[q]);
                            let m = choose|m: int|
                                0 <= m < old_counts.len() && old_counts[m].0@ == prefix[q]@;
                            assert(counts@[m].0@ == old_counts[m].0@);
                        } else {
                            assert(counts@[j as int].0@ == next[q]@);
                        }
                    }
                    assert forall|a: int, b: int| 0 <= a < b < counts@.len() implies counts@[a].0@
                        != counts@[b].0@ by {
                        assert(counts@[a].0@ == old_counts[a].0@);
                        assert(counts@[b].0@ == old_counts[b].0@);
                    }
                }
            },
            None => {
                let ghost old_counts = counts@;
                counts.push((name.clone(), 1));
                proof {
                    assert(total_count(counts@) == total_count(old_counts) + 1) by {
                        assert(counts@.drop_last() =~= old_counts);
                    }
                    if occurrences(prefix, names@[k as int]@) > 0 {
                        let q = choose_occurrence(prefix, names@[k as int]@);
                        let m = choose|m: int|
                            0 <= m < old_counts.len() && old_counts[m].0@ == (#[trigger] prefix[q])@;
                        assert(false);
                    }
                    assert forall|m: int| 0 <= m < counts@.len() implies #[trigger] counts@[m].1
                        == occurrences(next, counts@[m].0@) by {
                        lemma_occurrences_push(prefix, names@[k as int], counts@[m].0@);
                        if m < old_counts.len() {
                            assert(counts@[m] == old_counts[m]);
                        }
                    }
                    assert forall|q: int| 0 <= q < next.len() implies exists|m: int|
                        0 <= m < counts@.len() && counts@[m].0@ == (#[trigger] next[q])@ by {
                        if q < prefix.len() {
                            assert(next[q] == prefix[q]);
                            let m = choose|m: int|
                                0 <= m < old_counts.len() && old_counts[m].0@ == prefix[q]@;
                            assert(counts@[m] == old_counts[m]);
                        } else {
                            assert(counts@[old_counts.len() as int].0@ == next[q]@);
                        }
                    }
                    assert forall|a: int, b: int| 0 <= a < b < counts@.len() implies counts@[a].0@
                        != counts@[b].0@ by {
                        if b == old_counts.len() {
                            assert(counts@[a] == old_counts[a]);
                        } else {
                            assert(counts@[a] == old_counts[a]);
                            assert(counts@[b] == old_counts[b]);
                        }
                    }
                }
            },
        }
        k = k + 1;
    }
    proof {
        assert(names@.take(k as int) =~= names@);
    }
    counts
}

proof fn choose_occurrence(names: Seq<String>, name: Seq<char>) -> (k: int)
    requires
        occurrences(names, name) > 0,
    ensures
        0 <= k < names.len(),
        names[k]@ == name,
    decreases names.len(),
{
    if names.last()@ == name {
        (names.len() - 1) as int
    } else {
        choose_occurrence(names.drop_last(), name)
    }
}

proof fn lemma_count_le_total(counts: Seq<(String, usize)>, j: int)
    requires
        0 <= j < counts.len(),
    ensures
        counts[j].1 <= total_count(counts),
    decreases counts.len(),
{
    lemma_total_nonneg(counts.drop_last());
    if j < counts.len() - 1 {
        lemma_count_le_total(counts.drop_last(), j);
    }
}

proof fn lemma_total_nonneg(counts: Seq<(String, usize)>)
    ensures
        total_count(counts) >= 0,
    decreases counts.len(),
{
    if counts.len() > 0 {
        lemma_total_nonneg(counts.drop_last());
    }
}

} // verus!
