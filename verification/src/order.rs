//! Putting names in order.

use vstd::prelude::*;
use crate::text::{chars_of, views};

verus! {

/// Whether `a` comes before `b`, character by character.
pub open spec fn precedes(a: Seq<char>, b: Seq<char>) -> bool
    decreases a.len(),
{
    if b.len() == 0 {
        false
    } else if a.len() == 0 {
        true
    } else if a[0] != b[0] {
        a[0] < b[0]
    } else {
        precedes(a.skip(1), b.skip(1))
    }
}

/// Whether name `i` comes before name `j`: the smaller, the earlier of two equal ones.
pub open spec fn first_of(names: Seq<Seq<char>>, i: int, j: int) -> bool {
    precedes(names[i], names[j]) || (names[i] == names[j] && i < j)
}

/// Whether `order` lists every name once, in order.
pub open spec fn is_order(names: Seq<Seq<char>>, order: Seq<usize>) -> bool {
    &&& order.len() == names.len()
    &&& forall|i: int| 0 <= i < order.len() ==> (#[trigger] order[i]) < names.len()
    &&& forall|i: int, j: int|
        0 <= i < j < order.len() ==> #[trigger] first_of(names, order[i] as int, order[j] as int)
}

/// Of two names one comes first, unless they are the same.
pub proof fn precedes_is_total(a: Seq<char>, b: Seq<char>)
    ensures
        precedes(a, b) || precedes(b, a) || a == b,
        !(precedes(a, b) && precedes(b, a)),
        a == b ==> !precedes(a, b),
    decreases a.len(),
{
    if a.len() > 0 && b.len() > 0 {
        if a[0] == b[0] {
            precedes_is_total(a.skip(1), b.skip(1));
            if a.skip(1) == b.skip(1) {
                assert forall|i: int| 0 <= i < a.len() implies a[i] == b[i] by {
                    if i > 0 {
                        assert(a.skip(1)[i - 1] == b.skip(1)[i - 1]);
                    }
                }
                assert(a.len() == b.len());
                assert(a =~= b);
            }
        } else {
            assert(a[0] < b[0] || b[0] < a[0]);
        }
    } else if a.len() == 0 && b.len() == 0 {
        assert(a =~= b);
    }
}

pub proof fn precedes_is_transitive(a: Seq<char>, b: Seq<char>, c: Seq<char>)
    requires
        precedes(a, b),
        precedes(b, c),
    ensures
        precedes(a, c),
    decreases a.len(),
{
    if a.len() > 0 && a[0] == b[0] && b[0] == c[0] {
        precedes_is_transitive(a.skip(1), b.skip(1), c.skip(1));
    }
}

/// Whether `a` comes before `b`.
pub fn comes_before(a: &str, b: &str) -> (r: bool)
    ensures
        r == precedes(a@, b@),
{
    let x = chars_of(a);
    let y = chars_of(b);
    let mut i: usize = 0;
    assert(a@.skip(0) =~= a@);
    assert(b@.skip(0) =~= b@);
    while i < x.len() && i < y.len()
        invariant
            x@ == a@,
            y@ == b@,
            i <= x@.len(),
            i <= y@.len(),
            precedes(a@, b@) == precedes(a@.skip(i as int), b@.skip(i as int)),
        decreases x@.len() - i,
    {
        if x[i] != y[i] {
            return x[i] < y[i];
        }
        assert(a@.skip(i as int).skip(1) =~= a@.skip(i + 1));
        assert(b@.skip(i as int).skip(1) =~= b@.skip(i + 1));
        i = i + 1;
    }
    i < y.len()
}

/// The names in order, as indices.
pub fn sorted_order(names: &Vec<&str>) -> (r: Vec<usize>)
    ensures
        is_order(views(names@), r@),
{
    let ghost all = views(names@);
    let mut out: Vec<usize> = Vec::new();
    let mut k: usize = 0;
    while k < names.len()
        invariant
            k <= names@.len(),
            all == views(names@),
            out@.len() == k,
            forall|i: int| 0 <= i < out@.len() ==> (#[trigger] out@[i]) < k,
            forall|i: int, j: int|
                0 <= i < j < out@.len() ==> #[trigger] first_of(all, out@[i] as int, out@[j] as int),
        decreases names@.len() - k,
    {
        let mut p: usize = 0;
        while p < out.len() && !comes_before(names[k], names[out[p]])
            invariant
                p <= out@.len(),
                k < names@.len(),
                all == views(names@),
                forall|i: int| 0 <= i < out@.len() ==> (#[trigger] out@[i]) < k,
                forall|i: int| 0 <= i < p ==> !precedes(all[k as int], all[#[trigger] out@[i] as int]),
            decreases out@.len() - p,
        {
            p = p + 1;
        }
        let ghost had = out@;
        out.insert(p, k);
        proof {
            assert forall|i: int, j: int| 0 <= i < j < out@.len() implies #[trigger] first_of(
                all,
                out@[i] as int,
                out@[j] as int,
            ) by {
                lemma_inserted(all, had, p as int, k as int, i, j);
            }
            assert forall|i: int| 0 <= i < out@.len() implies (#[trigger] out@[i]) < k + 1 by {
                if i < p {
                    assert(out@[i] == had[i]);
                } else if i > p {
                    assert(out@[i] == had[i - 1]);
                }
            }
        }
        k = k + 1;
    }
    out
}

proof fn lemma_inserted(
    names: Seq<Seq<char>>,
    had: Seq<usize>,
    p: int,
    k: int,
    i: int,
    j: int,
)
    requires
        0 <= k < names.len(),
        k <= usize::MAX,
        0 <= p <= had.len(),
        forall|i: int| 0 <= i < had.len() ==> (#[trigger] had[i]) < k,
        forall|i: int, j: int|
            0 <= i < j < had.len() ==> #[trigger] first_of(names, had[i] as int, had[j] as int),
        forall|i: int| 0 <= i < p ==> !precedes(names[k], names[#[trigger] had[i] as int]),
        p < had.len() ==> precedes(names[k], names[had[p] as int]),
        0 <= i < j <= had.len(),
    ensures
        first_of(
            names,
            had.insert(p, k as usize)[i] as int,
            had.insert(p, k as usize)[j] as int,
        ),
{
    let out = had.insert(p, k as usize);
    if j < p {
        assert(first_of(names, had[i] as int, had[j] as int));
    } else if j == p {
        assert(out[i] == had[i]);
        precedes_is_total(names[k], names[had[i] as int]);
    } else if i < p {
        assert(first_of(names, had[i] as int, had[j - 1] as int));
    } else if i == p {
        assert(out[j] == had[j - 1]);
        if j - 1 > p {
            assert(first_of(names, had[p] as int, had[j - 1] as int));
            if precedes(names[had[p] as int], names[had[j - 1] as int]) {
                precedes_is_transitive(
                    names[k],
                    names[had[p] as int],
                    names[had[j - 1] as int],
                );
            }
        }
    } else {
        assert(first_of(names, had[i - 1] as int, had[j - 1] as int));
    }
}

/// Whether value `i` comes before value `j`: the larger, the earlier of two equal ones.
pub open spec fn hotter(v: Seq<i128>, i: int, j: int) -> bool {
    v[i] > v[j] || (v[i] == v[j] && i < j)
}

/// Whether `order` lists every value once, the largest first.
pub open spec fn is_heat_order(v: Seq<i128>, order: Seq<usize>) -> bool {
    &&& order.len() == v.len()
    &&& forall|i: int| 0 <= i < order.len() ==> (#[trigger] order[i]) < v.len()
    &&& forall|i: int, j: int|
        0 <= i < j < order.len() ==> #[trigger] hotter(v, order[i] as int, order[j] as int)
}

/// The values from the largest to the smallest, as indices.
pub fn hottest_first(v: &Vec<i128>) -> (r: Vec<usize>)
    ensures
        is_heat_order(v@, r@),
{
    let mut out: Vec<usize> = Vec::new();
    let mut k: usize = 0;
    while k < v.len()
        invariant
            k <= v@.len(),
            out@.len() == k,
            forall|i: int| 0 <= i < out@.len() ==> (#[trigger] out@[i]) < k,
            forall|i: int, j: int|
                0 <= i < j < out@.len() ==> #[trigger] hotter(v@, out@[i] as int, out@[j] as int),
        decreases v@.len() - k,
    {
        let mut p: usize = 0;
        while p < out.len() && v[k] <= v[out[p]]
            invariant
                p <= out@.len(),
                k < v@.len(),
                forall|i: int| 0 <= i < out@.len() ==> (#[trigger] out@[i]) < k,
                forall|i: int| 0 <= i < p ==> v@[k as int] <= v@[#[trigger] out@[i] as int],
            decreases out@.len() - p,
        {
            p = p + 1;
        }
        let ghost had = out@;
        out.insert(p, k);
        proof {
            assert forall|i: int, j: int| 0 <= i < j < out@.len() implies #[trigger] hotter(
                v@,
                out@[i] as int,
                out@[j] as int,
            ) by {
                if j < p {
                    assert(hotter(v@, had[i] as int, had[j] as int));
                } else if j == p {
                    assert(out@[i] == had[i]);
                } else if i < p {
                    assert(hotter(v@, had[i] as int, had[j - 1] as int));
                } else if i == p {
                    assert(out@[j] == had[j - 1]);
                    if j - 1 > p {
                        assert(hotter(v@, had[p as int] as int, had[j - 1] as int));
                    }
                } else {
                    assert(hotter(v@, had[i - 1] as int, had[j - 1] as int));
                }
            }
            assert forall|i: int| 0 <= i < out@.len() implies (#[trigger] out@[i]) < k + 1 by {
                if i < p {
                    assert(out@[i] == had[i]);
                } else if i > p {
                    assert(out@[i] == had[i - 1]);
                }
            }
        }
        k = k + 1;
    }
    out
}

/// Of two names the first character in which they differ decides, by its code. A name that the
/// other starts with comes first.
pub proof fn the_first_difference_decides(a: Seq<char>, b: Seq<char>, k: int)
    requires
        0 <= k <= a.len(),
        k <= b.len(),
        forall|i: int| 0 <= i < k ==> a[i] == b[i],
    ensures
        k < a.len() && k < b.len() && a[k] != b[k] ==> (precedes(a, b) <==> a[k] < b[k]),
        k == a.len() && k < b.len() ==> precedes(a, b),
        k == b.len() ==> !precedes(a, b),
    decreases k,
{
    if k > 0 {
        let (x, y) = (a.skip(1), b.skip(1));
        assert forall|i: int| 0 <= i < k - 1 implies x[i] == y[i] by {
            assert(a[i + 1] == b[i + 1]);
        }
        the_first_difference_decides(x, y, k - 1);
    }
}

/// In an order every name stands once, no name comes after one that it precedes, and of two
/// equal ones the earlier comes first.
pub proof fn an_order_ascends(names: Seq<Seq<char>>, order: Seq<usize>, i: int, j: int)
    requires
        is_order(names, order),
        0 <= i < j < order.len(),
    ensures
        order.len() == names.len(),
        order[i] < names.len() && order[j] < names.len() && order[i] != order[j],
        !precedes(names[order[j] as int], names[order[i] as int]),
        names[order[i] as int] == names[order[j] as int] ==> order[i] < order[j],
{
    assert(first_of(names, order[i] as int, order[j] as int));
    precedes_is_total(names[order[i] as int], names[order[j] as int]);
}

/// In an order by heat every value stands once, none comes after a smaller one, and of two equal
/// ones the earlier comes first.
pub proof fn a_heat_order_falls(v: Seq<i128>, order: Seq<usize>, i: int, j: int)
    requires
        is_heat_order(v, order),
        0 <= i < j < order.len(),
    ensures
        order.len() == v.len(),
        order[i] < v.len() && order[j] < v.len() && order[i] != order[j],
        v[order[i] as int] >= v[order[j] as int],
        v[order[i] as int] == v[order[j] as int] ==> order[i] < order[j],
{
    assert(hotter(v, order[i] as int, order[j] as int));
}

}
