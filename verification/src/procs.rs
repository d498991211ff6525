//! Per-process CPU accounting, for attributing package power.
//!
//! Nothing here measures a process's power, because nothing can: this measures CPU time per
//! process, so that package power can be divided up in proportion to it.

use vstd::prelude::*;
use crate::number::{decimal, decimal_reads_back, parse_up_to, unsigned};
use crate::order::{hotter, hottest_first, is_heat_order};
use crate::text::{
    before,
    before_last,
    find,
    find_last,
    lemma_before,
    lines,
    lines_of,
    starts_with,
    views,
    without_return,
    words,
    words_of,
};

verus! {

/// One process's cumulative CPU time, in kernel ticks.
#[derive(Debug, Clone, PartialEq, Eq)]
pub struct Sample {
    pub name: String,
    pub ticks: u64,
}

/// A process's share of the machine over an interval: `ticks` of `total_ticks`, all cores
/// counted.
#[derive(Debug, Clone, PartialEq, Eq)]
pub struct Share {
    pub name: String,
    pub pid: u32,
    pub ticks: u64,
    pub total_ticks: u64,
}

/// The sum of the first `n` fields, where each is a number and the sum still one.
pub open spec fn field_sum(fields: Seq<Seq<char>>, n: int) -> Option<nat>
    decreases n,
{
    if n <= 0 {
        Some(0)
    } else {
        match (field_sum(fields, n - 1), unsigned(fields[n - 1], u64::MAX as nat)) {
            (Some(t), Ok(v)) if t + v <= u64::MAX => Some(t + v),
            _ => None,
        }
    }
}

/// The ticks of all CPUs in the text of `/proc/stat`: what the fields of its first line add
/// up to, where that is the line of all CPUs.
pub open spec fn ticks_in(stat: Seq<char>) -> Option<nat> {
    let ls = lines_of(stat);
    if ls.len() == 0 || !"cpu "@.is_prefix_of(ls[0]) {
        None
    } else {
        let fields = words_of(ls[0]).skip(1);
        field_sum(fields, fields.len() as int)
    }
}

/// Total ticks across all CPUs, idle included: dividing power among the few busy processes
/// alone would hand them the idle draw as well.
pub fn total_ticks(stat: &str) -> (r: Option<u64>)
    ensures
        match r {
            Some(n) => ticks_in(stat@) == Some(n as nat),
            None => ticks_in(stat@) is None,
        },
{
    let ls = lines(stat);
    assert(views(ls@).len() == ls@.len());
    if ls.len() == 0 {
        return None;
    }
    assert(lines_of(stat@)[0] == ls@[0]@);
    if !starts_with(ls[0], "cpu ") {
        return None;
    }
    let all = words(ls[0]);
    let ghost fields = words_of(ls@[0]@).skip(1);
    assert(views(all@).len() == all@.len());
    let mut total: u64 = 0;
    let mut i: usize = 1;
    proof {
        reveal_strlit("cpu ");
        lemma_has_word(ls@[0]@);
    }
    while i < all.len()
        invariant
            1 <= i <= all@.len(),
            views(all@) == words_of(ls@[0]@),
            fields == words_of(ls@[0]@).skip(1),
            fields.len() == all@.len() - 1,
            field_sum(fields, i - 1) == Some(total as nat),
            ls@.len() > 0,
            lines_of(stat@).len() > 0,
            lines_of(stat@)[0] == ls@[0]@,
            "cpu "@.is_prefix_of(ls@[0]@),
        decreases all@.len() - i,
    {
        assert(fields[i - 1] == all@[i as int]@);
        match parse_up_to(all[i], u64::MAX) {
            Ok(v) if v <= u64::MAX - total => {
                total = total + v;
            },
            _ => {
                proof {
                    lemma_no_sum(fields, i as int);
                }
                return None;
            },
        }
        i = i + 1;
    }
    Some(total)
}

/// A line that starts with a letter has a word.
proof fn lemma_has_word(s: Seq<char>)
    requires
        "cpu "@.is_prefix_of(s),
    ensures
        words_of(s).len() > 0,
{
    reveal_strlit("cpu ");
    assert("cpu "@[0] == 'c');
    assert(s[0] == 'c');
    assert(crate::text::trim_start(s) == s);
}

proof fn lemma_no_sum(fields: Seq<Seq<char>>, n: int)
    requires
        0 <= n <= fields.len(),
        field_sum(fields, n) is None,
    ensures
        field_sum(fields, fields.len() as int) is None,
    decreases fields.len() - n,
{
    if n < fields.len() {
        lemma_no_sum(fields, n + 1);
    }
}

/// What the text of a process's `stat` says: its name, which stands in parentheses and may
/// itself hold spaces and parentheses, and its user and system time.
pub open spec fn stat_of(stat: Seq<char>) -> Option<(Seq<char>, nat)> {
    let open = before(stat, '(');
    match before_last(stat, ')') {
        Some(close) if open < stat.len() && open < close => {
            let rest = words_of(stat.skip(close as int + 1));
            if rest.len() <= 12 {
                None
            } else {
                match (
                    unsigned(rest[11], u64::MAX as nat),
                    unsigned(rest[12], u64::MAX as nat),
                ) {
                    (Ok(u), Ok(s)) if u + s <= u64::MAX => Some(
                        (stat.subrange(open as int + 1, close as int), u + s),
                    ),
                    _ => None,
                }
            }
        },
        _ => None,
    }
}

/// One process's sample, from the text of its `stat`.
pub fn parse_stat(stat: &str) -> (r: Option<Sample>)
    ensures
        match r {
            Some(s) => stat_of(stat@) == Some((s.name@, s.ticks as nat)),
            None => stat_of(stat@) is None,
        },
{
    let n: usize = stat.unicode_len();
    let open: usize = find(stat, '(');
    let close: usize = match find_last(stat, ')') {
        None => {
            return None;
        },
        Some(i) => i,
    };
    if open >= n || close <= open {
        return None;
    }
    assert(stat@.subrange(close + 1, n as int) =~= stat@.skip(close + 1));
    let rest = words(stat.substring_char(close + 1, n));
    assert(views(rest@).len() == rest@.len());
    if rest.len() <= 12 {
        return None;
    }
    assert(views(rest@)[11] == rest@[11]@ && views(rest@)[12] == rest@[12]@);
    match (parse_up_to(rest[11], u64::MAX), parse_up_to(rest[12], u64::MAX)) {
        (Ok(u), Ok(s)) => {
            if u > u64::MAX - s {
                return None;
            }
            Some(Sample { name: stat.substring_char(open + 1, close).to_owned(), ticks: u + s })
        },
        _ => None,
    }
}

/// The ticks a process had, looking from entry `i` on.
pub open spec fn ticks_of(s: Seq<(u32, Sample)>, pid: u32, i: int) -> Option<u64>
    decreases s.len() - i,
{
    if i >= s.len() {
        None
    } else if s[i].0 == pid {
        Some(s[i].1.ticks)
    } else {
        ticks_of(s, pid, i + 1)
    }
}

/// A share as plain values.
pub struct Part {
    pub name: Seq<char>,
    pub pid: u32,
    pub ticks: u64,
    pub total_ticks: u64,
}

impl View for Share {
    type V = Part;

    open spec fn view(&self) -> Part {
        Part { name: self.name@, pid: self.pid, ticks: self.ticks, total_ticks: self.total_ticks }
    }
}

/// What one process used between two samples. One that appeared in between is skipped: it
/// would otherwise seem to have used its whole lifetime's time in this interval.
pub open spec fn used(before: Seq<(u32, Sample)>, now: (u32, Sample), total: u64) -> Option<Part> {
    match ticks_of(before, now.0, 0) {
        Some(was) if now.1.ticks > was => Some(
            Part {
                name: now.1.name@,
                pid: now.0,
                ticks: (now.1.ticks - was) as u64,
                total_ticks: total,
            },
        ),
        _ => None,
    }
}

/// What the first `n` processes used, those that used nothing left out.
pub open spec fn all_used(
    before: Seq<(u32, Sample)>,
    after: Seq<(u32, Sample)>,
    total: u64,
    n: int,
) -> Seq<Part>
    decreases n,
{
    if n <= 0 {
        seq![]
    } else {
        match used(before, after[n - 1], total) {
            Some(p) => all_used(before, after, total, n - 1).push(p),
            None => all_used(before, after, total, n - 1),
        }
    }
}

pub open spec fn weights(s: Seq<Part>) -> Seq<i128> {
    s.map_values(|p: Part| p.ticks as i128)
}

fn find_ticks(s: &Vec<(u32, Sample)>, pid: u32) -> (r: Option<u64>)
    ensures
        r == ticks_of(s@, pid, 0),
{
    let mut i: usize = 0;
    while i < s.len()
        invariant
            i <= s@.len(),
            ticks_of(s@, pid, 0) == ticks_of(s@, pid, i as int),
        decreases s@.len() - i,
    {
        if s[i].0 == pid {
            return Some(s[i].1.ticks);
        }
        i = i + 1;
    }
    None
}

pub open spec fn parts_of(s: Seq<Share>) -> Seq<Part> {
    s.map_values(|x: Share| x@)
}

/// Difference two samples into per-process shares, busiest first. `total_delta` is the whole
/// machine's tick delta over the same interval. A sample lists each process once; see
/// [`a_process_has_at_most_one_share`] for what that makes of the shares.
pub fn shares(before: &Vec<(u32, Sample)>, after: &Vec<(u32, Sample)>, total_delta: u64) -> (r: Vec<
    Share,
>)
    ensures
        total_delta == 0 ==> r@.len() == 0,
        total_delta > 0 ==> exists|order: Seq<usize>|
            #![trigger is_heat_order(
                weights(all_used(before@, after@, total_delta, after@.len() as int)),
                order,
            )]
            is_heat_order(
                weights(all_used(before@, after@, total_delta, after@.len() as int)),
                order,
            ) && parts_of(r@) == shared(before@, after@, total_delta, order),
{
    let mut out: Vec<Share> = Vec::new();
    if total_delta == 0 {
        return out;
    }
    let mut found: Vec<Share> = Vec::new();
    let mut heat: Vec<i128> = Vec::new();
    let mut i: usize = 0;
    assert(parts_of(found@) =~= seq![]);
    while i < after.len()
        invariant
            i <= after@.len(),
            parts_of(found@) == all_used(before@, after@, total_delta, i as int),
            heat@ == weights(parts_of(found@)),
        decreases after@.len() - i,
    {
        if let Some(was) = find_ticks(before, after[i].0) {
            let now: u64 = after[i].1.ticks;
            if now > was {
                let ghost had = found@;
                let share = Share {
                    name: after[i].1.name.clone(),
                    pid: after[i].0,
                    ticks: now - was,
                    total_ticks: total_delta,
                };
                heat.push((now - was) as i128);
                found.push(share);
                assert(parts_of(found@) =~= parts_of(had).push(share@));
                assert(heat@ =~= weights(parts_of(found@)));
            }
        }
        i = i + 1;
    }
    let ghost all = all_used(before@, after@, total_delta, after@.len() as int);
    assert(found@.len() == parts_of(found@).len());
    let order = hottest_first(&heat);
    let mut n: usize = 0;
    while n < order.len()
        invariant
            n <= order@.len(),
            order@.len() == found@.len(),
            parts_of(found@) == all,
            forall|k: int| 0 <= k < order@.len() ==> (#[trigger] order@[k]) < found@.len(),
            out@.len() == n,
            forall|k: int| 0 <= k < n ==> (#[trigger] out@[k])@ == all[order@[k] as int],
        decreases order@.len() - n,
    {
        let s = &found[order[n]];
        assert(all[order@[n as int] as int] == s@);
        out.push(
            Share { name: s.name.clone(), pid: s.pid, ticks: s.ticks, total_ticks: s.total_ticks },
        );
        n = n + 1;
    }
    assert(parts_of(out@) =~= shared(before@, after@, total_delta, order@));
    out
}

/// Whether every process stands in a sample at most once.
pub open spec fn once_each(s: Seq<(u32, Sample)>) -> bool {
    forall|i: int, j: int| 0 <= i < j < s.len() ==> s[i].0 != s[j].0
}

proof fn lemma_ticks_of(s: Seq<(u32, Sample)>, k: int, i: int)
    requires
        once_each(s),
        0 <= i <= k < s.len(),
    ensures
        ticks_of(s, s[k].0, i) == Some(s[k].1.ticks),
    decreases k - i,
{
    if i < k {
        lemma_ticks_of(s, k, i + 1);
    }
}

proof fn lemma_all_used(
    before: Seq<(u32, Sample)>,
    after: Seq<(u32, Sample)>,
    total: u64,
    n: int,
)
    requires
        once_each(after),
        0 <= n <= after.len(),
    ensures
        ({
            let all = all_used(before, after, total, n);
            &&& forall|k: int|
                0 <= k < all.len() ==> exists|i: int|
                    0 <= i < n && used(before, #[trigger] after[i], total) == Some(
                        #[trigger] all[k],
                    )
            &&& forall|i: int|
                0 <= i < n && used(before, #[trigger] after[i], total) is Some ==> all.contains(
                    used(before, after[i], total)->0,
                )
            &&& forall|j: int, k: int| 0 <= j < k < all.len() ==> all[j].pid != all[k].pid
        }),
    decreases n,
{
    if n > 0 {
        lemma_all_used(before, after, total, n - 1);
        let had = all_used(before, after, total, n - 1);
        let all = all_used(before, after, total, n);
        if let Some(p) = used(before, after[n - 1], total) {
            assert(all == had.push(p));
            assert(all.last() == p);
            assert forall|k: int| 0 <= k < all.len() implies exists|i: int|
                0 <= i < n && used(before, #[trigger] after[i], total) == Some(
                    #[trigger] all[k],
                ) by {
                if k < had.len() {
                    let i = choose|i: int|
                        0 <= i < n - 1 && used(before, #[trigger] after[i], total) == Some(had[k]);
                    assert(used(before, after[i], total) == Some(all[k]));
                } else {
                    assert(used(before, after[n - 1], total) == Some(all[k]));
                }
            }
            assert forall|i: int|
                0 <= i < n && used(before, #[trigger] after[i], total) is Some implies all.contains(
                used(before, after[i], total)->0,
            ) by {
                if i < n - 1 {
                    let q = used(before, after[i], total)->0;
                    let k = choose|k: int| 0 <= k < had.len() && had[k] == q;
                    assert(all[k] == q);
                } else {
                    assert(all[had.len() as int] == p);
                }
            }
            assert forall|j: int, k: int| 0 <= j < k < all.len() implies all[j].pid
                != all[k].pid by {
                if k == had.len() {
                    let i = choose|i: int|
                        0 <= i < n - 1 && used(before, #[trigger] after[i], total) == Some(had[j]);
                    assert(after[i].0 != after[n - 1].0);
                }
            }
        }
    }
}

/// An order of so many places lists each of them.
proof fn lemma_order_lists_all(v: Seq<i128>, order: Seq<usize>, k: int) -> (i: int)
    requires
        is_heat_order(v, order),
        0 <= k < v.len(),
    ensures
        0 <= i < order.len(),
        order[i] == k,
{
    let places = order.map_values(|x: usize| x as int);
    assert forall|i: int, j: int| 0 <= i < places.len() && 0 <= j < places.len() && i
        != j implies places[i] != places[j] by {
        if i < j {
            assert(hotter(v, order[i] as int, order[j] as int));
        } else {
            assert(hotter(v, order[j] as int, order[i] as int));
        }
    }
    assert(places.no_duplicates());
    places.unique_seq_to_set();
    let all = vstd::set_lib::set_int_range(0, v.len() as int);
    vstd::set_lib::lemma_int_range(0, v.len() as int);
    assert(places.to_set().subset_of(all)) by {
        assert forall|x: int| places.to_set().contains(x) implies all.contains(x) by {
            let i = choose|i: int| 0 <= i < places.len() && places[i] == x;
            assert(order[i] < v.len());
        }
    }
    vstd::set_lib::lemma_subset_equality(places.to_set(), all);
    assert(places.to_set().contains(k));
    let i = choose|i: int| 0 <= i < places.len() && places[i] == k;
    i
}

/// The shares of two samples in an order.
pub open spec fn shared(
    before: Seq<(u32, Sample)>,
    after: Seq<(u32, Sample)>,
    total: u64,
    order: Seq<usize>,
) -> Seq<Part> {
    order.map_values(|k: usize| all_used(before, after, total, after.len() as int)[k as int])
}

/// Where every process stands in each sample at most once, a process has a share exactly
/// where it stands in both with more ticks in the later one. It has one share, with what it
/// used in between, and no share is larger than one before it.
pub proof fn a_process_has_at_most_one_share(
    before: Seq<(u32, Sample)>,
    after: Seq<(u32, Sample)>,
    total: u64,
    order: Seq<usize>,
)
    requires
        once_each(before),
        once_each(after),
        is_heat_order(weights(all_used(before, after, total, after.len() as int)), order),
    ensures
        ({
            let r = shared(before, after, total, order);
            &&& forall|i: int, j: int|
                0 <= i < j < r.len() ==> r[i].pid != r[j].pid && r[i].ticks >= r[j].ticks
            &&& forall|i: int, j: int|
                0 <= i < before.len() && 0 <= j < after.len() && (#[trigger] before[i]).0 == (
                #[trigger] after[j]).0 && after[j].1.ticks > before[i].1.ticks ==> r.contains(
                    Part {
                        name: after[j].1.name@,
                        pid: after[j].0,
                        ticks: (after[j].1.ticks - before[i].1.ticks) as u64,
                        total_ticks: total,
                    },
                )
            &&& forall|k: int|
                0 <= k < r.len() ==> exists|j: int|
                    0 <= j < after.len() && used(before, #[trigger] after[j], total) == Some(
                        #[trigger] r[k],
                    )
        }),
{
    let all = all_used(before, after, total, after.len() as int);
    let r = shared(before, after, total, order);
    let v = weights(all);
    lemma_all_used(before, after, total, after.len() as int);
    assert forall|i: int, j: int| 0 <= i < j < r.len() implies r[i].pid != r[j].pid && r[i].ticks
        >= r[j].ticks by {
        assert(hotter(v, order[i] as int, order[j] as int));
        assert(order[i] != order[j]);
    }
    assert forall|i: int, j: int|
        0 <= i < before.len() && 0 <= j < after.len() && (#[trigger] before[i]).0 == (
        #[trigger] after[j]).0 && after[j].1.ticks > before[i].1.ticks implies r.contains(
        Part {
            name: after[j].1.name@,
            pid: after[j].0,
            ticks: (after[j].1.ticks - before[i].1.ticks) as u64,
            total_ticks: total,
        },
    ) by {
        lemma_ticks_of(before, i, 0);
        let p = used(before, after[j], total)->0;
        assert(all.contains(p));
        let k = choose|k: int| 0 <= k < all.len() && all[k] == p;
        let n = lemma_order_lists_all(v, order, k);
        assert(r[n] == p);
    }
    assert forall|k: int| 0 <= k < r.len() implies exists|j: int|
        0 <= j < after.len() && used(before, #[trigger] after[j], total) == Some(
            #[trigger] r[k],
        ) by {
        assert(order[k] < v.len());
        assert(r[k] == all[order[k] as int]);
    }
}

/// Each share is what one process used: the process stands in both samples with more ticks in
/// the later one, and the share has its number, its name, the difference, and the machine's
/// ticks to hold it against.
pub proof fn a_share_is_what_its_process_used(
    before: Seq<(u32, Sample)>,
    after: Seq<(u32, Sample)>,
    total: u64,
    order: Seq<usize>,
    k: int,
) -> (at: (int, int))
    requires
        once_each(before),
        once_each(after),
        is_heat_order(weights(all_used(before, after, total, after.len() as int)), order),
        0 <= k < order.len(),
    ensures
        ({
            let r = shared(before, after, total, order)[k];
            let (i, j) = at;
            &&& 0 <= i < before.len() && 0 <= j < after.len()
            &&& before[i].0 == after[j].0 && r.pid == after[j].0
            &&& r.name == after[j].1.name@
            &&& before[i].1.ticks + r.ticks == after[j].1.ticks
            &&& r.ticks > 0
            &&& r.total_ticks == total
        }),
{
    a_process_has_at_most_one_share(before, after, total, order);
    let r = shared(before, after, total, order);
    assert(r.len() == order.len());
    let j = choose|j: int|
        0 <= j < after.len() && used(before, #[trigger] after[j], total) == Some(r[k]);
    let i = lemma_ticks_from(before, after[j].0, 0);
    (i, j)
}

proof fn lemma_ticks_from(s: Seq<(u32, Sample)>, pid: u32, i: int) -> (k: int)
    requires
        0 <= i,
        ticks_of(s, pid, i) is Some,
    ensures
        i <= k < s.len(),
        s[k].0 == pid,
        ticks_of(s, pid, i) == Some(s[k].1.ticks),
    decreases s.len() - i,
{
    if s[i].0 == pid {
        i
    } else {
        lemma_ticks_from(s, pid, i + 1)
    }
}

/// The ticks of all CPUs are what all the fields add up to, where each is a number and the sum
/// still one.
pub proof fn fields_add_up(fields: Seq<Seq<char>>, ticks: Seq<int>)
    requires
        fields.len() == ticks.len(),
        forall|i: int|
            0 <= i < ticks.len() ==> 0 <= #[trigger] ticks[i] && fields[i] == decimal(
                ticks[i] as nat,
            ),
    ensures
        ({
            let sum = ticks.fold_left(0, |a: int, b: int| a + b);
            &&& sum <= u64::MAX ==> field_sum(fields, fields.len() as int) == Some(sum as nat)
            &&& sum > u64::MAX ==> field_sum(fields, fields.len() as int) is None
            &&& sum >= 0
        }),
    decreases fields.len(),
{
    if fields.len() > 0 {
        let n = fields.len() - 1;
        let (f, t) = (fields.drop_last(), ticks.drop_last());
        fields_add_up(f, t);
        lemma_field_sum_same(f, fields, n);
        assert(ticks[n] >= 0 && fields[n] == decimal(ticks[n] as nat));
        decimal_reads_back(ticks[n] as nat, u64::MAX as nat);
    }
}

proof fn lemma_field_sum_same(a: Seq<Seq<char>>, b: Seq<Seq<char>>, n: int)
    requires
        0 <= n <= a.len(),
        n <= b.len(),
        forall|i: int| 0 <= i < n ==> a[i] == b[i],
    ensures
        field_sum(a, n) == field_sum(b, n),
    decreases n,
{
    if n > 0 {
        lemma_field_sum_same(a, b, n - 1);
    }
}

/// A process's name is everything between the first opening and the last closing parenthesis,
/// and its ticks are the user and the system time: the twelfth and the thirteenth word behind
/// them.
pub proof fn a_stat_gives_the_name_and_both_times(
    front: Seq<char>,
    name: Seq<char>,
    rest: Seq<char>,
    user: nat,
    system: nat,
)
    requires
        forall|i: int| 0 <= i < front.len() ==> front[i] != '(',
        forall|i: int| 0 <= i < rest.len() ==> rest[i] != ')',
        words_of(rest).len() > 12,
        words_of(rest)[11] == decimal(user),
        words_of(rest)[12] == decimal(system),
        user + system <= u64::MAX,
    ensures
        stat_of(front + seq!['('] + name + seq![')'] + rest) == Some((name, user + system)),
{
    let s = front + seq!['('] + name + seq![')'] + rest;
    let open = front.len();
    let close = open + 1 + name.len();
    lemma_before(s, '(', open);
    assert(s[close as int] == ')');
    lemma_last(s, ')', close as int);
    assert(s.skip(close as int + 1) =~= rest);
    assert(s.subrange(open as int + 1, close as int) =~= name);
    decimal_reads_back(user, u64::MAX as nat);
    decimal_reads_back(system, u64::MAX as nat);
}

proof fn lemma_last(s: Seq<char>, c: char, k: int)
    requires
        0 <= k < s.len(),
        s[k] == c,
        forall|i: int| k < i < s.len() ==> s[i] != c,
    ensures
        before_last(s, c) == Some(k as nat),
    decreases s.len(),
{
    if k < s.len() - 1 {
        assert(s.last() != c);
        lemma_last(s.drop_last(), c, k);
    }
}

/// Only the first line counts, and it has to be that of all CPUs.
pub proof fn only_the_first_line_counts(l: Seq<char>, a: Seq<char>, b: Seq<char>)
    requires
        forall|i: int| 0 <= i < l.len() ==> l[i] != '\n',
    ensures
        ticks_in(l + seq!['\n'] + a) == ticks_in(l + seq!['\n'] + b),
        ticks_in(l + seq!['\n'] + a) is Some ==> "cpu "@.is_prefix_of(l),
        l.len() > 0 && l.last() != '\r' ==> ticks_in(l + seq!['\n'] + a) == ticks_in(l),
{
    lemma_first_line(l, a);
    lemma_first_line(l, b);
    if "cpu "@.is_prefix_of(without_return(l)) {
        assert forall|i: int| 0 <= i < "cpu "@.len() implies "cpu "@[i] == l[i] by {
            assert(without_return(l)[i] == l[i]);
        }
    }
    if l.len() > 0 {
        lemma_before(l, '\n', l.len());
        assert(lines_of(l) =~= seq![l]);
    }
}

proof fn lemma_first_line(l: Seq<char>, a: Seq<char>)
    requires
        forall|i: int| 0 <= i < l.len() ==> l[i] != '\n',
    ensures
        ({
            let ls = lines_of(l + seq!['\n'] + a);
            ls.len() > 0 && ls[0] == without_return(l)
        }),
{
    let w = l + seq!['\n'] + a;
    lemma_before(w, '\n', l.len());
    assert(w.take(l.len() as int) =~= l);
}

}
