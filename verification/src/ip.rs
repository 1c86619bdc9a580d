//! IPv4 address ranges and the partitioning of ranges across scan workers.
//!
//! A [`Subnet`] is a contiguous block of IPv4 addresses written as a base
//! address plus a prefix length.  [`Subnet::calc_thread_subnets`] divides a
//! list of subnets across a number of workers so that the total address
//! counts are balanced: ranges are handed out largest first, every worker
//! receives one range before any worker receives a second, and after that
//! each range goes to the least-loaded worker, ties falling to the lowest
//! worker id.

use vstd::prelude::*;
use crate::text::dec_str;
use crate::text::u64_dec_string;
use vstd::multiset::Multiset;
use vstd::relations::{sorted_by, total_ordering};
use vstd::seq_lib::group_to_multiset_ensures;
use vstd::seq_lib::lemma_multiset_commutative;
use vstd::seq_lib::lemma_sorted_unique;

verus! {

/// A block of IPv4 addresses: base address and prefix length.
///
/// The prefix length (`mask`) counts the fixed leading bits, so the block
/// holds `2^(32 - mask)` addresses; a well-formed subnet has `mask <= 32`.
#[derive(Clone, Copy, Debug, PartialEq, Eq, Structural)]
pub struct Subnet {
    /// Base address, as the big-endian integer value of the four octets.
    pub addr: u32,
    /// Prefix length, `0 ..= 32`.
    pub mask: u8,
}

/// Error for text that is not `address/prefix` in CIDR notation.
#[derive(Clone, Copy, Debug, PartialEq, Eq, Structural)]
pub struct SubnetParseError;

/// Error for a partition request with zero workers.
#[derive(Clone, Copy, Debug, PartialEq, Eq, Structural)]
pub struct NoWorkersError;

impl Subnet {
    /// A subnet is well formed when its prefix length is at most 32.
    pub open spec fn wf(self) -> bool {
        self.mask <= 32
    }

    /// Number of addresses in the block: `2^(32 - mask)`.
    pub open spec fn spec_count(self) -> u64
        recommends
            self.wf(),
    {
        1u64 << ((32 - self.mask) as u64)
    }

    pub fn new(addr: u32, mask: u8) -> (r: Subnet)
        requires
            mask <= 32,
        ensures
            r == (Subnet { addr, mask }),
            r.wf(),
    {
        Subnet { addr, mask }
    }

    /// Upper bound on the address count of any subnet: `2^32`.
    pub fn get_max_uniq_ips() -> (r: u64)
        ensures
            r == 0x1_0000_0000u64,
    {
        4294967296
    }

    /// Number of distinct addresses the block covers.
    pub fn num_uniq_ips(&self) -> (r: u64)
        requires
            self.wf(),
        ensures
            r == self.spec_count(),
            1 <= r <= 0x1_0000_0000u64,
    {
        proof {
            lemma_count_bounds(*self);
        }
        1u64 << ((32 - self.mask) as u64)
    }
}

/// The address count of a well-formed subnet lies between 1 and `2^32`.
pub proof fn lemma_count_bounds(s: Subnet)
    requires
        s.wf(),
    ensures
        1 <= s.spec_count() <= 0x1_0000_0000u64,
{
    let sh: u64 = (32 - s.mask) as u64;
    assert(sh <= 32 ==> 1u64 <= (1u64 << sh) <= 0x1_0000_0000u64) by (bit_vector);
}

/// Workers take ranges in this order: larger blocks first (smaller prefix
/// length), ties broken by ascending base address.  This is a total order,
/// which makes the sorted order, and with it the whole assignment,
/// deterministic.
pub open spec fn subnet_le(a: Subnet, b: Subnet) -> bool {
    a.mask < b.mask || (a.mask == b.mask && a.addr <= b.addr)
}

/// `subnet_le` as a closure, for the sequence-ordering predicates.
pub open spec fn by_size_order() -> spec_fn(Subnet, Subnet) -> bool {
    |a: Subnet, b: Subnet| subnet_le(a, b)
}

pub proof fn lemma_subnet_order_total()
    ensures
        total_ordering(by_size_order()),
{
}

fn subnet_le_exec(a: &Subnet, b: &Subnet) -> (r: bool)
    ensures
        r == subnet_le(*a, *b),
{
    a.mask < b.mask || (a.mask == b.mask && a.addr <= b.addr)
}

/// Sorts the ranges largest first (the `by_size_order` order), by stating
/// the result equal to the specification-level sort.
fn sort_subnets(v: &mut Vec<Subnet>)
    ensures
        final(v)@ == old(v)@.sort_by(by_size_order()),
        final(v)@.to_multiset() == old(v)@.to_multiset(),
        sorted_by(final(v)@, by_size_order()),
        final(v)@.len() == old(v)@.len(),
{
    proof {
        broadcast use group_to_multiset_ensures;
        broadcast use vstd::multiset::group_multiset_axioms;

        lemma_subnet_order_total();
    }
    let leq = Ghost(by_size_order());
    if v.len() <= 1 {
        proof {
            if v@.len() == 1 {
                assert(leq@(v@[0], v@[0]));
            }
            assert(sorted_by(v@, leq@));
            old(v)@.lemma_sort_by_ensures(leq@);
            lemma_sorted_unique(v@, old(v)@.sort_by(leq@), leq@);
        }
        return ;
    }
    let mut i: usize = 1;
    while i < v.len()
        invariant
            1 <= i <= v@.len(),
            v@.len() == old(v)@.len(),
            v@.to_multiset() == old(v)@.to_multiset(),
            sorted_by(v@.subrange(0, i as int), leq@),
            leq@ == by_size_order(),
        decreases v@.len() - i,
    {
        let x = v[i];
        let ghost before = v@;
        // Find the insertion point: everything in `p..i` is strictly above `x`
        // in the order, and the element just left of `p` is at most `x`.
        let mut p: usize = i;
        loop
            invariant_except_break
                p <= i < v@.len(),
                v@ == before,
                leq@ == by_size_order(),
                forall|k: int| p <= k < i ==> leq@(x, v@[k]),
            ensures
                p <= i < v@.len(),
                v@ == before,
                p == 0 || subnet_le(before[p - 1], x),
                forall|k: int| p <= k < i ==> leq@(x, before[k]),
            decreases p,
        {
            if p == 0 {
                break ;
            }
            if subnet_le_exec(&v[p - 1], &x) {
                break ;
            }
            proof {
                lemma_subnet_order_total();
            }
            p = p - 1;
        }
        v.remove(i);
        v.insert(p, x);
        proof {
            broadcast use group_to_multiset_ensures;
            broadcast use vstd::multiset::group_multiset_axioms;

            lemma_subnet_order_total();
            let after = v@;
            assert(after =~= before.subrange(0, p as int) + seq![x] + before.subrange(
                p as int,
                i as int,
            ) + before.subrange(i + 1, before.len() as int));
            // Sortedness of the grown prefix: everything left of the
            // insertion point is at most `x`, everything right of it in the
            // old prefix is at least `x`.
            let pre = before.subrange(0, i as int);
            assert(sorted_by(pre, leq@));
            assert forall|k: int| 0 <= k < p implies leq@(before[k], x) by {
                assert(leq@(pre[k], pre[p - 1]));
                assert(leq@(before[p - 1], x));
            }
            assert forall|a: int, b: int| 0 <= a <= b <= i implies leq@(
                after[a],
                after[b],
            ) by {
                if a < p {
                    assert(after[a] == pre[a]);
                } else if a == p {
                    assert(after[a] == x);
                } else {
                    assert(after[a] == pre[a - 1]);
                }
                if b < p {
                    assert(after[b] == pre[b]);
                } else if b == p {
                    assert(after[b] == x);
                } else {
                    assert(after[b] == pre[b - 1]);
                }
            }
            assert(sorted_by(after.subrange(0, i + 1), leq@));
            // The multiset is untouched: removing at `i` and inserting the
            // same element at `p` is a permutation.
            before.to_multiset_ensures();
            let removed = before.remove(i as int);
            assert(removed.to_multiset() == before.to_multiset().remove(x));
            let s0 = removed.subrange(0, p as int);
            let s1 = removed.subrange(p as int, removed.len() as int);
            assert(after =~= (s0 + seq![x]) + s1);
            lemma_multiset_commutative(s0 + seq![x], s1);
            lemma_multiset_commutative(s0, seq![x]);
            assert(seq![x] =~= Seq::<Subnet>::empty().push(x));
            Seq::<Subnet>::empty().to_multiset_ensures();
            assert(Seq::<Subnet>::empty().to_multiset() =~= Multiset::<Subnet>::empty());
            assert(seq![x].to_multiset() =~= Multiset::<Subnet>::empty().insert(x));
            assert(removed =~= s0 + s1);
            lemma_multiset_commutative(s0, s1);
            assert(after.to_multiset() =~= removed.to_multiset().insert(x));
            assert(before.to_multiset().contains(x));
            assert(after.to_multiset() =~= before.to_multiset());
        }
        i = i + 1;
    }
    proof {
        lemma_subnet_order_total();
        assert(v@.subrange(0, v@.len() as int) =~= v@);
        old(v)@.lemma_sort_by_ensures(by_size_order());
        lemma_sorted_unique(v@, old(v)@.sort_by(by_size_order()), by_size_order());
        assert(v@ =~= old(v)@.sort_by(by_size_order()));
    }
}


/// Total number of addresses over a list of subnets.
pub open spec fn total_count(s: Seq<Subnet>) -> int
    decreases s.len(),
{
    if s.len() == 0 {
        0
    } else {
        total_count(s.drop_last()) + s.last().spec_count()
    }
}

/// Every subnet of the list is well formed.
pub open spec fn all_wf(s: Seq<Subnet>) -> bool {
    forall|i: int| 0 <= i < s.len() ==> s[i].wf()
}

/// The view of a list of worker range lists, one sequence per worker.
pub open spec fn lists_view(a: Seq<Vec<Subnet>>) -> Seq<Seq<Subnet>> {
    Seq::new(a.len(), |i: int| a[i]@)
}

/// The assignment in which every worker still has an empty range list.
pub open spec fn empty_assignment(n: nat) -> Seq<Seq<Subnet>> {
    Seq::new(n, |i: int| Seq::<Subnet>::empty())
}

/// First worker id at or after `i` whose range list is still empty, or
/// `p.len()` when every worker from `i` on already has a range.
pub open spec fn first_idle_from(p: Seq<Seq<Subnet>>, i: int) -> int
    recommends
        0 <= i <= p.len(),
    decreases p.len() - i
        when i <= p.len()
{
    if i >= p.len() {
        p.len() as int
    } else if p[i].len() == 0 {
        i
    } else {
        first_idle_from(p, i + 1)
    }
}

/// Worker with the smallest total address count, scanning ids from `i`
/// upward with `best` as the best id seen so far; a strict comparison keeps
/// the lowest id on ties.
pub open spec fn least_loaded_from(p: Seq<Seq<Subnet>>, i: int, best: int) -> int
    recommends
        0 <= best < p.len(),
        0 <= i <= p.len(),
    decreases p.len() - i
        when i <= p.len()
{
    if i >= p.len() {
        best
    } else {
        least_loaded_from(
            p,
            i + 1,
            if total_count(p[i]) < total_count(p[best]) {
                i
            } else {
                best
            },
        )
    }
}

/// The worker that receives the next range: the first idle worker if any,
/// otherwise the least-loaded one (lowest id on ties).
pub open spec fn target_worker(p: Seq<Seq<Subnet>>) -> int
    recommends
        p.len() > 0,
{
    if first_idle_from(p, 0) < p.len() {
        first_idle_from(p, 0)
    } else {
        least_loaded_from(p, 1, 0)
    }
}

/// Appends one range to the range list of its target worker.
pub open spec fn place(p: Seq<Seq<Subnet>>, s: Subnet) -> Seq<Seq<Subnet>> {
    let t = target_worker(p);
    p.update(t, p[t].push(s))
}

/// The whole greedy assignment: ranges are handed out in list order, each
/// to its target worker at that point.
pub open spec fn assign_ranges(items: Seq<Subnet>, n: nat) -> Seq<Seq<Subnet>>
    decreases items.len(),
{
    if items.len() == 0 {
        empty_assignment(n)
    } else {
        place(assign_ranges(items.drop_last(), n), items.last())
    }
}

/// All ranges held by all workers of an assignment, as a multiset.
pub open spec fn assigned_multiset(p: Seq<Seq<Subnet>>) -> Multiset<Subnet>
    decreases p.len(),
{
    if p.len() == 0 {
        Multiset::empty()
    } else {
        assigned_multiset(p.drop_last()).add(p.last().to_multiset())
    }
}

proof fn lemma_first_idle_bounds(p: Seq<Seq<Subnet>>, i: int)
    requires
        0 <= i <= p.len(),
    ensures
        i <= first_idle_from(p, i) <= p.len(),
    decreases p.len() - i,
{
    if i < p.len() && p[i].len() != 0 {
        lemma_first_idle_bounds(p, i + 1);
    }
}

proof fn lemma_least_loaded_bounds(p: Seq<Seq<Subnet>>, i: int, best: int)
    requires
        0 <= best < p.len(),
        0 <= i <= p.len(),
    ensures
        0 <= least_loaded_from(p, i, best) < p.len(),
    decreases p.len() - i,
{
    if i < p.len() {
        if total_count(p[i]) < total_count(p[best]) {
            lemma_least_loaded_bounds(p, i + 1, i);
        } else {
            lemma_least_loaded_bounds(p, i + 1, best);
        }
    }
}

/// The target worker id is always in range.
pub proof fn lemma_target_bounds(p: Seq<Seq<Subnet>>)
    requires
        p.len() > 0,
    ensures
        0 <= target_worker(p) < p.len(),
{
    lemma_first_idle_bounds(p, 0);
    lemma_least_loaded_bounds(p, 1, 0);
}

proof fn lemma_assigned_multiset_update(p: Seq<Seq<Subnet>>, t: int, s: Subnet)
    requires
        0 <= t < p.len(),
    ensures
        assigned_multiset(p.update(t, p[t].push(s))) =~= assigned_multiset(p).insert(s),
    decreases p.len(),
{
    broadcast use group_to_multiset_ensures;
    broadcast use vstd::multiset::group_multiset_axioms;

    let q = p.update(t, p[t].push(s));
    if t == p.len() - 1 {
        assert(q.drop_last() =~= p.drop_last());
        assert(q.last() == p.last().push(s));
        p.last().to_multiset_ensures();
    } else {
        assert(q.drop_last() =~= p.drop_last().update(t, p.drop_last()[t].push(s)));
        assert(q.last() == p.last());
        lemma_assigned_multiset_update(p.drop_last(), t, s);
    }
}

proof fn lemma_empty_assignment_multiset(n: nat)
    ensures
        empty_assignment(n).len() == n,
        assigned_multiset(empty_assignment(n)) =~= Multiset::<Subnet>::empty(),
    decreases n,
{
    broadcast use group_to_multiset_ensures;
    broadcast use vstd::multiset::group_multiset_axioms;

    if n > 0 {
        lemma_empty_assignment_multiset((n - 1) as nat);
        assert(empty_assignment(n).drop_last() =~= empty_assignment((n - 1) as nat));
        Seq::<Subnet>::empty().to_multiset_ensures();
        vstd::multiset::lemma_multiset_empty_len(Seq::<Subnet>::empty().to_multiset());
    }
}

/// Partitioning coverage: however many workers there are, the greedy
/// assignment hands out every input range to exactly one worker; taken
/// together the workers hold exactly the input ranges, no range lost, none
/// duplicated.
pub proof fn lemma_assignment_coverage(items: Seq<Subnet>, n: nat)
    requires
        n > 0,
    ensures
        assign_ranges(items, n).len() == n,
        assigned_multiset(assign_ranges(items, n)) =~= items.to_multiset(),
    decreases items.len(),
{
    broadcast use group_to_multiset_ensures;
    broadcast use vstd::multiset::group_multiset_axioms;

    if items.len() == 0 {
        lemma_empty_assignment_multiset(n);
        items.to_multiset_ensures();
        vstd::multiset::lemma_multiset_empty_len(items.to_multiset());
        assert(items.to_multiset() =~= Multiset::<Subnet>::empty());
    } else {
        lemma_assignment_coverage(items.drop_last(), n);
        let p = assign_ranges(items.drop_last(), n);
        lemma_target_bounds(p);
        lemma_assigned_multiset_update(p, target_worker(p), items.last());
        items.drop_last().to_multiset_ensures();
        assert(items =~= items.drop_last().push(items.last()));
    }
}

fn first_idle(a: &Vec<Vec<Subnet>>) -> (r: usize)
    ensures
        r == first_idle_from(lists_view(a@), 0),
        r <= a@.len(),
{
    let ghost lv = lists_view(a@);
    let mut i: usize = 0;
    while i < a.len()
        invariant
            i <= a@.len(),
            lv == lists_view(a@),
            first_idle_from(lv, 0) == first_idle_from(lv, i as int),
        decreases a@.len() - i,
    {
        if a[i].len() == 0 {
            assert(first_idle_from(lv, i as int) == i);
            return i;
        }
        i = i + 1;
    }
    i
}

/// Total number of addresses over a list of subnets; the sum of up to
/// `2^30` well-formed subnets cannot overflow.
pub fn total_uniq_ips(l: &Vec<Subnet>) -> (r: u64)
    requires
        all_wf(l@),
        l@.len() <= 0x4000_0000,
    ensures
        r == total_count(l@),
{
    let mut sum: u64 = 0;
    let mut j: usize = 0;
    while j < l.len()
        invariant
            j <= l@.len() <= 0x4000_0000,
            all_wf(l@),
            sum == total_count(l@.take(j as int)),
            sum <= j * 0x1_0000_0000,
        decreases l@.len() - j,
    {
        proof {
            assert(l@.take(j + 1).drop_last() =~= l@.take(j as int));
            assert(l@.take(j + 1).last() == l@[j as int]);
            lemma_count_bounds(l@[j as int]);
        }
        sum = sum + l[j].num_uniq_ips();
        j = j + 1;
    }
    proof {
        assert(l@.take(l@.len() as int) =~= l@);
    }
    sum
}

fn min_ips(a: &Vec<Vec<Subnet>>) -> (r: usize)
    requires
        a@.len() >= 1,
        forall|t: int| 0 <= t < a@.len() ==> all_wf(#[trigger] a@[t]@),
        forall|t: int| 0 <= t < a@.len() ==> #[trigger] a@[t]@.len() <= 0x4000_0000,
    ensures
        r == least_loaded_from(lists_view(a@), 1, 0),
        r < a@.len(),
{
    let ghost lv = lists_view(a@);
    let mut best: usize = 0;
    let mut best_total: u64 = total_uniq_ips(&a[0]);
    let mut i: usize = 1;
    while i < a.len()
        invariant
            1 <= i <= a@.len(),
            best < a@.len(),
            lv == lists_view(a@),
            forall|t: int| 0 <= t < a@.len() ==> all_wf(#[trigger] a@[t]@),
            forall|t: int| 0 <= t < a@.len() ==> #[trigger] a@[t]@.len() <= 0x4000_0000,
            best_total == total_count(lv[best as int]),
            least_loaded_from(lv, 1, 0) == least_loaded_from(lv, i as int, best as int),
        decreases a@.len() - i,
    {
        let t = total_uniq_ips(&a[i]);
        if t < best_total {
            best = i;
            best_total = t;
        }
        i = i + 1;
    }
    best
}


impl Subnet {
    /// Divides the ranges across `num_threads` workers, balancing total
    /// address counts: ranges are taken largest first; every worker gets a
    /// range before any worker gets a second; after that each range goes to
    /// the least-loaded worker, ties to the lowest worker id.  Worker `t`
    /// scans the ranges of entry `t`, in order.  Zero workers is an error.
    pub fn calc_thread_subnets(subnets: Vec<Subnet>, num_threads: u32) -> (r: Result<
        Vec<Vec<Subnet>>,
        NoWorkersError,
    >)
        requires
            all_wf(subnets@),
            subnets@.len() <= 0x4000_0000,
        ensures
            match r {
                Ok(a) => num_threads > 0 && a@.len() == num_threads && lists_view(a@)
                    == assign_ranges(
                    subnets@.sort_by(by_size_order()),
                    num_threads as nat,
                ) && assigned_multiset(lists_view(a@)) == subnets@.to_multiset(),
                Err(_) => num_threads == 0,
            },
    {
        if num_threads == 0 {
            return Err(NoWorkersError);
        }
        let mut sorted = subnets;
        sort_subnets(&mut sorted);
        let ghost sseq = sorted@;
        proof {
            broadcast use group_to_multiset_ensures;

            assert forall|i: int| 0 <= i < sseq.len() implies sseq[i].wf() by {
                assert(sseq.to_multiset().contains(sseq[i]));
                assert(subnets@.to_multiset().contains(sseq[i]));
                let j = choose|j: int| 0 <= j < subnets@.len() && subnets@[j] == sseq[i];
                assert(subnets@[j].wf());
            }
        }
        let n: usize = num_threads as usize;
        let mut assignment: Vec<Vec<Subnet>> = Vec::new();
        while assignment.len() < n
            invariant
                assignment@.len() <= n,
                lists_view(assignment@) =~= empty_assignment(assignment@.len() as nat),
            decreases n - assignment@.len(),
        {
            let ghost prev = assignment@;
            assignment.push(Vec::new());
            proof {
                let lvn = lists_view(assignment@);
                assert forall|i: int| 0 <= i < lvn.len() implies lvn[i] =~= Seq::<
                    Subnet,
                >::empty() by {
                    if i < prev.len() {
                        assert(lvn[i] == lists_view(prev)[i]);
                    }
                }
                assert(lvn =~= empty_assignment(assignment@.len() as nat));
            }
        }
        proof {
            assert(sseq.take(0) =~= Seq::<Subnet>::empty());
            assert forall|t: int| 0 <= t < n implies #[trigger] assignment@[t]@.len() == 0 by {
                assert(lists_view(assignment@)[t] == assignment@[t]@);
            }
        }
        let mut k: usize = 0;
        while k < sorted.len()
            invariant
                k <= sorted@.len(),
                sorted@ == sseq,
                all_wf(sseq),
                sseq.len() <= 0x4000_0000,
                n >= 1,
                assignment@.len() == n,
                lists_view(assignment@) == assign_ranges(sseq.take(k as int), n as nat),
                forall|t: int| 0 <= t < n ==> #[trigger] assignment@[t]@.len() <= k,
                forall|t: int| 0 <= t < n ==> all_wf(#[trigger] assignment@[t]@),
            decreases sseq.len() - k,
        {
            let ghost lv = lists_view(assignment@);
            let s = sorted[k];
            let fi = first_idle(&assignment);
            let t: usize = if fi < assignment.len() {
                fi
            } else {
                min_ips(&assignment)
            };
            proof {
                lemma_target_bounds(lv);
                assert(t == target_worker(lv));
            }
            let mut row = assignment.remove(t);
            row.push(s);
            assignment.insert(t, row);
            proof {
                assert(lists_view(assignment@) =~= lv.update(t as int, lv[t as int].push(
                    sseq[k as int],
                )));
                assert(sseq.take(k + 1).drop_last() =~= sseq.take(k as int));
                assert(sseq.take(k + 1).last() == sseq[k as int]);
                assert(lists_view(assignment@) == assign_ranges(sseq.take(k + 1), n as nat));
            }
            k = k + 1;
        }
        proof {
            assert(sseq.take(sseq.len() as int) =~= sseq);
            lemma_assignment_coverage(sseq, n as nat);
        }
        Ok(assignment)
    }
}


/// Characters removed before parsing: ASCII whitespace.
pub open spec fn is_space_char(c: char) -> bool {
    c == ' ' || c == '\t' || c == '\r' || c == '\n'
}

/// Index of the first occurrence of `c` at or after `i`, or `-1`.
pub open spec fn find_from<A>(s: Seq<A>, c: A, i: int) -> int
    recommends
        0 <= i <= s.len(),
    decreases s.len() - i
        when i <= s.len()
{
    if i >= s.len() {
        -1
    } else if s[i] == c {
        i
    } else {
        find_from(s, c, i + 1)
    }
}

/// The characters kept by the whitespace strip.
pub open spec fn non_space() -> spec_fn(char) -> bool {
    |c: char| !is_space_char(c)
}

/// Whether `c` is a decimal digit.
pub open spec fn is_digit(c: char) -> bool {
    '0' <= c <= '9'
}

pub open spec fn all_digits(s: Seq<char>) -> bool {
    forall|i: int| 0 <= i < s.len() ==> is_digit(#[trigger] s[i])
}

/// Numeric value of a digit string (meaningful only when `all_digits`).
pub open spec fn dec_value(s: Seq<char>) -> int
    decreases s.len(),
{
    if s.len() == 0 {
        0
    } else {
        dec_value(s.drop_last()) * 10 + (s.last() as int - '0' as int)
    }
}

/// One octet of a dotted quad: one to three digits, no leading zero (except
/// `"0"` itself), value at most 255.
pub open spec fn parse_octet(s: Seq<char>) -> Option<u32> {
    if 1 <= s.len() <= 3 && all_digits(s) && (s.len() == 1 || s[0] != '0') && 0
        <= dec_value(s) <= 255 {
        Some(dec_value(s) as u32)
    } else {
        None
    }
}

/// The prefix length after the slash: one to three digits (leading zeros
/// allowed), value at most 32.
pub open spec fn parse_mask(s: Seq<char>) -> Option<u8> {
    if 1 <= s.len() <= 3 && all_digits(s) && 0 <= dec_value(s) <= 32 {
        Some(dec_value(s) as u8)
    } else {
        None
    }
}

/// A dotted quad `A.B.C.D`, as the 32-bit address value.
pub open spec fn parse_quad(s: Seq<char>) -> Option<u32> {
    let d1 = find_from(s, '.', 0);
    if d1 < 0 {
        None
    } else {
        let r1 = s.skip(d1 + 1);
        let d2 = find_from(r1, '.', 0);
        if d2 < 0 {
            None
        } else {
            let r2 = r1.skip(d2 + 1);
            let d3 = find_from(r2, '.', 0);
            if d3 < 0 {
                None
            } else {
                let r3 = r2.skip(d3 + 1);
                match (parse_octet(s.take(d1)), parse_octet(r1.take(d2)), parse_octet(
                    r2.take(d3),
                ), parse_octet(r3)) {
                    (Some(a), Some(b), Some(c), Some(d)) => Some(
                        (a * 0x1000000 + b * 0x10000 + c * 0x100 + d) as u32,
                    ),
                    _ => None,
                }
            }
        }
    }
}

/// The whole grammar: ASCII whitespace is dropped anywhere in the line,
/// then the text must be `quad/mask` with exactly one slash (a second slash
/// would leave a non-digit in the mask part).
pub open spec fn parse_subnet(s: Seq<char>) -> Option<Subnet> {
    let t = s.filter(non_space());
    let i = find_from(t, '/', 0);
    if i < 0 {
        None
    } else {
        match (parse_quad(t.take(i)), parse_mask(t.skip(i + 1))) {
            (Some(addr), Some(mask)) => Some(Subnet { addr, mask }),
            _ => None,
        }
    }
}


fn is_space_exec(c: char) -> (r: bool)
    ensures
        r == is_space_char(c),
{
    c == ' ' || c == '\t' || c == '\r' || c == '\n'
}

fn strip_spaces(s: &str) -> (t: Vec<char>)
    ensures
        t@ == s@.filter(non_space()),
{
    let n = s.unicode_len();
    let mut t: Vec<char> = Vec::new();
    let mut i: usize = 0;
    while i < n
        invariant
            i <= n,
            n == s@.len(),
            t@ == s@.take(i as int).filter(non_space()),
        decreases n - i,
    {
        let c = s.get_char(i);
        if !is_space_exec(c) {
            t.push(c);
        }
        proof {
            reveal(Seq::filter);
            assert(s@.take(i + 1).drop_last() =~= s@.take(i as int));
            assert(s@.take(i + 1).last() == s@[i as int]);
        }
        i = i + 1;
    }
    proof {
        assert(s@.take(n as int) =~= s@);
    }
    t
}

/// Finds `c` in `t` from position `start`; `t.len()` means not found.
fn find_char_at(t: &Vec<char>, c: char, start: usize) -> (r: usize)
    requires
        start <= t@.len(),
    ensures
        find_from(t@, c, start as int) < 0 ==> r == t@.len(),
        find_from(t@, c, start as int) >= 0 ==> r == find_from(t@, c, start as int) && r < t@.len(),
        start <= r <= t@.len(),
        r < t@.len() ==> t@[r as int] == c,
{
    let mut i: usize = start;
    while i < t.len()
        invariant
            start <= i <= t@.len(),
            find_from(t@, c, start as int) == find_from(t@, c, i as int),
        decreases t@.len() - i,
    {
        if t[i] == c {
            return i;
        }
        i = i + 1;
    }
    i
}

fn subvec(t: &Vec<char>, a: usize, b: usize) -> (r: Vec<char>)
    requires
        a <= b <= t@.len(),
    ensures
        r@ == t@.subrange(a as int, b as int),
{
    let mut r: Vec<char> = Vec::new();
    let mut i: usize = a;
    while i < b
        invariant
            a <= i <= b <= t@.len(),
            r@ == t@.subrange(a as int, i as int),
        decreases b - i,
    {
        r.push(t[i]);
        proof {
            assert(t@.subrange(a as int, i + 1) =~= t@.subrange(a as int, i as int).push(
                t@[i as int],
            ));
        }
        i = i + 1;
    }
    r
}

/// Digit strings of up to three digits stay below 1000.
proof fn lemma_dec_value_small(s: Seq<char>)
    requires
        all_digits(s),
        s.len() <= 3,
    ensures
        0 <= dec_value(s) <= 999,
        s.len() <= 2 ==> dec_value(s) <= 99,
        s.len() <= 1 ==> dec_value(s) <= 9,
    decreases s.len(),
{
    if s.len() > 0 {
        lemma_dec_value_small(s.drop_last());
    }
}

fn is_digit_exec(c: char) -> (r: bool)
    ensures
        r == is_digit(c),
{
    '0' <= c && c <= '9'
}

/// Value of a digit string of one to three digits; `None` when the text is
/// empty, longer, or holds a non-digit.
fn dec_value_exec(part: &Vec<char>) -> (r: Option<u32>)
    ensures
        match r {
            Some(v) => 1 <= part@.len() <= 3 && all_digits(part@) && v == dec_value(part@)
                && v <= 999,
            None => !(1 <= part@.len() <= 3 && all_digits(part@)),
        },
{
    if part.len() < 1 || part.len() > 3 {
        return None;
    }
    let mut value: u32 = 0;
    let mut j: usize = 0;
    while j < part.len()
        invariant
            j <= part@.len() <= 3,
            all_digits(part@.take(j as int)),
            value == dec_value(part@.take(j as int)),
            value <= 999,
        decreases part@.len() - j,
    {
        let c = part[j];
        if !is_digit_exec(c) {
            return None;
        }
        proof {
            assert(part@.take(j + 1).drop_last() =~= part@.take(j as int));
            assert(part@.take(j + 1).last() == part@[j as int]);
            lemma_dec_value_small(part@.take(j as int));
        }
        value = value * 10 + (c as u32 - '0' as u32);
        j = j + 1;
    }
    proof {
        assert(part@.take(part@.len() as int) =~= part@);
        lemma_dec_value_small(part@);
    }
    Some(value)
}

fn parse_octet_exec(part: &Vec<char>) -> (r: Option<u32>)
    ensures
        r == parse_octet(part@),
{
    match dec_value_exec(part) {
        Some(v) => {
            if part.len() > 1 && part[0] == '0' {
                None
            } else if v <= 255 {
                Some(v)
            } else {
                None
            }
        },
        None => None,
    }
}

fn parse_mask_exec(part: &Vec<char>) -> (r: Option<u8>)
    ensures
        r == parse_mask(part@),
{
    match dec_value_exec(part) {
        Some(v) => {
            if v <= 32 {
                Some(v as u8)
            } else {
                None
            }
        },
        None => None,
    }
}

fn parse_quad_exec(part: &Vec<char>) -> (r: Option<u32>)
    ensures
        r == parse_quad(part@),
{
    let d1 = find_char_at(part, '.', 0);
    if d1 == part.len() {
        return None;
    }
    let p1 = subvec(part, 0, d1);
    let rest1 = subvec(part, d1 + 1, part.len());
    proof {
        assert(p1@ =~= part@.take(d1 as int));
        assert(rest1@ =~= part@.skip(d1 + 1));
    }
    let d2 = find_char_at(&rest1, '.', 0);
    if d2 == rest1.len() {
        return None;
    }
    let p2 = subvec(&rest1, 0, d2);
    let rest2 = subvec(&rest1, d2 + 1, rest1.len());
    proof {
        assert(p2@ =~= rest1@.take(d2 as int));
        assert(rest2@ =~= rest1@.skip(d2 + 1));
    }
    let d3 = find_char_at(&rest2, '.', 0);
    if d3 == rest2.len() {
        return None;
    }
    let p3 = subvec(&rest2, 0, d3);
    let p4 = subvec(&rest2, d3 + 1, rest2.len());
    proof {
        assert(p3@ =~= rest2@.take(d3 as int));
        assert(p4@ =~= rest2@.skip(d3 + 1));
    }
    let o1 = parse_octet_exec(&p1);
    let o2 = parse_octet_exec(&p2);
    let o3 = parse_octet_exec(&p3);
    let o4 = parse_octet_exec(&p4);
    match (o1, o2, o3, o4) {
        (Some(a), Some(b), Some(c), Some(d)) => Some(a * 0x1000000 + b * 0x10000 + c * 0x100 + d),
        _ => None,
    }
}

impl Subnet {
    /// Parses `address/prefix` CIDR notation; ASCII whitespace anywhere in
    /// the line is ignored.  Exactly the lines accepted by [`parse_subnet`]
    /// succeed.
    pub fn from_str(s: &str) -> (r: Result<Subnet, SubnetParseError>)
        ensures
            match r {
                Ok(sub) => parse_subnet(s@) == Some(sub) && sub.wf(),
                Err(_) => parse_subnet(s@) is None,
            },
    {
        let t = strip_spaces(s);
        let i = find_char_at(&t, '/', 0);
        if i == t.len() {
            return Err(SubnetParseError);
        }
        let quad_part = subvec(&t, 0, i);
        let mask_part = subvec(&t, i + 1, t.len());
        proof {
            assert(quad_part@ =~= t@.take(i as int));
            assert(mask_part@ =~= t@.skip(i + 1));
        }
        let addr = parse_quad_exec(&quad_part);
        let mask = parse_mask_exec(&mask_part);
        match (addr, mask) {
            (Some(addr), Some(mask)) => Ok(Subnet { addr, mask }),
            _ => Err(SubnetParseError),
        }
    }
}


/// Textual CIDR form of a subnet: dotted quad, slash, prefix length.
pub open spec fn subnet_text(s: Subnet) -> Seq<char> {
    dec_str((((s.addr >> 24) & 0xFF)) as nat) + seq!['.'] + dec_str(
        (((s.addr >> 16) & 0xFF)) as nat,
    ) + seq!['.'] + dec_str((((s.addr >> 8) & 0xFF)) as nat) + seq!['.'] + dec_str(
        ((s.addr & 0xFF)) as nat,
    ) + seq!['/'] + dec_str(s.mask as nat)
}

impl Subnet {
    /// Renders the subnet in `address/prefix` CIDR notation.
    pub fn as_string(&self) -> (r: String)
        ensures
            r@ == subnet_text(*self),
    {
        proof {
            reveal_strlit(".");
            reveal_strlit("/");
        }
        let mut out = u64_dec_string(((self.addr >> 24) & 0xFF) as u64);
        out = out.concat(".");
        out = out.concat(u64_dec_string(((self.addr >> 16) & 0xFF) as u64).as_str());
        out = out.concat(".");
        out = out.concat(u64_dec_string(((self.addr >> 8) & 0xFF) as u64).as_str());
        out = out.concat(".");
        out = out.concat(u64_dec_string((self.addr & 0xFF) as u64).as_str());
        out = out.concat("/");
        out = out.concat(u64_dec_string(self.mask as u64).as_str());
        proof {
            assert(out@ =~= subnet_text(*self));
        }
        out
    }
}

} // verus!
