use vstd::prelude::*;

use crate::device::LogicalDevice;

verus! {

/// Category a physical adapter reports for itself. `Unclassified` stands for
/// hardware that names no category; it is treated optimistically as a likely
/// discrete GPU.
#[derive(Clone, Copy, PartialEq, Eq, Structural, Debug)]
pub enum AdapterCategory {
    DiscreteGpu,
    IntegratedGpu,
    VirtualGpu,
    Cpu,
    Unclassified,
}

/// A physical adapter as this core sees it: an opaque handle of the
/// underlying graphics API together with the metadata selection reads.
pub struct PhysicalAdapter<H> {
    pub handle: H,
    pub category: AdapterCategory,
    pub name: String,
}

/// Category and name of an adapter that was considered but not chosen; kept
/// in the selection-failure diagnostic.
pub struct AdapterSummary {
    pub category: AdapterCategory,
    pub name: String,
}

/// No adapter matches the requested logical device. The diagnostic lists
/// every adapter considered, bucket by bucket.
pub struct SelectionFailure {
    pub requested: LogicalDevice,
    pub primary: Vec<AdapterSummary>,
    pub fallback: Vec<AdapterSummary>,
}

/// Fixed performance ranking of the categories, highest first; unclassified
/// adapters rank just below discrete GPUs on purpose.
pub open spec fn score(c: AdapterCategory) -> int {
    match c {
        AdapterCategory::DiscreteGpu => 5,
        AdapterCategory::Unclassified => 4,
        AdapterCategory::IntegratedGpu => 3,
        AdapterCategory::VirtualGpu => 2,
        AdapterCategory::Cpu => 1,
    }
}

/// Whether an adapter of category `c` answers the request `d` directly.
pub open spec fn category_matches(d: LogicalDevice, c: AdapterCategory) -> bool {
    match d {
        LogicalDevice::DiscreteGpu(_) => c == AdapterCategory::DiscreteGpu,
        LogicalDevice::IntegratedGpu(_) => c == AdapterCategory::IntegratedGpu,
        LogicalDevice::VirtualGpu(_) => c == AdapterCategory::VirtualGpu,
        LogicalDevice::Cpu => c == AdapterCategory::Cpu,
        LogicalDevice::BestAvailable => true,
    }
}

/// Membership in the primary bucket: a classified category that matches the
/// request. Unclassified adapters always go to the fallback bucket.
pub open spec fn in_primary(d: LogicalDevice, c: AdapterCategory) -> bool {
    c != AdapterCategory::Unclassified && category_matches(d, c)
}

/// The primary bucket: matching classified adapters, in enumeration order.
pub open spec fn primary_part<H>(d: LogicalDevice, s: Seq<PhysicalAdapter<H>>) -> Seq<
    PhysicalAdapter<H>,
>
    decreases s.len(),
{
    if s.len() == 0 {
        Seq::empty()
    } else {
        let rest = primary_part(d, s.drop_last());
        if in_primary(d, s.last().category) {
            rest.push(s.last())
        } else {
            rest
        }
    }
}

/// The fallback bucket: unclassified adapters, in enumeration order.
pub open spec fn fallback_part<H>(s: Seq<PhysicalAdapter<H>>) -> Seq<PhysicalAdapter<H>>
    decreases s.len(),
{
    if s.len() == 0 {
        Seq::empty()
    } else {
        let rest = fallback_part(s.drop_last());
        if s.last().category == AdapterCategory::Unclassified {
            rest.push(s.last())
        } else {
            rest
        }
    }
}

/// Index of the best-ranked adapter among the first `n` of `s`, ties going
/// to the earlier adapter; `-1` when `n` is zero. Mirrors a single pass that
/// keeps the strictly best score seen so far.
pub open spec fn best_index_upto<H>(s: Seq<PhysicalAdapter<H>>, n: int) -> int
    decreases n,
{
    if n <= 0 {
        -1
    } else {
        let prev = best_index_upto(s, n - 1);
        if prev < 0 {
            n - 1
        } else if score(s[n - 1].category) > score(s[prev].category) {
            n - 1
        } else {
            prev
        }
    }
}

/// The adapter that selection picks for `d` out of the enumerated list `s`,
/// or `None` when no adapter answers the request.
pub open spec fn selection<H>(d: LogicalDevice, s: Seq<PhysicalAdapter<H>>) -> Option<
    PhysicalAdapter<H>,
> {
    let prim = primary_part(d, s);
    let fb = fallback_part(s);
    if d is BestAvailable {
        if prim.len() > 0 {
            Some(prim[best_index_upto(prim, prim.len() as int)])
        } else {
            None
        }
    } else {
        let i = d.requested_index();
        if i < prim.len() {
            Some(prim[i])
        } else if i < fb.len() {
            Some(fb[i])
        } else {
            None
        }
    }
}

/// The diagnostic record of one considered adapter.
pub open spec fn summaries<H>(s: Seq<PhysicalAdapter<H>>) -> Seq<AdapterSummary> {
    s.map_values(
        |a: PhysicalAdapter<H>| AdapterSummary { category: a.category, name: a.name },
    )
}

/// What a selection-failure diagnostic must report for request `d` over the
/// enumerated list `s`.
pub open spec fn failure_matches<H>(
    f: SelectionFailure,
    d: LogicalDevice,
    s: Seq<PhysicalAdapter<H>>,
) -> bool {
    &&& f.requested == d
    &&& f.primary@ == summaries(primary_part(d, s))
    &&& f.fallback@ == summaries(fallback_part(s))
}

/// The ranking, as executable code.
fn score_of(c: AdapterCategory) -> (r: u32)
    ensures
        r as int == score(c),
{
    match c {
        AdapterCategory::DiscreteGpu => 5,
        AdapterCategory::Unclassified => 4,
        AdapterCategory::IntegratedGpu => 3,
        AdapterCategory::VirtualGpu => 2,
        AdapterCategory::Cpu => 1,
    }
}

/// Bucket test, as executable code.
fn is_primary(d: &LogicalDevice, c: AdapterCategory) -> (r: bool)
    ensures
        r == in_primary(*d, c),
{
    if c == AdapterCategory::Unclassified {
        return false;
    }
    match d {
        LogicalDevice::DiscreteGpu(_) => c == AdapterCategory::DiscreteGpu,
        LogicalDevice::IntegratedGpu(_) => c == AdapterCategory::IntegratedGpu,
        LogicalDevice::VirtualGpu(_) => c == AdapterCategory::VirtualGpu,
        LogicalDevice::Cpu => c == AdapterCategory::Cpu,
        LogicalDevice::BestAvailable => true,
    }
}

/// Turn a bucket of considered adapters into its diagnostic records,
/// dropping the handles.
fn to_summaries<H>(bucket: Vec<PhysicalAdapter<H>>) -> (r: Vec<AdapterSummary>)
    ensures
        r@ == summaries(bucket@),
{
    let ghost all = bucket@;
    let mut rest = bucket;
    let mut out: Vec<AdapterSummary> = Vec::new();
    proof {
        assert(all.subrange(0, all.len() as int) =~= all);
        assert(all.subrange(0, 0) =~= Seq::<PhysicalAdapter<H>>::empty());
    }
    while rest.len() > 0
        invariant
            rest@.len() <= all.len(),
            rest@ == all.subrange(all.len() - rest@.len(), all.len() as int),
            out@ == summaries(all.subrange(0, all.len() - rest@.len())),
        decreases rest.len(),
    {
        let ghost k = all.len() - rest@.len();
        let a = rest.remove(0);
        proof {
            assert(a == all[k]);
            assert(rest@ =~= all.subrange(k + 1, all.len() as int));
        }
        let PhysicalAdapter { handle, category, name } = a;
        out.push(AdapterSummary { category, name });
        proof {
            assert(out@ =~= summaries(all.subrange(0, k + 1))) by {
                assert(all.subrange(0, k + 1)[k] == all[k]);
                assert(forall|j: int|
                    0 <= j < k ==> all.subrange(0, k + 1)[j] == all.subrange(0, k)[j]);
            }
        }
    }
    proof {
        assert(all.subrange(0, all.len() as int) =~= all);
    }
    out
}

/// Build the fatal diagnostic for a request no adapter answers.
fn build_failure<H>(
    d: &LogicalDevice,
    primary: Vec<PhysicalAdapter<H>>,
    fallback: Vec<PhysicalAdapter<H>>,
) -> (f: SelectionFailure)
    ensures
        f.requested == *d,
        f.primary@ == summaries(primary@),
        f.fallback@ == summaries(fallback@),
{
    SelectionFailure {
        requested: *d,
        primary: to_summaries(primary),
        fallback: to_summaries(fallback),
    }
}

/// Select the physical adapter for a logical device descriptor out of the
/// enumerated adapter list, deterministically:
///
/// - an indexed request takes the n-th matching classified adapter, falling
///   back to the n-th unclassified adapter when there are too few;
/// - the best-available request takes the highest-ranked classified adapter,
///   the earliest one on a tie;
/// - when neither bucket can answer, the failure lists every adapter
///   considered.
pub fn select_adapter<H>(device: &LogicalDevice, adapters: Vec<PhysicalAdapter<H>>) -> (r:
    Result<PhysicalAdapter<H>, SelectionFailure>)
    ensures
        match selection(*device, adapters@) {
            Some(a) => r matches Ok(chosen) && chosen == a,
            None => r matches Err(f) && failure_matches(f, *device, adapters@),
        },
{
    let ghost all = adapters@;
    let mut rest = adapters;
    let mut primary: Vec<PhysicalAdapter<H>> = Vec::new();
    let mut fallback: Vec<PhysicalAdapter<H>> = Vec::new();
    proof {
        assert(all.subrange(0, all.len() as int) =~= all);
        assert(all.subrange(0, 0) =~= Seq::<PhysicalAdapter<H>>::empty());
    }
    while rest.len() > 0
        invariant
            rest@.len() <= all.len(),
            rest@ == all.subrange(all.len() - rest@.len(), all.len() as int),
            primary@ == primary_part(*device, all.subrange(0, all.len() - rest@.len())),
            fallback@ == fallback_part(all.subrange(0, all.len() - rest@.len())),
        decreases rest.len(),
    {
        let ghost k = all.len() - rest@.len();
        let a = rest.remove(0);
        proof {
            assert(a == all[k]);
            assert(rest@ =~= all.subrange(k + 1, all.len() as int));
            assert(all.subrange(0, k + 1).drop_last() =~= all.subrange(0, k));
            assert(all.subrange(0, k + 1).last() == all[k]);
        }
        if a.category == AdapterCategory::Unclassified {
            fallback.push(a);
        } else if is_primary(device, a.category) {
            primary.push(a);
        } else {
            proof {
                assert(primary@ == primary_part(*device, all.subrange(0, k + 1)));
                assert(fallback@ == fallback_part(all.subrange(0, k + 1)));
            }
        }
    }
    proof {
        assert(all.subrange(0, all.len() as int) =~= all);
    }

    if let LogicalDevice::BestAvailable = device {
        if primary.len() == 0 {
            return Err(build_failure(device, primary, fallback));
        }
        let n = primary.len();
        let mut best: usize = 0;
        let mut best_score: u32 = score_of(primary[0].category);
        let mut j: usize = 1;
        proof {
            assert(best_index_upto(primary@, 0) == -1);
            assert(best_index_upto(primary@, 1) == 0);
        }
        while j < n
            invariant
                1 <= j <= n,
                n == primary@.len(),
                best < j,
                best as int == best_index_upto(primary@, j as int),
                best_score as int == score(primary@[best as int].category),
            decreases n - j,
        {
            let sc = score_of(primary[j].category);
            if sc > best_score {
                best = j;
                best_score = sc;
            }
            j = j + 1;
        }
        return Ok(primary.remove(best));
    }

    let index: usize = match device {
        LogicalDevice::DiscreteGpu(i) => *i,
        LogicalDevice::IntegratedGpu(i) => *i,
        LogicalDevice::VirtualGpu(i) => *i,
        LogicalDevice::Cpu => 0,
        LogicalDevice::BestAvailable => 0,
    };
    if index < primary.len() {
        Ok(primary.remove(index))
    } else if index < fallback.len() {
        Ok(fallback.remove(index))
    } else {
        Err(build_failure(device, primary, fallback))
    }
}

/// Law: the best-available pick is the earliest adapter of maximal rank. No
/// adapter in the primary bucket outranks it, and every earlier one ranks
/// strictly below it.
pub proof fn lemma_best_is_first_maximum<H>(s: Seq<PhysicalAdapter<H>>, n: int)
    requires
        0 < n <= s.len(),
    ensures
        ({
            let b = best_index_upto(s, n);
            &&& 0 <= b < n
            &&& forall|k: int| 0 <= k < n ==> score(s[k].category) <= score(s[b].category)
            &&& forall|k: int| 0 <= k < b ==> score(s[k].category) < score(s[b].category)
        }),
    decreases n,
{
    if n == 1 {
        assert(best_index_upto(s, 0) == -1);
    } else {
        lemma_best_is_first_maximum(s, n - 1);
    }
}

/// Law: whenever the enumerated list holds a discrete GPU, the
/// best-available request picks a discrete GPU, whatever the order of the
/// list.
pub proof fn lemma_best_available_prefers_discrete<H>(s: Seq<PhysicalAdapter<H>>, i: int)
    requires
        0 <= i < s.len(),
        s[i].category == AdapterCategory::DiscreteGpu,
    ensures
        selection(LogicalDevice::BestAvailable, s) matches Some(a) && a.category
            == AdapterCategory::DiscreteGpu,
{
    let prim = primary_part(LogicalDevice::BestAvailable, s);
    lemma_primary_part_keeps(LogicalDevice::BestAvailable, s, i);
    let w = choose|w: int| 0 <= w < prim.len() && prim[w] == s[i];
    lemma_best_is_first_maximum(prim, prim.len() as int);
    let b = best_index_upto(prim, prim.len() as int);
    assert(score(prim[w].category) <= score(prim[b].category));
}

/// Every adapter in the primary bucket matches the request, and every
/// adapter in the fallback bucket is unclassified: partitioning loses no
/// information.
pub proof fn lemma_buckets_sound<H>(d: LogicalDevice, s: Seq<PhysicalAdapter<H>>)
    ensures
        forall|i: int|
            0 <= i < primary_part(d, s).len() ==> in_primary(
                d,
                #[trigger] primary_part(d, s)[i].category,
            ),
        forall|i: int|
            0 <= i < fallback_part(s).len() ==> #[trigger] fallback_part(s)[i].category
                == AdapterCategory::Unclassified,
    decreases s.len(),
{
    if s.len() > 0 {
        lemma_buckets_sound(d, s.drop_last());
    }
}

/// Law: an indexed request is answered by an adapter of the very category
/// it names whenever enough such adapters exist; an unclassified adapter
/// answers it only when the primary bucket is too short.
pub proof fn lemma_indexed_selection_category<H>(d: LogicalDevice, s: Seq<PhysicalAdapter<H>>)
    requires
        !(d is BestAvailable),
        selection(d, s) is Some,
    ensures
        ({
            let a = selection(d, s)->Some_0;
            if d.requested_index() < primary_part(d, s).len() {
                category_matches(d, a.category)
            } else {
                a.category == AdapterCategory::Unclassified
            }
        }),
{
    lemma_buckets_sound(d, s);
}

/// Every adapter that belongs in the primary bucket appears in it.
pub proof fn lemma_primary_part_keeps<H>(d: LogicalDevice, s: Seq<PhysicalAdapter<H>>, i: int)
    requires
        0 <= i < s.len(),
        in_primary(d, s[i].category),
    ensures
        exists|w: int|
            0 <= w < primary_part(d, s).len() && primary_part(d, s)[w] == s[i],
    decreases s.len(),
{
    if i == s.len() - 1 {
        let prim = primary_part(d, s);
        assert(prim[prim.len() - 1] == s[i]);
    } else {
        assert(s.drop_last()[i] == s[i]);
        lemma_primary_part_keeps(d, s.drop_last(), i);
        let prev = primary_part(d, s.drop_last());
        let w = choose|w: int| 0 <= w < prev.len() && prev[w] == s[i];
        let prim = primary_part(d, s);
        if in_primary(d, s.last().category) {
            assert(prim[w] == prev[w]);
        } else {
            assert(prim[w] == prev[w]);
        }
    }
}

} // verus!
