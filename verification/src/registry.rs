use vstd::prelude::*;

use crate::device::LogicalDevice;

verus! {

/// Process-wide cache from a logical device descriptor to the client handle
/// constructed for it. Entries are created lazily and never torn down; at
/// most one entry — and so at most one server — exists per descriptor.
///
/// The registry itself is sequential; an embedding program that shares it
/// across threads guards it with a lock of its own and thereby inherits the
/// exactly-once guarantee proved here.
pub struct Registry<C> {
    entries: Vec<(LogicalDevice, C)>,
}

/// The map that a list of registry entries denotes, later entries winning.
pub open spec fn entries_map<C>(s: Seq<(LogicalDevice, C)>) -> Map<LogicalDevice, C>
    decreases s.len(),
{
    if s.len() == 0 {
        Map::empty()
    } else {
        entries_map(s.drop_last()).insert(s.last().0, s.last().1)
    }
}

pub open spec fn distinct_keys<C>(s: Seq<(LogicalDevice, C)>) -> bool {
    forall|i: int, j: int| 0 <= i < j < s.len() ==> s[i].0 != s[j].0
}

/// A key is in the denoted map exactly when some entry carries it.
proof fn lemma_entries_map_dom<C>(s: Seq<(LogicalDevice, C)>, k: LogicalDevice)
    ensures
        entries_map(s).contains_key(k) <==> exists|i: int| 0 <= i < s.len() && s[i].0 == k,
    decreases s.len(),
{
    if s.len() > 0 {
        lemma_entries_map_dom(s.drop_last(), k);
        if s.last().0 == k {
            assert(s[s.len() - 1].0 == k);
        } else if entries_map(s).contains_key(k) {
            let i = choose|i: int| 0 <= i < s.drop_last().len() && s.drop_last()[i].0 == k;
            assert(s[i].0 == k);
        } else {
            assert(forall|i: int|
                0 <= i < s.len() ==> s[i].0 == k ==> i < s.len() - 1 && s.drop_last()[i].0 == k);
        }
    }
}

/// With distinct keys, the denoted map sends each entry's key to its value.
proof fn lemma_entries_map_index<C>(s: Seq<(LogicalDevice, C)>, i: int)
    requires
        distinct_keys(s),
        0 <= i < s.len(),
    ensures
        entries_map(s).contains_key(s[i].0),
        entries_map(s)[s[i].0] == s[i].1,
    decreases s.len(),
{
    if i == s.len() - 1 {
    } else {
        assert(distinct_keys(s.drop_last())) by {
            assert(forall|a: int, b: int|
                0 <= a < b < s.drop_last().len() ==> s.drop_last()[a] == s[a]
                    && s.drop_last()[b] == s[b]);
        }
        assert(s.drop_last()[i] == s[i]);
        lemma_entries_map_index(s.drop_last(), i);
        assert(s[i].0 != s.last().0);
    }
}

impl<C> Registry<C> {
    /// No two entries share a key, so the entry list and the map it denotes
    /// carry the same information.
    pub closed spec fn wf(self) -> bool {
        distinct_keys(self.entries@)
    }

    pub closed spec fn view_map(self) -> Map<LogicalDevice, C> {
        entries_map(self.entries@)
    }

    /// An empty registry: no client has been constructed yet.
    pub fn new() -> (r: Registry<C>)
        ensures
            r.wf(),
            r@ == Map::<LogicalDevice, C>::empty(),
    {
        Registry { entries: Vec::new() }
    }

    /// The cached client for a descriptor, if one was ever constructed.
    pub fn lookup(&self, device: &LogicalDevice) -> (r: Option<&C>)
        requires
            self.wf(),
        ensures
            match r {
                Some(c) => self@.contains_key(*device) && *c == self@[*device],
                None => !self@.contains_key(*device),
            },
    {
        let n = self.entries.len();
        let mut i: usize = 0;
        while i < n
            invariant
                0 <= i <= n,
                n == self.entries@.len(),
                self.wf(),
                forall|j: int| 0 <= j < i ==> self.entries@[j].0 != *device,
            decreases n - i,
        {
            if self.entries[i].0 == *device {
                proof {
                    lemma_entries_map_index(self.entries@, i as int);
                }
                return Some(&self.entries[i].1);
            }
            i = i + 1;
        }
        proof {
            lemma_entries_map_dom(self.entries@, *device);
        }
        None
    }

    /// Record the client constructed for a descriptor seen for the first
    /// time.
    pub fn insert(&mut self, device: LogicalDevice, client: C)
        requires
            old(self).wf(),
            !old(self)@.contains_key(device),
        ensures
            final(self).wf(),
            final(self)@ == old(self)@.insert(device, client),
    {
        proof {
            lemma_entries_map_dom(self.entries@, device);
        }
        self.entries.push((device, client));
        proof {
            assert(self.entries@.drop_last() =~= old(self).entries@);
            assert(forall|i: int|
                0 <= i < old(self).entries@.len() ==> self.entries@[i] == old(
                    self,
                ).entries@[i]);
        }
    }
}

impl<C> View for Registry<C> {
    type V = Map<LogicalDevice, C>;

    open spec fn view(&self) -> Map<LogicalDevice, C> {
        self.view_map()
    }
}

/// One lazy-initialization step of the cache: a hit leaves the cache alone
/// and serves the cached client, a miss records the freshly built client and
/// serves it.
pub open spec fn serve_step<C>(m: Map<LogicalDevice, C>, d: LogicalDevice, fresh: C) -> (Map<
    LogicalDevice,
    C,
>, C) {
    if m.contains_key(d) {
        (m, m[d])
    } else {
        (m.insert(d, fresh), fresh)
    }
}

/// Law: per descriptor, construction happens at most once. Whatever client a
/// second request for the same descriptor would freshly build, the cache
/// state does not change and both requests are served the very same handle.
pub proof fn lemma_single_construction_per_key<C>(
    m: Map<LogicalDevice, C>,
    d: LogicalDevice,
    fresh1: C,
    fresh2: C,
)
    ensures
        ({
            let first = serve_step(m, d, fresh1);
            let second = serve_step(first.0, d, fresh2);
            second.0 == first.0 && second.1 == first.1
        }),
{
}

/// Law: requests for distinct descriptors are independent. Serving one
/// descriptor neither adds, removes, nor changes the cache entry of any
/// other, so neither initialization depends on the other's.
pub proof fn lemma_distinct_keys_independent<C>(
    m: Map<LogicalDevice, C>,
    d1: LogicalDevice,
    d2: LogicalDevice,
    fresh: C,
)
    requires
        d1 != d2,
    ensures
        ({
            let after = serve_step(m, d2, fresh);
            &&& after.0.contains_key(d1) == m.contains_key(d1)
            &&& m.contains_key(d1) ==> after.0[d1] == m[d1]
        }),
{
}

} // verus!
