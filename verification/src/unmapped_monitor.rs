//! The unmapped-field monitor.
//!
//! A passive observability sink recording input keys that neither the alias
//! registry nor the food-item resolver could resolve: a per-key count and up
//! to three sample values. Keys are matched case-insensitively; the first
//! spelling seen is the one kept. The monitor is owned by the caller and
//! passed to normalization explicitly; snapshot and reset expose and clear
//! its contents.

use crate::quantity::Quantity;
use crate::text::lower;
use vstd::prelude::*;

verus! {

/// How many sample values are kept per unmapped key.
pub const MAX_SAMPLES: usize = 3;

/// What the monitor recorded for one unmapped key.
#[derive(Debug, Clone)]
pub struct UnmappedEntry {
    /// How many times the key was seen.
    pub count: u64,
    /// Up to [`MAX_SAMPLES`] of the values that came with it.
    pub samples: Vec<Quantity>,
}

/// The monitor itself: entries in order of first appearance.
#[derive(Debug, Clone)]
pub struct UnmappedFieldMonitor {
    /// One entry per distinct (case-insensitive) unmapped key.
    pub entries: Vec<(String, UnmappedEntry)>,
}

/// The monitor's mathematical content: for each entry, its key, its count
/// and its sample values.
pub open spec fn mview(m: UnmappedFieldMonitor) -> Seq<(Seq<char>, int, Seq<int>)> {
    m.entries@.map_values(
        |e: (String, UnmappedEntry)|
            (e.0@, e.1.count as int, e.1.samples@.map_values(|q: Quantity| q@)),
    )
}

/// The first entry of a monitor view whose key spells `name`, ignoring
/// ASCII case.
pub open spec fn spec_find(s: Seq<(Seq<char>, int, Seq<int>)>, name: Seq<char>) -> Option<int>
    decreases s.len(),
{
    if s.len() == 0 {
        None
    } else if lower(s[0].0) == lower(name) {
        Some(0int)
    } else {
        match spec_find(s.subrange(1, s.len() as int), name) {
            Some(i) => Some(i + 1),
            None => None,
        }
    }
}

/// One entry after another sighting with the given value.
pub open spec fn spec_bumped(
    e: (Seq<char>, int, Seq<int>),
    value: Option<int>,
) -> (Seq<char>, int, Seq<int>) {
    (
        e.0,
        if e.1 < u64::MAX as int {
            e.1 + 1
        } else {
            e.1
        },
        match value {
            Some(v) => if e.2.len() < MAX_SAMPLES {
                e.2.push(v)
            } else {
                e.2
            },
            None => e.2,
        },
    )
}

/// A monitor view after one sighting of a key is logged: the first
/// case-insensitive match is bumped, or a fresh entry is appended.
pub open spec fn spec_logged(
    s: Seq<(Seq<char>, int, Seq<int>)>,
    name: Seq<char>,
    value: Option<int>,
) -> Seq<(Seq<char>, int, Seq<int>)> {
    match spec_find(s, name) {
        Some(i) => s.update(i, spec_bumped(s[i], value)),
        None => s.push(
            (
                name,
                1int,
                match value {
                    Some(v) => seq![v],
                    None => Seq::<int>::empty(),
                },
            ),
        ),
    }
}

/// A first case-insensitive match at `i` pins `spec_find` to `i`.
pub proof fn lemma_spec_find_witness(s: Seq<(Seq<char>, int, Seq<int>)>, name: Seq<char>, i: int)
    requires
        0 <= i < s.len(),
        lower(s[i].0) == lower(name),
        forall|j: int| 0 <= j < i ==> lower((#[trigger] s[j]).0) != lower(name),
    ensures
        spec_find(s, name) == Some(i),
    decreases s.len(),
{
    if lower(s[0].0) == lower(name) {
        assert(i == 0);
    } else {
        let t = s.subrange(1, s.len() as int);
        lemma_spec_find_witness(t, name, i - 1);
    }
}

/// With no case-insensitive match, `spec_find` finds nothing.
pub proof fn lemma_spec_find_none(s: Seq<(Seq<char>, int, Seq<int>)>, name: Seq<char>)
    requires
        forall|j: int| 0 <= j < s.len() ==> lower((#[trigger] s[j]).0) != lower(name),
    ensures
        spec_find(s, name).is_none(),
    decreases s.len(),
{
    if s.len() > 0 {
        lemma_spec_find_none(s.subrange(1, s.len() as int), name);
    }
}

/// `i` is the first entry whose key spells `name`, ignoring ASCII case.
pub open spec fn is_first_entry_for(
    s: Seq<(String, UnmappedEntry)>,
    name: Seq<char>,
    i: int,
) -> bool {
    &&& 0 <= i < s.len()
    &&& lower(s[i].0@) == lower(name)
    &&& forall|j: int| 0 <= j < i ==> lower((#[trigger] s[j]).0@) != lower(name)
}

/// No entry's key spells `name`, ignoring ASCII case.
pub open spec fn no_entry_for(s: Seq<(String, UnmappedEntry)>, name: Seq<char>) -> bool {
    forall|j: int| 0 <= j < s.len() ==> lower((#[trigger] s[j]).0@) != lower(name)
}

/// Copy a sample list element by element.
fn clone_samples(v: &Vec<Quantity>) -> (r: Vec<Quantity>)
    ensures
        r@ == v@,
{
    let mut r: Vec<Quantity> = Vec::new();
    let mut i: usize = 0;
    let n = v.len();
    while i < n
        invariant
            0 <= i <= n,
            n == v@.len(),
            r@.len() == i,
            forall|j: int| 0 <= j < i ==> r@[j] == v@[j],
        decreases n - i,
    {
        r.push(v[i]);
        i = i + 1;
    }
    proof {
        assert(r@ =~= v@);
    }
    r
}

impl UnmappedFieldMonitor {
    /// An empty monitor.
    pub fn new() -> (r: UnmappedFieldMonitor)
        ensures
            r.entries@.len() == 0,
    {
        UnmappedFieldMonitor { entries: Vec::new() }
    }

    /// Record one sighting of an unmapped key, with its value if it had one.
    /// A key already present has its count bumped (saturating) and the value
    /// appended while fewer than [`MAX_SAMPLES`] samples are held; a new key
    /// is appended at the end.
    pub fn log(&mut self, name: &str, value: Option<Quantity>)
        ensures
            mview(*final(self)) == spec_logged(
                mview(*old(self)),
                name@,
                match value {
                    Some(q) => Some(q@),
                    None => None,
                },
            ),
            no_entry_for(old(self).entries@, name@) ==> {
                let s = final(self).entries@;
                let o = old(self).entries@;
                &&& s.len() == o.len() + 1
                &&& s.subrange(0, o.len() as int) == o
                &&& s.last().0@ == name@
                &&& s.last().1.count == 1
                &&& s.last().1.samples@ == match value {
                    Some(q) => seq![q],
                    None => Seq::<Quantity>::empty(),
                }
            },
            forall|i: int|
                is_first_entry_for(old(self).entries@, name@, i) ==> {
                    let s = final(self).entries@;
                    let o = old(self).entries@;
                    &&& s.len() == o.len()
                    &&& forall|j: int| 0 <= j < o.len() && j != i ==> s[j] == o[j]
                    &&& s[i].0 == o[i].0
                    &&& s[i].1.count == if o[i].1.count < u64::MAX {
                        o[i].1.count + 1
                    } else {
                        o[i].1.count as int
                    }
                    &&& s[i].1.samples@ == match value {
                        Some(q) => if o[i].1.samples@.len() < MAX_SAMPLES {
                            o[i].1.samples@.push(q)
                        } else {
                            o[i].1.samples@
                        },
                        None => o[i].1.samples@,
                    }
                },
    {
        let n = self.entries.len();
        let mut i: usize = 0;
        while i < n
            invariant
                0 <= i <= n,
                n == self.entries@.len(),
                self == old(self),
                forall|j: int|
                    0 <= j < i ==> lower((#[trigger] self.entries@[j]).0@) != lower(name@),
            decreases n - i,
        {
            if crate::text::str_eq_ci(self.entries[i].0.as_str(), name) {
                let old_count = self.entries[i].1.count;
                let old_key = self.entries[i].0.clone();
                let new_count = if old_count < u64::MAX {
                    old_count + 1
                } else {
                    old_count
                };
                let mut new_samples = clone_samples(&self.entries[i].1.samples);
                match value {
                    Some(q) => {
                        if new_samples.len() < MAX_SAMPLES {
                            new_samples.push(q);
                        }
                    },
                    None => {},
                }
                let ghost pre = mview(*old(self));
                let ghost vv: Option<int> = match value {
                    Some(q) => Some(q@),
                    None => None,
                };
                self.entries[i] = (old_key, UnmappedEntry { count: new_count, samples: new_samples });
                proof {
                    assert(forall|j: int|
                        0 <= j < i ==> lower((#[trigger] pre[j]).0) != lower(name@));
                    lemma_spec_find_witness(pre, name@, i as int);
                    assert(mview(*self) =~~= pre.update(i as int, spec_bumped(pre[i as int], vv)));
                }
                return ;
            }
            i = i + 1;
        }
        let mut samples: Vec<Quantity> = Vec::new();
        match value {
            Some(q) => samples.push(q),
            None => {},
        }
        let ghost pre = mview(*old(self));
        let ghost vv: Option<int> = match value {
            Some(q) => Some(q@),
            None => None,
        };
        self.entries.push((name.to_owned(), UnmappedEntry { count: 1, samples }));
        proof {
            lemma_spec_find_none(pre, name@);
            assert(mview(*self) =~~= pre.push(
                (
                    name@,
                    1int,
                    match vv {
                        Some(v) => seq![v],
                        None => Seq::<int>::empty(),
                    },
                ),
            ));
        }
    }

    /// A copy of everything recorded so far, in order of first appearance.
    pub fn snapshot(&self) -> (r: Vec<(String, UnmappedEntry)>)
        ensures
            r@.len() == self.entries@.len(),
            forall|i: int|
                0 <= i < r@.len() ==> (#[trigger] r@[i]).0 == self.entries@[i].0 && r@[i].1.count
                    == self.entries@[i].1.count && r@[i].1.samples@ == self.entries@[i].1.samples@,
    {
        let mut r: Vec<(String, UnmappedEntry)> = Vec::new();
        let mut i: usize = 0;
        let n = self.entries.len();
        while i < n
            invariant
                0 <= i <= n,
                n == self.entries@.len(),
                r@.len() == i,
                forall|j: int|
                    0 <= j < i ==> (#[trigger] r@[j]).0 == self.entries@[j].0 && r@[j].1.count
                        == self.entries@[j].1.count && r@[j].1.samples@
                        == self.entries@[j].1.samples@,
            decreases n - i,
        {
            let key = self.entries[i].0.clone();
            let count = self.entries[i].1.count;
            let samples = clone_samples(&self.entries[i].1.samples);
            r.push((key, UnmappedEntry { count, samples }));
            i = i + 1;
        }
        r
    }

    /// Forget everything recorded so far.
    pub fn reset(&mut self)
        ensures
            final(self).entries@.len() == 0,
    {
        self.entries.clear();
    }
}

} // verus!
