use vstd::prelude::*;

use crate::prefix::{Family, NetworkPrefix};

verus! {

/// The prefixes one country holds: IPv4 and IPv6, each in feed order.
pub struct CountryEntry {
    pub code: String,
    pub ipv4: Vec<NetworkPrefix>,
    pub ipv6: Vec<NetworkPrefix>,
}

/// What an entry holds: its code, its IPv4 prefixes, its IPv6 prefixes.
pub type EntryView = (Seq<char>, Seq<NetworkPrefix>, Seq<NetworkPrefix>);

/// Every prefix of `ps` is well formed and of the family `f`.
pub open spec fn all_of_family(ps: Seq<NetworkPrefix>, f: Family) -> bool {
    forall|k: int| 0 <= k < ps.len() ==> (#[trigger] ps[k]).wf() && ps[k].spec_family() == f
}

pub open spec fn entry_wf(e: EntryView) -> bool {
    all_of_family(e.1, Family::V4) && all_of_family(e.2, Family::V6)
}

/// The prefixes of family `f` of an entry.
pub open spec fn entry_prefixes(e: EntryView, f: Family) -> Seq<NetworkPrefix> {
    match f {
        Family::V4 => e.1,
        Family::V6 => e.2,
    }
}

impl View for CountryEntry {
    type V = EntryView;

    open spec fn view(&self) -> EntryView {
        (self.code@, self.ipv4@, self.ipv6@)
    }
}

impl CountryEntry {
    /// The addresses never cross families.
    pub open spec fn wf(&self) -> bool {
        entry_wf(self@)
    }
}

/// The position of the entry with code `code`, if there is one.
pub open spec fn position_of(es: Seq<EntryView>, code: Seq<char>) -> Option<int> {
    if exists|i: int| 0 <= i < es.len() && (#[trigger] es[i]).0 == code {
        Some(choose|i: int| 0 <= i < es.len() && (#[trigger] es[i]).0 == code)
    } else {
        None
    }
}

/// The entries after an insertion: an entry with the same code is replaced
/// where it stands, another code is added at the end.
pub open spec fn inserted(es: Seq<EntryView>, e: EntryView) -> Seq<EntryView> {
    match position_of(es, e.0) {
        Some(i) => es.update(i, e),
        None => es.push(e),
    }
}

/// Codes are unique and every entry keeps its families apart.
pub open spec fn directory_wf(es: Seq<EntryView>) -> bool {
    &&& forall|i: int| 0 <= i < es.len() ==> entry_wf(#[trigger] es[i])
    &&& forall|i: int, j: int|
        0 <= i < j < es.len() ==> (#[trigger] es[i]).0 != (#[trigger] es[j]).0
}

/// All prefixes of family `f` over the entries, entry after entry.
pub open spec fn all_prefixes(es: Seq<EntryView>, f: Family) -> Seq<NetworkPrefix>
    decreases es.len(),
{
    if es.len() == 0 {
        Seq::empty()
    } else {
        all_prefixes(es.drop_last(), f) + entry_prefixes(es.last(), f)
    }
}

/// Country entries keyed by code, in the order of insertion.
pub struct CountryDirectory {
    entries: Vec<CountryEntry>,
}

impl View for CountryDirectory {
    type V = Seq<EntryView>;

    closed spec fn view(&self) -> Seq<EntryView> {
        self.entries@.map_values(|e: CountryEntry| e@)
    }
}

impl CountryDirectory {
    pub open spec fn wf(&self) -> bool {
        directory_wf(self@)
    }

    pub fn new() -> (r: CountryDirectory)
        ensures
            r@ == Seq::<EntryView>::empty(),
            r.wf(),
    {
        let r = CountryDirectory { entries: Vec::new() };
        assert(r@ =~= Seq::<EntryView>::empty());
        r
    }

    pub fn len(&self) -> (r: usize)
        ensures
            r == self@.len(),
    {
        self.entries.len()
    }

    /// The entry at position `i`, in insertion order.
    pub fn entry(&self, i: usize) -> (r: &CountryEntry)
        requires
            i < self@.len(),
        ensures
            r@ == self@[i as int],
    {
        &self.entries[i]
    }

    /// Position of the entry with the given code.
    pub fn find(&self, code: &str) -> (r: Option<usize>)
        ensures
            r matches Some(i) ==> i < self@.len() && self@[i as int].0 == code@,
            r is None ==> position_of(self@, code@) is None,
            self.wf() ==> r == (match position_of(self@, code@) {
                Some(i) => Some(i as usize),
                None => None::<usize>,
            }),
    {
        let key = String::from_str(code);
        let mut i: usize = 0;
        while i < self.entries.len()
            invariant
                i <= self.entries@.len(),
                key@ == code@,
                forall|j: int| 0 <= j < i ==> (#[trigger] self@[j]).0 != code@,
            decreases self.entries@.len() - i,
        {
            assert(self@[i as int] == self.entries@[i as int]@);
            if self.entries[i].code == key {
                proof {
                    if self.wf() {
                        let k = position_of(self@, code@)->0;
                        assert(self@[i as int].0 == code@);
                        assert(k == i);
                    }
                }
                return Some(i);
            }
            assert(self@[i as int].0 != code@);
            i = i + 1;
        }
        None
    }

    /// The entry with the given code.
    pub fn get(&self, code: &str) -> (r: Option<&CountryEntry>)
        ensures
            r matches Some(e) ==> e.code@ == code@ && exists|i: int|
                0 <= i < self@.len() && self@[i] == e@,
            r is None <==> position_of(self@, code@) is None,
            self.wf() ==> (r matches Some(e) ==> e@ == self@[position_of(self@, code@)->0]),
    {
        match self.find(code) {
            Some(i) => {
                assert(self@[i as int] == self.entries@[i as int]@);
                Some(&self.entries[i])
            },
            None => {
                None
            },
        }
    }

    /// Adds an entry; one with the same code is replaced in place.
    pub fn insert(&mut self, entry: CountryEntry)
        requires
            old(self).wf(),
            entry.wf(),
        ensures
            final(self)@ == inserted(old(self)@, entry@),
            final(self).wf(),
    {
        let ghost e = entry@;
        match self.find(entry.code.as_str()) {
            Some(i) => {
                self.entries.set(i, entry);
                assert(self@ =~= old(self)@.update(i as int, e));
            },
            None => {
                self.entries.push(entry);
                assert(self@ =~= old(self)@.push(e));
            },
        }
    }

    /// Every prefix of the given family, entry after entry.
    pub fn prefixes(&self, family: Family) -> (r: Vec<NetworkPrefix>)
        ensures
            r@ == all_prefixes(self@, family),
    {
        let mut out: Vec<NetworkPrefix> = Vec::new();
        let mut i: usize = 0;
        while i < self.entries.len()
            invariant
                i <= self.entries@.len(),
                out@ == all_prefixes(self@.take(i as int), family),
            decreases self.entries@.len() - i,
        {
            let e = &self.entries[i];
            let ps = match family {
                Family::V4 => &e.ipv4,
                Family::V6 => &e.ipv6,
            };
            let mut j: usize = 0;
            while j < ps.len()
                invariant
                    j <= ps@.len(),
                    i < self.entries@.len(),
                    ps@ == entry_prefixes(self@[i as int], family),
                    out@ == all_prefixes(self@.take(i as int), family) + ps@.take(j as int),
                decreases ps@.len() - j,
            {
                out.push(ps[j]);
                assert(ps@.take(j + 1) =~= ps@.take(j as int).push(ps@[j as int]));
                j = j + 1;
            }
            assert(self@.take(i + 1).drop_last() =~= self@.take(i as int));
            assert(ps@.take(j as int) =~= ps@);
            i = i + 1;
        }
        assert(self@.take(i as int) =~= self@);
        out
    }
}

} // verus!
