use vstd::prelude::*;

use crate::directory::{CountryDirectory, CountryEntry, EntryView, inserted};
use crate::feed::{feed_prefixes, feed_url, parse_feed, zone_url};
use crate::prefix::{Family, NetworkPrefix};

verus! {

/// A member of a country group: lower-case two-letter code and name.
pub struct Country {
    pub code: String,
    pub name: String,
}

/// What the driver of a resolution is to do next.
pub enum Step {
    /// Fetch the feed at this address and hand over the outcome.
    Fetch(String),
    /// Every member is resolved; the directory is complete.
    Finished,
    /// The feed at this address could not be fetched; the run is over and
    /// nothing is to be written.
    Failed(String),
}

/// The resolution of a country group: for each member in order, its IPv4
/// feed, then its IPv6 feed, then the entry goes into the directory. The
/// first fetch that fails ends the run.
pub struct Resolution {
    countries: Vec<Country>,
    next: usize,
    family: Family,
    pending: Vec<NetworkPrefix>,
    directory: CountryDirectory,
    failed: Option<String>,
}

impl Resolution {
    pub closed spec fn spec_codes(&self) -> Seq<Seq<char>> {
        self.countries@.map_values(|c: Country| c.code@)
    }

    /// Index of the member being resolved.
    pub closed spec fn spec_next(&self) -> nat {
        self.next as nat
    }

    /// Which feed of that member comes next.
    pub closed spec fn spec_family(&self) -> Family {
        self.family
    }

    /// The IPv4 prefixes of that member, once its IPv4 feed came in.
    pub closed spec fn spec_pending(&self) -> Seq<NetworkPrefix> {
        self.pending@
    }

    pub closed spec fn spec_directory(&self) -> Seq<EntryView> {
        self.directory@
    }

    /// The feed whose fetch failed, if one did.
    pub closed spec fn spec_failed(&self) -> Option<Seq<char>> {
        match self.failed {
            Some(u) => Some(u@),
            None => None,
        }
    }

    pub closed spec fn wf(&self) -> bool {
        &&& self.next <= self.countries@.len()
        &&& self.directory.wf()
        &&& crate::directory::all_of_family(self.pending@, Family::V4)
        &&& self.next == self.countries@.len() ==> self.family == Family::V4
    }

    /// The address of the feed that is due.
    pub open spec fn due_url(&self) -> Seq<char> {
        zone_url(self.spec_family(), self.spec_codes()[self.spec_next() as int])
    }

    pub fn new(countries: Vec<Country>) -> (r: Resolution)
        ensures
            r.wf(),
            r.spec_codes() == countries@.map_values(|c: Country| c.code@),
            r.spec_next() == 0,
            r.spec_family() == Family::V4,
            r.spec_pending() == Seq::<NetworkPrefix>::empty(),
            r.spec_directory() == Seq::<EntryView>::empty(),
            r.spec_failed() is None,
    {
        Resolution {
            countries,
            next: 0,
            family: Family::V4,
            pending: Vec::new(),
            directory: CountryDirectory::new(),
            failed: None,
        }
    }

    /// What to do next: fetch the due feed, stop with the complete
    /// directory, or stop on the feed that failed.
    pub fn next_step(&self) -> (r: Step)
        requires
            self.wf(),
        ensures
            match self.spec_failed() {
                Some(u) => r matches Step::Failed(v) && v@ == u,
                None => if self.spec_next() == self.spec_codes().len() {
                    r is Finished
                } else {
                    r matches Step::Fetch(v) && v@ == self.due_url()
                },
            },
    {
        match &self.failed {
            Some(u) => Step::Failed(u.clone()),
            None => {
                if self.next == self.countries.len() {
                    Step::Finished
                } else {
                    Step::Fetch(self.due_url_exec())
                }
            },
        }
    }

    fn due_url_exec(&self) -> (r: String)
        requires
            self.wf(),
            self.spec_next() < self.spec_codes().len(),
        ensures
            r@ == self.due_url(),
    {
        feed_url(self.family, self.countries[self.next].code.as_str())
    }

    /// Takes the body of the due feed: an IPv4 body is kept until the IPv6
    /// body of the same member comes; with that one the member's entry goes
    /// into the directory and the next member is due.
    pub fn on_body(&mut self, body: &str)
        requires
            old(self).wf(),
            old(self).spec_failed() is None,
            old(self).spec_next() < old(self).spec_codes().len(),
        ensures
            final(self).wf(),
            final(self).spec_codes() == old(self).spec_codes(),
            final(self).spec_failed() is None,
            old(self).spec_family() == Family::V4 ==> {
                &&& final(self).spec_family() == Family::V6
                &&& final(self).spec_next() == old(self).spec_next()
                &&& final(self).spec_pending() == feed_prefixes(body@, Family::V4)
                &&& final(self).spec_directory() == old(self).spec_directory()
            },
            old(self).spec_family() == Family::V6 ==> {
                &&& final(self).spec_family() == Family::V4
                &&& final(self).spec_next() == old(self).spec_next() + 1
                &&& final(self).spec_pending() == Seq::<NetworkPrefix>::empty()
                &&& final(self).spec_directory() == inserted(
                    old(self).spec_directory(),
                    (
                        old(self).spec_codes()[old(self).spec_next() as int],
                        old(self).spec_pending(),
                        feed_prefixes(body@, Family::V6),
                    ),
                )
            },
    {
        assert(self.countries@.map_values(|c: Country| c.code@).len() == self.countries@.len());
        match self.family {
            Family::V4 => {
                self.pending = parse_feed(body, Family::V4);
                self.family = Family::V6;
            },
            Family::V6 => {
                let ipv6 = parse_feed(body, Family::V6);
                let mut ipv4: Vec<NetworkPrefix> = Vec::new();
                core::mem::swap(&mut ipv4, &mut self.pending);
                let n = self.next;
                let code = self.countries[n].code.clone();
                let total = self.countries.len();
                assert(n < total);
                let entry = CountryEntry { code, ipv4, ipv6 };
                self.directory.insert(entry);
                self.next = n + 1;
                self.family = Family::V4;
            },
        }
    }

    /// Number of members resolved so far.
    pub fn resolved(&self) -> (r: usize)
        ensures
            r == self.spec_next(),
    {
        self.next
    }

    /// The entries of the members resolved so far.
    pub fn directory(&self) -> (r: &CountryDirectory)
        ensures
            r@ == self.spec_directory(),
    {
        &self.directory
    }

    /// Records that the due feed could not be fetched: the run ends on it.
    pub fn on_failure(&mut self)
        requires
            old(self).wf(),
            old(self).spec_failed() is None,
            old(self).spec_next() < old(self).spec_codes().len(),
        ensures
            final(self).wf(),
            final(self).spec_failed() == Some(old(self).due_url()),
            final(self).spec_codes() == old(self).spec_codes(),
            final(self).spec_next() == old(self).spec_next(),
            final(self).spec_family() == old(self).spec_family(),
            final(self).spec_directory() == old(self).spec_directory(),
    {
        let url = self.due_url_exec();
        self.failed = Some(url);
    }

    /// The directory, once every member is resolved and no fetch failed;
    /// nothing otherwise.
    pub fn finish(self) -> (r: Option<CountryDirectory>)
        requires
            self.wf(),
        ensures
            r is Some <==> self.spec_failed() is None && self.spec_next()
                == self.spec_codes().len(),
            r matches Some(d) ==> d@ == self.spec_directory() && d.wf(),
    {
        if self.failed.is_none() && self.next == self.countries.len() {
            Some(self.directory)
        } else {
            None
        }
    }
}

} // verus!
