use vstd::prelude::*;
use crate::gdp::{GdpName, names_equal};
use crate::rib::RIB_IP;

verus! {

/// One binding of the forwarding table. `expires` is the time at which the
/// binding lapses; `None` for a static route.
#[derive(Debug, Clone, Copy)]
pub struct Entry {
    pub name: GdpName,
    pub addr: u32,
    pub expires: Option<u64>,
}

/// Whether an entry survives an expiry pass at time `now`.
pub open spec fn retained(e: Entry, now: u64) -> bool {
    match e.expires {
        None => true,
        Some(t) => now < t,
    }
}

/// The forwarding table: names to IPv4 addresses, each name at most once.
#[derive(Debug, Clone)]
pub struct Store {
    pub entries: Vec<Entry>,
}

/// The position of `k` in `s`, where there is one.
pub open spec fn has_name_at(s: Seq<Entry>, k: Seq<u8>, i: int) -> bool {
    0 <= i < s.len() && s[i].name@ == k
}

/// No name occurs twice in `s`.
pub open spec fn unique_names(s: Seq<Entry>) -> bool {
    forall|i: int, j: int|
        0 <= i < s.len() && 0 <= j < s.len() && #[trigger] s[i].name@ == #[trigger] s[j].name@
            ==> i == j
}

/// The bindings of `s` as a map from name bytes to address.
pub open spec fn table(s: Seq<Entry>) -> Map<Seq<u8>, u32> {
    Map::new(
        |k: Seq<u8>| exists|i: int| has_name_at(s, k, i),
        |k: Seq<u8>| s[choose|i: int| has_name_at(s, k, i)].addr,
    )
}

/// In a table without repeated names, each entry gives its own binding.
pub proof fn lemma_table_at(s: Seq<Entry>, i: int)
    requires
        unique_names(s),
        0 <= i < s.len(),
    ensures
        table(s).dom().contains(s[i].name@),
        table(s)[s[i].name@] == s[i].addr,
{
    let k = s[i].name@;
    assert(has_name_at(s, k, i));
    let c = choose|j: int| has_name_at(s, k, j);
    assert(s[c].name@ == s[i].name@);
}

/// No entry of `s` points at the RIB itself: the RIB is found out of band.
pub open spec fn no_rib_target(s: Seq<Entry>) -> bool {
    forall|i: int| 0 <= i < s.len() ==> #[trigger] s[i].addr != RIB_IP
}

impl Store {
    pub open spec fn wf(&self) -> bool {
        &&& unique_names(self.entries@)
        &&& no_rib_target(self.entries@)
    }

    /// The table as a map from name bytes to address.
    pub open spec fn view(&self) -> Map<Seq<u8>, u32> {
        table(self.entries@)
    }

    pub fn new() -> (r: Store)
        ensures
            r.wf(),
            r@ == Map::<Seq<u8>, u32>::empty(),
    {
        let r = Store { entries: Vec::new() };
        assert(r@ =~= Map::<Seq<u8>, u32>::empty());
        r
    }

    /// The index of `name`, where it is bound.
    fn find(&self, name: &GdpName) -> (r: Option<usize>)
        requires
            self.wf(),
        ensures
            r is None <==> !self@.dom().contains(name@),
            r is None ==> forall|j: int| 0 <= j < self.entries@.len() ==> self.entries@[j].name@ != name@,
            r matches Some(i) ==> has_name_at(self.entries@, name@, i as int),
    {
        let mut i: usize = 0;
        while i < self.entries.len()
            invariant
                0 <= i <= self.entries@.len(),
                unique_names(self.entries@),
                forall|j: int| 0 <= j < i ==> self.entries@[j].name@ != name@,
            decreases self.entries@.len() - i,
        {
            if names_equal(&self.entries[i].name, name) {
                proof {
                    lemma_table_at(self.entries@, i as int);
                }
                return Some(i);
            }
            i = i + 1;
        }
        None
    }

    /// Looks a name up.
    pub fn lookup(&self, name: &GdpName) -> (r: Option<u32>)
        requires
            self.wf(),
        ensures
            r is Some <==> self@.dom().contains(name@),
            r matches Some(a) ==> a == self@[name@],
    {
        match self.find(name) {
            Some(i) => {
                proof {
                    lemma_table_at(self.entries@, i as int);
                }
                Some(self.entries[i].addr)
            },
            None => None,
        }
    }

    /// Binds `name` to `addr`, replacing an earlier binding; the binding
    /// lapses at `expires`, or never where that is `None`.
    pub fn insert(&mut self, name: GdpName, addr: u32, expires: Option<u64>)
        requires
            old(self).wf(),
            addr != RIB_IP,
        ensures
            final(self).wf(),
            final(self)@ == old(self)@.insert(name@, addr),
            exists|i: int| #[trigger] has_name_at(final(self).entries@, name@, i)
                && final(self).entries@[i].expires == expires,
    {
        let ghost before = self.entries@;
        let ghost target = table(before).insert(name@, addr);
        let ghost pos: int;
        match self.find(&name) {
            Some(i) => {
                self.entries.set(i, Entry { name, addr, expires });
                proof {
                    pos = i as int;
                }
            },
            None => {
                self.entries.push(Entry { name, addr, expires });
                proof {
                    pos = before.len() as int;
                }
            },
        }
        let ghost after = self.entries@;
        assert(has_name_at(after, name@, pos));
        assert(unique_names(after)) by {
            assert forall|i: int, j: int|
                0 <= i < after.len() && 0 <= j < after.len() && #[trigger] after[i].name@
                    == #[trigger] after[j].name@ implies i == j by {
                if i != pos && j != pos {
                    assert(before[i].name@ == before[j].name@);
                } else if i != pos {
                    assert(before[i].name@ == name@);
                } else if j != pos {
                    assert(before[j].name@ == name@);
                }
            }
        }
        assert forall|k: Seq<u8>| #[trigger] target.dom().contains(k) implies table(after).dom().contains(
            k,
        ) && table(after)[k] == target[k] by {
            if k == name@ {
                lemma_table_at(after, pos);
            } else {
                let j = choose|j: int| has_name_at(before, k, j);
                lemma_table_at(before, j);
                assert(j != pos);
                assert(after[j] == before[j]);
                lemma_table_at(after, j);
            }
        }
        assert forall|k: Seq<u8>| #[trigger] table(after).dom().contains(k) implies target.dom().contains(k) by {
            let j = choose|j: int| has_name_at(after, k, j);
            if j != pos {
                assert(has_name_at(before, k, j));
            }
        }
        assert(table(after) =~= target);
    }

    /// Evicts every entry whose time has come by `now`; the others stay, in
    /// their order.
    pub fn run_active_expire(&mut self, now: u64)
        requires
            old(self).wf(),
        ensures
            final(self).wf(),
            final(self).entries@ == old(self).entries@.filter(|e: Entry| retained(e, now)),
    {
        let ghost pred = |e: Entry| retained(e, now);
        let ghost s = self.entries@;
        let mut kept: Vec<Entry> = Vec::new();
        let mut i: usize = 0;
        while i < self.entries.len()
            invariant
                0 <= i <= s.len(),
                s == self.entries@,
                pred == (|e: Entry| retained(e, now)),
                unique_names(s),
                kept@ == s.subrange(0, i as int).filter(pred),
                unique_names(kept@),
                forall|a: int| 0 <= a < kept@.len() ==> exists|b: int| 0 <= b < i && #[trigger] kept@[a] == s[b],
            decreases s.len() - i,
        {
            let e = self.entries[i];
            proof {
                s.subrange(0, i as int).lemma_filter_push(e, pred);
                assert(s.subrange(0, i + 1) == s.subrange(0, i as int).push(e));
            }
            let keep = match e.expires {
                None => true,
                Some(t) => now < t,
            };
            assert(keep == pred(e));
            if keep {
                let ghost k0 = kept@;
                kept.push(e);
                proof {
                    assert forall|a: int, c: int|
                        0 <= a < kept@.len() && 0 <= c < kept@.len() && #[trigger] kept@[a].name@
                            == #[trigger] kept@[c].name@ implies a == c by {
                        if a < k0.len() && c == k0.len() {
                            let b = choose|b: int| 0 <= b < i && #[trigger] k0[a] == s[b];
                            assert(s[b].name@ == s[i as int].name@);
                        } else if c < k0.len() && a == k0.len() {
                            let b = choose|b: int| 0 <= b < i && #[trigger] k0[c] == s[b];
                            assert(s[b].name@ == s[i as int].name@);
                        } else if a < k0.len() && c < k0.len() {
                            assert(k0[a].name@ == k0[c].name@);
                        }
                    }
                    assert forall|a: int| 0 <= a < kept@.len() implies exists|b: int|
                        0 <= b < i + 1 && #[trigger] kept@[a] == s[b] by {
                        if a < k0.len() {
                            let b = choose|b: int| 0 <= b < i && #[trigger] k0[a] == s[b];
                            assert(kept@[a] == s[b]);
                        } else {
                            assert(kept@[a] == s[i as int]);
                        }
                    }
                }
            }
            i = i + 1;
        }
        assert(s.subrange(0, s.len() as int) == s);
        self.entries = kept;
    }
}

} // verus!
