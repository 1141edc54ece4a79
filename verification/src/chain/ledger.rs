//! The balance ledger: a mapping from address to unsigned balance, created
//! empty and mutated only by `credit`.

use vstd::prelude::*;

verus! {

/// Address-to-balance mapping. Viewed as a `Map` from the address's
/// characters to its balance; an address without an entry has balance zero.
pub struct Ledger {
    pub balances: Vec<(String, u64)>,
}

/// The balance of the first entry for `a`, if any.
pub open spec fn spec_find(entries: Seq<(String, u64)>, a: Seq<char>) -> Option<u64>
    decreases entries.len(),
{
    if entries.len() == 0 {
        None
    } else if entries[0].0@ == a {
        Some(entries[0].1)
    } else {
        spec_find(entries.drop_first(), a)
    }
}

impl View for Ledger {
    type V = Map<Seq<char>, u64>;

    open spec fn view(&self) -> Map<Seq<char>, u64> {
        Map::new(
            |a: Seq<char>| spec_find(self.balances@, a) is Some,
            |a: Seq<char>| spec_find(self.balances@, a)->Some_0,
        )
    }
}

/// Balance of `a` in a ledger map, counting a missing address as zero.
pub open spec fn spec_balance(m: Map<Seq<char>, u64>, a: Seq<char>) -> u64 {
    if m.contains_key(a) {
        m[a]
    } else {
        0u64
    }
}

/// The ledger map after crediting `amt` to `a` (truncating on overflow;
/// the executable `credit` forbids overflow by precondition).
pub open spec fn spec_credit(m: Map<Seq<char>, u64>, a: Seq<char>, amt: u64) -> Map<Seq<char>, u64> {
    m.insert(a, (spec_balance(m, a) + amt) as u64)
}

/// Scanning past a prefix with no entry for `a` does not change what is found.
proof fn lemma_find_skip_miss(entries: Seq<(String, u64)>, a: Seq<char>, i: int)
    requires
        0 <= i <= entries.len(),
        forall|j: int| 0 <= j < i ==> entries[j].0@ != a,
    ensures
        spec_find(entries, a) == spec_find(entries.skip(i), a),
    decreases i,
{
    if i > 0 {
        assert(entries[0].0@ != a);
        assert forall|j: int| 0 <= j < i - 1 implies entries.drop_first()[j].0@ != a by {
            assert(entries.drop_first()[j] == entries[j + 1]);
        }
        lemma_find_skip_miss(entries.drop_first(), a, i - 1);
        assert(entries.drop_first().skip(i - 1) =~= entries.skip(i));
    } else {
        assert(entries.skip(0) =~= entries);
    }
}

/// Appending an entry is only seen by addresses that had none before.
proof fn lemma_find_push(entries: Seq<(String, u64)>, e: (String, u64), x: Seq<char>)
    ensures
        spec_find(entries.push(e), x) == (if spec_find(entries, x) is Some {
            spec_find(entries, x)
        } else if e.0@ == x {
            Some(e.1)
        } else {
            None::<u64>
        }),
    decreases entries.len(),
{
    if entries.len() == 0 {
        assert(entries.push(e)[0] == e);
        if e.0@ != x {
            assert(spec_find(entries.push(e).drop_first(), x) is None);
        }
    } else {
        assert(entries.push(e)[0] == entries[0]);
        assert(entries.push(e).drop_first() =~= entries.drop_first().push(e));
        lemma_find_push(entries.drop_first(), e, x);
    }
}

/// Overwriting the first entry for an address changes what is found for that
/// address alone.
proof fn lemma_find_update_first(entries: Seq<(String, u64)>, i: int, e: (String, u64), x: Seq<char>)
    requires
        0 <= i < entries.len(),
        forall|j: int| 0 <= j < i ==> entries[j].0@ != entries[i].0@,
        e.0@ == entries[i].0@,
    ensures
        spec_find(entries.update(i, e), x) == (if x == e.0@ {
            Some(e.1)
        } else {
            spec_find(entries, x)
        }),
    decreases i,
{
    if i == 0 {
        assert(entries.update(0, e)[0] == e);
        assert(entries.update(0, e).drop_first() =~= entries.drop_first());
        if x == e.0@ {
        } else {
            assert(entries[0].0@ == e.0@ && e.0@ != x);
        }
    } else {
        assert(entries.update(i, e)[0] == entries[0]);
        assert(entries.update(i, e).drop_first() =~= entries.drop_first().update(i - 1, e));
        lemma_find_update_first(entries.drop_first(), i - 1, e, x);
    }
}

impl Ledger {
    /// An empty ledger: every address has balance zero.
    pub fn new() -> (r: Ledger)
        ensures
            r@ == Map::<Seq<char>, u64>::empty(),
            r.balances@.len() == 0,
    {
        let l = Ledger { balances: Vec::new() };
        proof {
            assert(l@ =~= Map::<Seq<char>, u64>::empty());
        }
        l
    }

    /// Adds `amount` to the balance of `address`, initializing an unknown
    /// address to zero first. The caller bounds the total supply, so the sum
    /// fits.
    pub fn credit(&mut self, address: &str, amount: u64)
        requires
            spec_balance(old(self)@, address@) + amount <= u64::MAX,
        ensures
            final(self)@ == spec_credit(old(self)@, address@, amount),
    {
        let addr = address.to_owned();
        let n = self.balances.len();
        let mut i: usize = 0;
        while i < n
            invariant
                n == self.balances@.len(),
                i <= n,
                *self == *old(self),
                addr@ == address@,
                spec_balance(old(self)@, address@) + amount <= u64::MAX,
                forall|j: int| 0 <= j < i ==> self.balances@[j].0@ != address@,
            decreases n - i,
        {
            if self.balances[i].0 == addr {
                proof {
                    lemma_find_skip_miss(self.balances@, address@, i as int);
                    assert(self.balances@.skip(i as int)[0] == self.balances@[i as int]);
                    assert(spec_find(self.balances@, address@) == Some(
                        self.balances@[i as int].1,
                    ));
                    assert(spec_balance(old(self)@, address@) == self.balances@[i as int].1);
                }
                let updated = self.balances[i].1 + amount;
                let ghost entries = self.balances@;
                self.balances[i] = (address.to_owned(), updated);
                proof {
                    assert(self.balances@ =~= entries.update(
                        i as int,
                        (self.balances@[i as int].0, updated),
                    ));
                    assert forall|x: Seq<char>|
                        spec_find(self.balances@, x) == (if x == address@ {
                            Some(updated)
                        } else {
                            spec_find(entries, x)
                        }) by {
                        lemma_find_update_first(
                            entries,
                            i as int,
                            self.balances@[i as int],
                            x,
                        );
                    }
                    assert(self@ =~= spec_credit(old(self)@, address@, amount));
                }
                return ;
            }
            i = i + 1;
        }
        proof {
            lemma_find_skip_miss(self.balances@, address@, n as int);
            assert(self.balances@.skip(n as int) =~= Seq::<(String, u64)>::empty());
            assert(spec_find(self.balances@, address@) is None);
        }
        let ghost entries = self.balances@;
        self.balances.push((address.to_owned(), amount));
        proof {
            assert forall|x: Seq<char>|
                spec_find(self.balances@, x) == (if spec_find(entries, x) is Some {
                    spec_find(entries, x)
                } else if x == address@ {
                    Some(amount)
                } else {
                    None::<u64>
                }) by {
                lemma_find_push(entries, self.balances@.last(), x);
            }
            assert(self@ =~= spec_credit(old(self)@, address@, amount));
        }
    }

    /// The balance of `address`, zero when the address was never credited.
    pub fn get_balance(&self, address: &str) -> (r: u64)
        ensures
            r == spec_balance(self@, address@),
    {
        let addr = address.to_owned();
        let n = self.balances.len();
        let mut i: usize = 0;
        while i < n
            invariant
                n == self.balances@.len(),
                i <= n,
                addr@ == address@,
                forall|j: int| 0 <= j < i ==> self.balances@[j].0@ != address@,
            decreases n - i,
        {
            if self.balances[i].0 == addr {
                proof {
                    lemma_find_skip_miss(self.balances@, address@, i as int);
                    assert(self.balances@.skip(i as int)[0] == self.balances@[i as int]);
                }
                return self.balances[i].1;
            }
            i = i + 1;
        }
        proof {
            lemma_find_skip_miss(self.balances@, address@, n as int);
            assert(self.balances@.skip(n as int) =~= Seq::<(String, u64)>::empty());
        }
        0
    }
}

/// Credits accumulate additively: crediting `x` and then `y` to the same
/// address raises its balance by exactly `x + y`, and touches no other
/// address.
pub proof fn lemma_credit_accumulates(m: Map<Seq<char>, u64>, a: Seq<char>, x: u64, y: u64)
    requires
        spec_balance(m, a) + x + y <= u64::MAX,
    ensures
        spec_balance(spec_credit(spec_credit(m, a, x), a, y), a) == spec_balance(m, a) + x + y,
        forall|b: Seq<char>| b != a ==> spec_balance(
            spec_credit(spec_credit(m, a, x), a, y),
            b,
        ) == spec_balance(m, b),
{
}

} // verus!
