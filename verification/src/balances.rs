use vstd::prelude::*;

verus! {

/// A fungible sub-ledger: one balance per account id. Balances are held as
/// `(account, balance)` entries; a lookup takes the first entry of an
/// account and an update rewrites that entry in place, so an account never
/// gains a second effective entry.
pub struct Balances {
    entries: Vec<(u64, i128)>,
}

/// The first balance recorded for `who` at or after position `i`.
spec fn find_from(s: Seq<(u64, i128)>, who: u64, i: int) -> Option<i128>
    decreases s.len() - i,
{
    if i < 0 || i >= s.len() {
        None
    } else if s[i].0 == who {
        Some(s[i].1)
    } else {
        find_from(s, who, i + 1)
    }
}

/// The sum of all balances recorded at or after position `i`.
spec fn sum_from(s: Seq<(u64, i128)>, i: int) -> int
    decreases s.len() - i,
{
    if i < 0 || i >= s.len() {
        0
    } else {
        s[i].1 + sum_from(s, i + 1)
    }
}

spec fn nonneg_entries(s: Seq<(u64, i128)>) -> bool {
    forall|k: int| 0 <= k < s.len() ==> (#[trigger] s[k]).1 >= 0
}

proof fn lemma_sum_nonneg(s: Seq<(u64, i128)>, i: int)
    requires
        nonneg_entries(s),
    ensures
        sum_from(s, i) >= 0,
    decreases s.len() - i,
{
    if 0 <= i < s.len() {
        lemma_sum_nonneg(s, i + 1);
    }
}

proof fn lemma_find_le_sum(s: Seq<(u64, i128)>, who: u64, i: int)
    requires
        nonneg_entries(s),
    ensures
        (match find_from(s, who, i) {
            Some(v) => 0 <= v && v <= sum_from(s, i),
            None => true,
        }),
    decreases s.len() - i,
{
    if i < 0 || i >= s.len() {
    } else if s[i].0 == who {
        lemma_sum_nonneg(s, i + 1);
    } else {
        lemma_find_le_sum(s, who, i + 1);
    }
}

proof fn lemma_find_update_match(s: Seq<(u64, i128)>, who: u64, j: int, v: i128, i: int)
    requires
        0 <= i <= j < s.len(),
        s[j].0 == who,
        forall|k: int| i <= k < j ==> (#[trigger] s[k]).0 != who,
    ensures
        find_from(s.update(j, (who, v)), who, i) == Some(v),
    decreases j - i,
{
    let s2 = s.update(j, (who, v));
    if i == j {
        assert(s2[j] == (who, v));
    } else {
        assert(s2[i] == s[i]);
        lemma_find_update_match(s, who, j, v, i + 1);
    }
}

proof fn lemma_find_update_other(s: Seq<(u64, i128)>, who: u64, j: int, v: i128, w: u64, i: int)
    requires
        0 <= j < s.len(),
        s[j].0 == who,
        w != who,
    ensures
        find_from(s.update(j, (who, v)), w, i) == find_from(s, w, i),
    decreases s.len() - i,
{
    let s2 = s.update(j, (who, v));
    if i < 0 || i >= s.len() {
    } else {
        if i == j {
            assert(s2[i].0 == who);
            lemma_find_update_other(s, who, j, v, w, i + 1);
        } else {
            assert(s2[i] == s[i]);
            if s[i].0 != w {
                lemma_find_update_other(s, who, j, v, w, i + 1);
            }
        }
    }
}

proof fn lemma_sum_same_suffix(s: Seq<(u64, i128)>, s2: Seq<(u64, i128)>, i: int)
    requires
        s2.len() == s.len(),
        forall|k: int| i <= k < s.len() ==> s2[k] == s[k],
    ensures
        sum_from(s2, i) == sum_from(s, i),
    decreases s.len() - i,
{
    if 0 <= i < s.len() {
        lemma_sum_same_suffix(s, s2, i + 1);
    }
}

proof fn lemma_sum_update(s: Seq<(u64, i128)>, j: int, p: (u64, i128), i: int)
    requires
        0 <= i <= j < s.len(),
    ensures
        sum_from(s.update(j, p), i) == sum_from(s, i) - s[j].1 + p.1,
    decreases j - i,
{
    let s2 = s.update(j, p);
    if i == j {
        lemma_sum_same_suffix(s, s2, i + 1);
    } else {
        assert(s2[i] == s[i]);
        lemma_sum_update(s, j, p, i + 1);
    }
}

proof fn lemma_sum_push(s: Seq<(u64, i128)>, p: (u64, i128), i: int)
    requires
        0 <= i <= s.len(),
    ensures
        sum_from(s.push(p), i) == sum_from(s, i) + p.1,
    decreases s.len() - i,
{
    let s2 = s.push(p);
    if i == s.len() {
        assert(s2[i] == p);
        assert(sum_from(s2, i + 1) == 0);
    } else {
        assert(s2[i] == s[i]);
        lemma_sum_push(s, p, i + 1);
    }
}

proof fn lemma_find_push_new(s: Seq<(u64, i128)>, who: u64, v: i128, i: int)
    requires
        0 <= i <= s.len(),
        forall|k: int| i <= k < s.len() ==> (#[trigger] s[k]).0 != who,
    ensures
        find_from(s.push((who, v)), who, i) == Some(v),
    decreases s.len() - i,
{
    let s2 = s.push((who, v));
    if i == s.len() {
        assert(s2[i] == (who, v));
    } else {
        assert(s2[i] == s[i]);
        lemma_find_push_new(s, who, v, i + 1);
    }
}

proof fn lemma_find_push_other(s: Seq<(u64, i128)>, p: (u64, i128), w: u64, i: int)
    requires
        0 <= i <= s.len(),
        p.0 != w,
    ensures
        find_from(s.push(p), w, i) == find_from(s, w, i),
    decreases s.len() - i,
{
    let s2 = s.push(p);
    if i == s.len() {
        assert(s2[i] == p);
    } else {
        assert(s2[i] == s[i]);
        if s[i].0 != w {
            lemma_find_push_other(s, p, w, i + 1);
        }
    }
}

impl Balances {
    /// The balance of `who`: the recorded entry, or zero when none exists.
    pub closed spec fn spec_get(self, who: u64) -> i128 {
        match find_from(self.entries@, who, 0) {
            Some(b) => b,
            None => 0,
        }
    }

    /// The sum of every recorded balance.
    pub closed spec fn spec_total(self) -> int {
        sum_from(self.entries@, 0)
    }

    /// Every recorded balance is non-negative.
    pub closed spec fn wf(self) -> bool {
        nonneg_entries(self.entries@)
    }

    /// In a well-formed table no balance is negative.
    pub proof fn lemma_get_nonneg(self, who: u64)
        requires
            self.wf(),
        ensures
            self.spec_get(who) >= 0,
    {
        lemma_find_le_sum(self.entries@, who, 0);
    }

    /// A single balance never exceeds the total of the table.
    pub proof fn lemma_get_le_total(self, who: u64)
        requires
            self.wf(),
        ensures
            self.spec_get(who) <= self.spec_total(),
    {
        lemma_find_le_sum(self.entries@, who, 0);
        lemma_sum_nonneg(self.entries@, 0);
    }

    /// An empty table: every account has balance zero.
    pub fn new() -> (r: Balances)
        ensures
            r.wf(),
            r.spec_total() == 0,
            forall|w: u64| r.spec_get(w) == 0,
    {
        Balances { entries: Vec::new() }
    }

    /// Reads the balance of `who`.
    pub fn get(&self, who: u64) -> (r: i128)
        ensures
            r == self.spec_get(who),
    {
        let n = self.entries.len();
        let mut i: usize = 0;
        while i < n
            invariant
                n == self.entries@.len(),
                i <= n,
                find_from(self.entries@, who, 0) == find_from(self.entries@, who, i as int),
            decreases n - i,
        {
            if self.entries[i].0 == who {
                return self.entries[i].1;
            }
            i += 1;
        }
        0
    }

    /// Overwrites the balance of `who` with `value`, leaving every other
    /// account untouched and adjusting the total by the difference.
    pub fn set(&mut self, who: u64, value: i128)
        requires
            old(self).wf(),
            value >= 0,
    ensures
            final(self).wf(),
            final(self).spec_get(who) == value,
            forall|w: u64| w != who ==> final(self).spec_get(w) == old(self).spec_get(w),
            final(self).spec_total() == old(self).spec_total() - old(self).spec_get(who)
                + value,
    {
        let n = self.entries.len();
        let mut i: usize = 0;
        while i < n
            invariant
                old(self).wf(),
                value >= 0,
                self.entries@ == old(self).entries@,
                n == self.entries@.len(),
                i <= n,
                forall|k: int| 0 <= k < i ==> (#[trigger] self.entries@[k]).0 != who,
                find_from(self.entries@, who, 0) == find_from(self.entries@, who, i as int),
            decreases n - i,
        {
            if self.entries[i].0 == who {
                proof {
                    let s = self.entries@;
                    let s2 = s.update(i as int, (who, value));
                    lemma_find_update_match(s, who, i as int, value, 0);
                    assert forall|w: u64| w != who implies find_from(s2, w, 0) == find_from(
                        s,
                        w,
                        0,
                    ) by {
                        lemma_find_update_other(s, who, i as int, value, w, 0);
                    }
                    lemma_sum_update(s, i as int, (who, value), 0);
                    assert forall|k: int| 0 <= k < s2.len() implies (#[trigger] s2[k]).1
                        >= 0 by {
                        if k != i as int {
                            assert(s2[k] == s[k]);
                        } else {
                            assert(s2[k] == (who, value));
                        }
                    }
                }
                self.entries[i] = (who, value);
                return;
            }
            i += 1;
        }
        proof {
            let s = self.entries@;
            let s2 = s.push((who, value));
            lemma_find_push_new(s, who, value, 0);
            assert forall|w: u64| w != who implies find_from(s2, w, 0) == find_from(s, w, 0) by {
                lemma_find_push_other(s, (who, value), w, 0);
            }
            lemma_sum_push(s, (who, value), 0);
            assert forall|k: int| 0 <= k < s2.len() implies (#[trigger] s2[k]).1 >= 0 by {
                if k != s.len() {
                    assert(s2[k] == s[k]);
                } else {
                    assert(s2[k] == (who, value));
                }
            }
        }
        self.entries.push((who, value));
    }
}

} // verus!
