//! Small verified vector utilities: elementwise addition, order-preserving
//! deduplication, and counted character search.

use vstd::prelude::*;

verus! {

/// Adds `n` to every element of `v`, in a fresh vector.
pub fn add_n(v: Vec<i32>, n: i32) -> (r: Vec<i32>)
    requires
        forall|i: int| 0 <= i < v@.len() ==> i32::MIN <= (#[trigger] v@[i]) + n <= i32::MAX,
    ensures
        r@.len() == v@.len(),
        forall|i: int| 0 <= i < v@.len() ==> r@[i] == v@[i] + n,
{
    let mut out: Vec<i32> = Vec::new();
    let mut i: usize = 0;
    while i < v.len()
        invariant
            i <= v@.len(),
            out@.len() == i,
            forall|j: int| 0 <= j < i ==> out@[j] == v@[j] + n,
            forall|j: int| 0 <= j < v@.len() ==> i32::MIN <= (#[trigger] v@[j]) + n <= i32::MAX,
        decreases v@.len() - i,
    {
        out.push(v[i] + n);
        i = i + 1;
    }
    out
}

/// Adds `n` to every element of `v`, in place.
pub fn add_n_inplace(v: &mut Vec<i32>, n: i32)
    requires
        forall|i: int| 0 <= i < old(v)@.len() ==> i32::MIN <= (#[trigger] old(v)@[i]) + n <= i32::MAX,
    ensures
        final(v)@.len() == old(v)@.len(),
        forall|i: int| 0 <= i < old(v)@.len() ==> final(v)@[i] == old(v)@[i] + n,
{
    let mut i: usize = 0;
    while i < v.len()
        invariant
            i <= v@.len(),
            v@.len() == old(v)@.len(),
            forall|j: int| 0 <= j < i ==> v@[j] == old(v)@[j] + n,
            forall|j: int| i <= j < v@.len() ==> v@[j] == old(v)@[j],
            forall|j: int| 0 <= j < old(v)@.len() ==> i32::MIN <= (#[trigger] old(v)@[j]) + n <= i32::MAX,
        decreases v@.len() - i,
    {
        let x = v[i];
        v[i] = x + n;
        i = i + 1;
    }
}

/// `s` with every repeated value removed: each value keeps its first
/// occurrence, in order.
pub open spec fn dedup_seq(s: Seq<i32>) -> Seq<i32>
    decreases s.len(),
{
    if s.len() == 0 {
        Seq::<i32>::empty()
    } else {
        let prefix = dedup_seq(s.drop_last());
        if s.drop_last().contains(s.last()) {
            prefix
        } else {
            prefix.push(s.last())
        }
    }
}

/// Deduplication keeps exactly the values of its input.
proof fn lemma_dedup_contains(s: Seq<i32>, x: i32)
    ensures
        dedup_seq(s).contains(x) == s.contains(x),
    decreases s.len(),
{
    if s.len() > 0 {
        let t = s.drop_last();
        lemma_dedup_contains(t, x);
        if s.contains(x) {
            let i = choose|i: int| 0 <= i < s.len() && s[i] == x;
            if i < s.len() - 1 {
                assert(t[i] == x);
                assert(t.contains(x));
            }
        }
        if t.contains(x) {
            let i = choose|i: int| 0 <= i < t.len() && t[i] == x;
            assert(s[i] == x);
            assert(s.contains(x));
        }
        if s.last() == x {
            assert(s[s.len() - 1] == x);
            assert(s.contains(x));
        }
        let prefix = dedup_seq(t);
        if !t.contains(s.last()) {
            let pushed = prefix.push(s.last());
            assert(pushed[prefix.len() as int] == s.last());
            assert(pushed.contains(s.last()));
            if pushed.contains(x) && x != s.last() {
                let i = choose|i: int| 0 <= i < pushed.len() && pushed[i] == x;
                assert(prefix[i] == x);
                assert(prefix.contains(x));
            }
            if prefix.contains(x) {
                let i = choose|i: int| 0 <= i < prefix.len() && prefix[i] == x;
                assert(pushed[i] == x);
                assert(pushed.contains(x));
            }
        }
    }
}

/// Whether `v` holds `x`.
pub fn contains_value(v: &Vec<i32>, x: i32) -> (r: bool)
    ensures
        r == v@.contains(x),
{
    let mut i: usize = 0;
    while i < v.len()
        invariant
            i <= v@.len(),
            forall|j: int| 0 <= j < i ==> v@[j] != x,
        decreases v@.len() - i,
    {
        if v[i] == x {
            assert(v@.contains(x)) by {
                assert(v@[i as int] == x);
            }
            return true;
        }
        i = i + 1;
    }
    false
}

/// Removes every repeated value from `v`, keeping first occurrences in
/// order.
pub fn dedup(v: &mut Vec<i32>)
    ensures
        final(v)@ == dedup_seq(old(v)@),
{
    let mut out: Vec<i32> = Vec::new();
    let mut i: usize = 0;
    while i < v.len()
        invariant
            i <= v@.len(),
            v@ == old(v)@,
            out@ == dedup_seq(v@.subrange(0, i as int)),
        decreases v@.len() - i,
    {
        let x = v[i];
        let dup = contains_value(&out, x);
        proof {
            let t = v@.subrange(0, i as int);
            let t1 = v@.subrange(0, i + 1);
            assert(t1.drop_last() =~= t);
            assert(t1.last() == v@[i as int]);
            lemma_dedup_contains(t, x);
        }
        if !dup {
            out.push(x);
        }
        i = i + 1;
    }
    proof {
        assert(v@.subrange(0, v@.len() as int) =~= v@);
    }
    *v = out;
}

/// How many of the first `n` characters of `s` equal `c`.
pub open spec fn count_upto(s: Seq<char>, c: char, n: int) -> int
    decreases n,
{
    if n <= 0 {
        0
    } else {
        count_upto(s, c, n - 1) + if s[n - 1] == c {
            1int
        } else {
            0int
        }
    }
}

/// An occurrence count is never negative.
pub proof fn lemma_count_upto_nonneg(s: Seq<char>, c: char, n: int)
    ensures
        count_upto(s, c, n) >= 0,
    decreases n,
{
    if n > 0 {
        lemma_count_upto_nonneg(s, c, n - 1);
    }
}

/// How many times each letter may still be matched: a small association map
/// from characters to counts, one entry per character.
pub struct LetterCounts {
    entries: Vec<(char, i32)>,
}

impl LetterCounts {
    /// At most one entry per character.
    pub closed spec fn wf(&self) -> bool {
        forall|i: int, j: int|
            0 <= i < j < self.entries@.len() ==> self.entries@[i].0 != self.entries@[j].0
    }

    /// The count recorded for `c`, if any.
    pub closed spec fn spec_get(&self, c: char) -> Option<i32> {
        if exists|i: int| 0 <= i < self.entries@.len() && self.entries@[i].0 == c {
            let i = choose|i: int| 0 <= i < self.entries@.len() && self.entries@[i].0 == c;
            Some(self.entries@[i].1)
        } else {
            None
        }
    }

    /// Any index holding `c` determines the recorded count.
    proof fn lemma_entry_determines(&self, c: char, i: int)
        requires
            self.wf(),
            0 <= i < self.entries@.len(),
            self.entries@[i].0 == c,
        ensures
            self.spec_get(c) == Some(self.entries@[i].1),
    {
        let k = choose|k: int| 0 <= k < self.entries@.len() && self.entries@[k].0 == c;
        if k < i {
            assert(self.entries@[k].0 != self.entries@[i].0);
        } else if i < k {
            assert(self.entries@[i].0 != self.entries@[k].0);
        }
    }

    /// An empty map.
    pub fn new() -> (r: Self)
        ensures
            r.wf(),
            forall|c: char| r.spec_get(c) is None,
    {
        LetterCounts { entries: Vec::new() }
    }

    /// The count recorded for `c`.
    pub fn get(&self, c: char) -> (r: Option<i32>)
        requires
            self.wf(),
        ensures
            r == self.spec_get(c),
    {
        let mut i: usize = 0;
        while i < self.entries.len()
            invariant
                i <= self.entries@.len(),
                self.wf(),
                forall|j: int| 0 <= j < i ==> self.entries@[j].0 != c,
            decreases self.entries@.len() - i,
        {
            let entry = &self.entries[i];
            if entry.0 == c {
                proof {
                    self.lemma_entry_determines(c, i as int);
                }
                return Some(entry.1);
            }
            i = i + 1;
        }
        None
    }

    /// Records count `v` for `c`, replacing any earlier count; every other
    /// character's count is kept.
    pub fn insert(&mut self, c: char, v: i32)
        requires
            old(self).wf(),
        ensures
            final(self).wf(),
            final(self).spec_get(c) == Some(v),
            forall|d: char| d != c ==> final(self).spec_get(d) == old(self).spec_get(d),
    {
        let ghost olds = self.entries@;
        let mut i: usize = 0;
        while i < self.entries.len()
            invariant
                i <= self.entries@.len(),
                self.wf(),
                self.entries@ == olds,
                olds == old(self).entries@,
                forall|j: int| 0 <= j < i ==> self.entries@[j].0 != c,
            decreases self.entries@.len() - i,
        {
            if self.entries[i].0 == c {
                self.entries[i] = (c, v);
                proof {
                    assert(self.entries@ == olds.update(i as int, (c, v)));
                    assert forall|x: int, y: int|
                        0 <= x < y < self.entries@.len() implies self.entries@[x].0
                        != self.entries@[y].0 by {
                        assert(olds[x].0 != olds[y].0);
                    }
                    self.lemma_entry_determines(c, i as int);
                    assert forall|d: char| d != c implies self.spec_get(d) == old(
                        self,
                    ).spec_get(d) by {
                        if exists|j: int| 0 <= j < olds.len() && olds[j].0 == d {
                            let j = choose|j: int| 0 <= j < olds.len() && olds[j].0 == d;
                            assert(self.entries@[j].0 == d);
                            old(self).lemma_entry_determines(d, j);
                            self.lemma_entry_determines(d, j);
                        } else {
                            assert(forall|j: int|
                                0 <= j < self.entries@.len() ==> self.entries@[j].0 == olds[j].0);
                        }
                    }
                }
                return;
            }
            i = i + 1;
        }
        self.entries.push((c, v));
        proof {
            assert(self.entries@ == olds.push((c, v)));
            assert forall|x: int, y: int|
                0 <= x < y < self.entries@.len() implies self.entries@[x].0
                != self.entries@[y].0 by {
                if y < olds.len() {
                    assert(olds[x].0 != olds[y].0);
                }
            }
            self.lemma_entry_determines(c, olds.len() as int);
            assert forall|d: char| d != c implies self.spec_get(d) == old(self).spec_get(
                d,
            ) by {
                if exists|j: int| 0 <= j < olds.len() && olds[j].0 == d {
                    let j = choose|j: int| 0 <= j < olds.len() && olds[j].0 == d;
                    assert(self.entries@[j].0 == d);
                    old(self).lemma_entry_determines(d, j);
                    self.lemma_entry_determines(d, j);
                } else {
                    if exists|j: int| 0 <= j < self.entries@.len() && self.entries@[j].0 == d {
                        let j = choose|j: int|
                            0 <= j < self.entries@.len() && self.entries@[j].0 == d;
                        assert(j < olds.len() && olds[j].0 == d);
                    }
                }
            }
        }
    }
}

/// Finds the position of the `k`-th occurrence of `elem` in `vec`, where `k`
/// is the count the map holds for `elem`, and decrements that count.  With
/// no recorded count, a non-positive count, or fewer than `k` occurrences,
/// nothing is found and the map is left unchanged.
pub fn find_element(vec: &Vec<char>, elem: char, map: &mut LetterCounts) -> (r: Option<usize>)
    requires
        old(map).wf(),
    ensures
        final(map).wf(),
        match old(map).spec_get(elem) {
            None => r == None::<usize> && *final(map) == *old(map),
            Some(k) => match r {
                Some(i) => {
                    &&& 0 <= i < vec@.len()
                    &&& vec@[i as int] == elem
                    &&& count_upto(vec@, elem, i as int) == k - 1
                    &&& final(map).spec_get(elem) == Some((k - 1) as i32)
                    &&& forall|d: char|
                        d != elem ==> final(map).spec_get(d) == old(map).spec_get(d)
                },
                None => {
                    &&& *final(map) == *old(map)
                    &&& forall|i: int|
                        0 <= i < vec@.len() && vec@[i] == elem ==> count_upto(vec@, elem, i) != k
                            - 1
                },
            },
        },
{
    let k = match map.get(elem) {
        Some(k) => k,
        None => {
            return None;
        },
    };
    if k <= 0 {
        proof {
            assert forall|i: int|
                0 <= i < vec@.len() && vec@[i] == elem implies count_upto(vec@, elem, i) != k
                - 1 by {
                lemma_count_upto_nonneg(vec@, elem, i);
            }
        }
        return None;
    }
    let target: usize = k as usize;
    let mut count: usize = 0;
    let mut i: usize = 0;
    while i < vec.len()
        invariant
            map.wf(),
            *map == *old(map),
            map.spec_get(elem) == Some(k),
            0 < target <= i32::MAX,
            k == target as i32,
            i <= vec@.len(),
            count == count_upto(vec@, elem, i as int),
            count < target,
            forall|j: int|
                0 <= j < i && vec@[j] == elem ==> count_upto(vec@, elem, j) != k - 1,
        decreases vec@.len() - i,
    {
        let c = vec[i];
        if c == elem {
            count = count + 1;
            if count == target {
                map.insert(elem, k - 1);
                return Some(i);
            }
        }
        i = i + 1;
    }
    None
}

} // verus!
