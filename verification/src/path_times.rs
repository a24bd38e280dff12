//! A small map from path to instant, kept as an association list with
//! distinct keys and viewed as a `Map`. It backs both the file-metadata
//! record of the session state (path to last-modified time) and the
//! debouncer (path to last accepted event).

use vstd::prelude::*;

verus! {

/// The `Map` a pair list denotes: later pairs shadow earlier ones.
pub open spec fn map_of_pairs(s: Seq<(String, u64)>) -> Map<Seq<char>, u64>
    decreases s.len(),
{
    if s.len() == 0 {
        Map::empty()
    } else {
        map_of_pairs(s.drop_last()).insert(s.last().0@, s.last().1)
    }
}

proof fn lemma_map_of_pairs_domain(s: Seq<(String, u64)>, key: Seq<char>)
    ensures
        map_of_pairs(s).contains_key(key) <==> exists|j: int|
            0 <= j < s.len() && (#[trigger] s[j].0)@ == key,
    decreases s.len(),
{
    if s.len() > 0 {
        lemma_map_of_pairs_domain(s.drop_last(), key);
        if map_of_pairs(s).contains_key(key) {
            if s.last().0@ != key {
                let j = choose|j: int| 0 <= j < s.drop_last().len() && (#[trigger] s.drop_last()[j].0)@ == key;
                assert(s[j].0@ == key);
            }
        } else {
            assert forall|j: int| 0 <= j < s.len() implies (#[trigger] s[j].0)@ != key by {
                if j < s.len() - 1 {
                    assert(s.drop_last()[j] == s[j]);
                }
            }
        }
    }
}

proof fn lemma_map_of_pairs_at(s: Seq<(String, u64)>, i: int)
    requires
        0 <= i < s.len(),
        forall|j: int| i < j < s.len() ==> (#[trigger] s[j].0)@ != s[i].0@,
    ensures
        map_of_pairs(s).contains_key(s[i].0@),
        map_of_pairs(s)[s[i].0@] == s[i].1,
    decreases s.len(),
{
    if i == s.len() - 1 {
    } else {
        assert forall|j: int| i < j < s.drop_last().len() implies (#[trigger] s.drop_last()[j].0)@
            != s.drop_last()[i].0@ by {
            assert(s.drop_last()[j] == s[j]);
        }
        lemma_map_of_pairs_at(s.drop_last(), i);
    }
}

/// A map from path to a time value, as an association list.
pub struct PathTimes {
    pairs: Vec<(String, u64)>,
}

impl View for PathTimes {
    type V = Map<Seq<char>, u64>;

    closed spec fn view(&self) -> Map<Seq<char>, u64> {
        map_of_pairs(self.pairs@)
    }
}

impl PathTimes {
    /// Keys are distinct, so each lookup has one answer.
    pub closed spec fn wf(&self) -> bool {
        forall|i: int, j: int|
            0 <= i < j < self.pairs@.len() ==> (#[trigger] self.pairs@[i].0)@ != (
            #[trigger] self.pairs@[j].0)@
    }

    /// An empty record.
    pub fn new() -> (r: PathTimes)
        ensures
            r.wf(),
            r@ == Map::<Seq<char>, u64>::empty(),
    {
        let r = PathTimes { pairs: Vec::new() };
        proof {
            assert(r@ =~= Map::<Seq<char>, u64>::empty());
        }
        r
    }

    /// The time recorded for `path`, if one is.
    pub fn lookup(&self, path: &str) -> (r: Option<u64>)
        requires
            self.wf(),
        ensures
            r == if self@.contains_key(path@) {
                Some(self@[path@])
            } else {
                None::<u64>
            },
    {
        let n = self.pairs.len();
        let mut i: usize = 0;
        while i < n
            invariant
                i <= n,
                n == self.pairs.len(),
                self.wf(),
                forall|j: int| 0 <= j < i ==> (#[trigger] self.pairs@[j].0)@ != path@,
            decreases n - i,
        {
            if compare_key(&self.pairs[i].0, path) {
                proof {
                    lemma_map_of_pairs_at(self.pairs@, i as int);
                }
                return Some(self.pairs[i].1);
            }
            i += 1;
        }
        proof {
            lemma_map_of_pairs_domain(self.pairs@, path@);
        }
        None
    }

    /// Records `value` for `path`, replacing any earlier record.
    pub fn record(&mut self, path: String, value: u64)
        requires
            old(self).wf(),
        ensures
            final(self).wf(),
            final(self)@ == old(self)@.insert(path@, value),
    {
        let n = self.pairs.len();
        let mut i: usize = 0;
        while i < n
            invariant
                i <= n,
                n == self.pairs.len(),
                self == old(self),
                old(self).wf(),
                forall|j: int| 0 <= j < i ==> (#[trigger] self.pairs@[j].0)@ != path@,
            decreases n - i,
        {
            if compare_key(&self.pairs[i].0, path.as_str()) {
                let ghost before = self.pairs@;
                self.pairs.set(i, (path, value));
                proof {
                    lemma_map_of_pairs_update(before, i as int, self.pairs@[i as int]);
                    assert forall|i2: int, j2: int|
                        0 <= i2 < j2 < self.pairs@.len() implies (#[trigger] self.pairs@[i2].0)@
                        != (#[trigger] self.pairs@[j2].0)@ by {
                        assert(before[i2].0@ != before[j2].0@);
                        assert(self.pairs@[i2].0@ == before[i2].0@);
                        assert(self.pairs@[j2].0@ == before[j2].0@);
                    }
                }
                return ;
            }
            i += 1;
        }
        let ghost before = self.pairs@;
        self.pairs.push((path, value));
        proof {
            assert(self.pairs@.drop_last() =~= before);
            assert forall|i2: int, j2: int|
                0 <= i2 < j2 < self.pairs@.len() implies (#[trigger] self.pairs@[i2].0)@ != (
            #[trigger] self.pairs@[j2].0)@ by {
                if j2 < before.len() {
                    assert(self.pairs@[i2] == before[i2]);
                    assert(self.pairs@[j2] == before[j2]);
                } else {
                    assert(self.pairs@[i2] == before[i2]);
                    assert(self.pairs@[j2].0@ == path@);
                }
            }
        }
    }
}

fn compare_key(a: &String, b: &str) -> (r: bool)
    ensures
        r == (a@ == b@),
{
    let n = a.as_str().unicode_len();
    let m = b.unicode_len();
    if n != m {
        proof {
            assert(a@ != b@) by {
                if a@ == b@ {
                    assert(a@.len() == b@.len());
                }
            }
        }
        return false;
    }
    let mut i: usize = 0;
    while i < n
        invariant
            i <= n,
            n == a@.len(),
            n == b@.len(),
            forall|k: int| 0 <= k < i ==> a@[k] == b@[k],
        decreases n - i,
    {
        if a.as_str().get_char(i) != b.get_char(i) {
            return false;
        }
        i += 1;
    }
    proof {
        assert(a@ =~= b@);
    }
    true
}

proof fn lemma_map_of_pairs_update(s: Seq<(String, u64)>, i: int, p: (String, u64))
    requires
        0 <= i < s.len(),
        forall|i2: int, j2: int|
            0 <= i2 < j2 < s.len() ==> (#[trigger] s[i2].0)@ != (#[trigger] s[j2].0)@,
        p.0@ == s[i].0@,
    ensures
        map_of_pairs(s.update(i, p)) == map_of_pairs(s).insert(p.0@, p.1),
    decreases s.len(),
{
    let t = s.update(i, p);
    if i == s.len() - 1 {
        assert(t.drop_last() =~= s.drop_last());
        assert(map_of_pairs(t) == map_of_pairs(s.drop_last()).insert(p.0@, p.1));
        assert(map_of_pairs(s).insert(p.0@, p.1) =~= map_of_pairs(s.drop_last()).insert(
            p.0@,
            p.1,
        ));
    } else {
        assert(t.drop_last() =~= s.drop_last().update(i, p));
        assert forall|i2: int, j2: int|
            0 <= i2 < j2 < s.drop_last().len() implies (#[trigger] s.drop_last()[i2].0)@ != (
        #[trigger] s.drop_last()[j2].0)@ by {
            assert(s.drop_last()[i2] == s[i2]);
            assert(s.drop_last()[j2] == s[j2]);
        }
        assert(s.drop_last()[i] == s[i]);
        lemma_map_of_pairs_update(s.drop_last(), i, p);
        assert(t.last() == s.last());
        assert(map_of_pairs(t) == map_of_pairs(s.drop_last()).insert(p.0@, p.1).insert(
            s.last().0@,
            s.last().1,
        ));
        assert(s.last().0@ != p.0@) by {
            assert(s[i].0@ == p.0@);
        }
        assert(map_of_pairs(s.drop_last()).insert(p.0@, p.1).insert(s.last().0@, s.last().1)
            =~= map_of_pairs(s.drop_last()).insert(s.last().0@, s.last().1).insert(p.0@, p.1));
    }
}

} // verus!
