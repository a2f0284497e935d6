//! A small mapping from names to values, both borrowed string slices, in which
//! each name occurs once and the value written last is the one kept.

use vstd::prelude::*;
use vstd::string::StringSliceAdditionalSpecFns;

verus! {

/// The bytes of a name and of its value.
pub open spec fn pair_bytes(e: (&str, &str)) -> (Seq<u8>, Seq<u8>) {
    (e.0.spec_bytes(), e.1.spec_bytes())
}

/// The bytes of each pair of `v`, in the same order.
pub open spec fn pairs_of(v: Seq<(&str, &str)>) -> Seq<(Seq<u8>, Seq<u8>)> {
    v.map_values(|e: (&str, &str)| pair_bytes(e))
}

/// Whether some pair of `e` has the name `k`.
pub open spec fn has_name(e: Seq<(Seq<u8>, Seq<u8>)>, k: Seq<u8>) -> bool {
    exists|i: int| 0 <= i < e.len() && (#[trigger] e[i]).0 == k
}

/// The position of a pair of `e` that has the name `k`.
pub open spec fn position_of(e: Seq<(Seq<u8>, Seq<u8>)>, k: Seq<u8>) -> int {
    choose|i: int| 0 <= i < e.len() && (#[trigger] e[i]).0 == k
}

/// Whether no two pairs of `e` have the same name.
pub open spec fn distinct_names(e: Seq<(Seq<u8>, Seq<u8>)>) -> bool {
    forall|i: int, j: int| 0 <= i < j < e.len() ==> (#[trigger] e[i]).0 != (#[trigger] e[j]).0
}

/// The mapping that the pairs of `e` stand for.
pub open spec fn map_of(e: Seq<(Seq<u8>, Seq<u8>)>) -> Map<Seq<u8>, Seq<u8>> {
    Map::new(|k: Seq<u8>| has_name(e, k), |k: Seq<u8>| e[position_of(e, k)].1)
}

/// With distinct names, the pair at position `i` gives the value of its name.
pub proof fn lemma_map_of_at(e: Seq<(Seq<u8>, Seq<u8>)>, i: int)
    requires
        distinct_names(e),
        0 <= i < e.len(),
    ensures
        map_of(e).contains_key(e[i].0),
        map_of(e)[e[i].0] == e[i].1,
{
    let k = e[i].0;
    let p = position_of(e, k);
    assert(0 <= p < e.len() && e[p].0 == k);
    if p < i {
        assert(e[p].0 != e[i].0);
    } else if i < p {
        assert(e[i].0 != e[p].0);
    }
}

/// Appending a pair with a new name inserts it into the mapping.
pub proof fn lemma_map_of_push(e: Seq<(Seq<u8>, Seq<u8>)>, k: Seq<u8>, v: Seq<u8>)
    requires
        distinct_names(e),
        !has_name(e, k),
    ensures
        distinct_names(e.push((k, v))),
        map_of(e.push((k, v))) == map_of(e).insert(k, v),
{
    let f = e.push((k, v));
    assert forall|i: int, j: int| 0 <= i < j < f.len() implies (#[trigger] f[i]).0 != (
    #[trigger] f[j]).0 by {
        if j < e.len() {
            assert(e[i].0 != e[j].0);
        } else {
            assert(e[i].0 != k);
        }
    }
    assert forall|x: Seq<u8>| has_name(f, x) <==> (x == k || has_name(e, x)) by {
        if has_name(f, x) {
            let i = choose|i: int| 0 <= i < f.len() && (#[trigger] f[i]).0 == x;
            if i < e.len() {
                assert(e[i].0 == x);
            }
        }
        if x == k {
            assert(f[e.len() as int].0 == x);
        }
        if has_name(e, x) {
            let i = choose|i: int| 0 <= i < e.len() && (#[trigger] e[i]).0 == x;
            assert(f[i].0 == x);
        }
    }
    assert forall|x: Seq<u8>| has_name(f, x) implies map_of(f)[x] == map_of(e).insert(k, v)[x] by {
        let p = position_of(f, x);
        assert(0 <= p < f.len() && f[p].0 == x);
        lemma_map_of_at(f, p);
        if x != k {
            assert(p < e.len());
            lemma_map_of_at(e, p);
        } else {
            lemma_map_of_at(f, e.len() as int);
        }
    }
    assert(map_of(f) =~= map_of(e).insert(k, v));
}

/// Replacing the value of the pair at position `i` updates the mapping at
/// that pair's name.
pub proof fn lemma_map_of_update(e: Seq<(Seq<u8>, Seq<u8>)>, i: int, k: Seq<u8>, v: Seq<u8>)
    requires
        distinct_names(e),
        0 <= i < e.len(),
        e[i].0 == k,
    ensures
        distinct_names(e.update(i, (k, v))),
        map_of(e.update(i, (k, v))) == map_of(e).insert(k, v),
{
    let f = e.update(i, (k, v));
    assert forall|a: int, b: int| 0 <= a < b < f.len() implies (#[trigger] f[a]).0 != (
    #[trigger] f[b]).0 by {
        assert(f[a].0 == e[a].0 && f[b].0 == e[b].0);
        assert(e[a].0 != e[b].0);
    }
    assert forall|x: Seq<u8>| has_name(f, x) <==> (x == k || has_name(e, x)) by {
        if has_name(f, x) {
            let p = choose|p: int| 0 <= p < f.len() && (#[trigger] f[p]).0 == x;
            assert(e[p].0 == x);
        }
        if x == k {
            assert(f[i].0 == x);
        }
        if has_name(e, x) {
            let p = choose|p: int| 0 <= p < e.len() && (#[trigger] e[p]).0 == x;
            assert(f[p].0 == x);
        }
    }
    assert forall|x: Seq<u8>| has_name(f, x) implies map_of(f)[x] == map_of(e).insert(k, v)[x] by {
        let p = position_of(f, x);
        assert(0 <= p < f.len() && f[p].0 == x);
        lemma_map_of_at(f, p);
        if x != k {
            assert(e[p].0 == x);
            lemma_map_of_at(e, p);
        } else {
            lemma_map_of_at(f, i);
        }
    }
    assert(map_of(f) =~= map_of(e).insert(k, v));
}

/// With distinct names, the mapping has as many names as there are pairs.
pub proof fn lemma_map_of_len(e: Seq<(Seq<u8>, Seq<u8>)>)
    requires
        distinct_names(e),
    ensures
        map_of(e).dom().finite(),
        map_of(e).len() == e.len(),
    decreases e.len(),
{
    if e.len() == 0 {
        assert(map_of(e) =~= Map::<Seq<u8>, Seq<u8>>::empty());
    } else {
        let front = e.drop_last();
        let last = e.last();
        assert forall|i: int, j: int| 0 <= i < j < front.len() implies (#[trigger] front[i]).0 != (
        #[trigger] front[j]).0 by {
            assert(e[i].0 != e[j].0);
        }
        if has_name(front, last.0) {
            let i = choose|i: int| 0 <= i < front.len() && (#[trigger] front[i]).0 == last.0;
            assert(e[i].0 != e[e.len() - 1].0);
        }
        lemma_map_of_len(front);
        lemma_map_of_push(front, last.0, last.1);
        assert(front.push((last.0, last.1)) =~= e);
        assert(map_of(e).dom() =~= map_of(front).dom().insert(last.0));
    }
}

/// A mapping from names to values in which each name occurs once.
pub struct StrMap<'a> {
    entries: Vec<(&'a str, &'a str)>,
}

impl<'a> View for StrMap<'a> {
    type V = Map<Seq<u8>, Seq<u8>>;

    /// The mapping from each name's bytes to the bytes of its value.
    closed spec fn view(&self) -> Map<Seq<u8>, Seq<u8>> {
        map_of(self.pairs())
    }
}

impl<'a> StrMap<'a> {
    /// The pairs in the order in which their names first came.
    pub closed spec fn pairs(&self) -> Seq<(Seq<u8>, Seq<u8>)> {
        pairs_of(self.entries@)
    }

    /// No name occurs twice.
    #[verifier::type_invariant]
    pub closed spec fn wf(&self) -> bool {
        distinct_names(self.pairs())
    }

    /// An empty mapping.
    pub fn new() -> (r: Self)
        ensures
            r@ == Map::<Seq<u8>, Seq<u8>>::empty(),
            r.wf(),
    {
        let r = StrMap { entries: Vec::new() };
        assert(r@ =~= Map::<Seq<u8>, Seq<u8>>::empty());
        r
    }

    /// How many names the mapping holds.
    pub fn len(&self) -> (n: usize)
        ensures
            self@.dom().finite(),
            n == self@.len(),
    {
        proof {
            use_type_invariant(self);
            lemma_map_of_len(self.pairs());
        }
        self.entries.len()
    }

    /// Whether the mapping holds no name.
    pub fn is_empty(&self) -> (b: bool)
        ensures
            b == (self@ == Map::<Seq<u8>, Seq<u8>>::empty()),
    {
        proof {
            use_type_invariant(self);
            lemma_map_of_len(self.pairs());
            if self.entries@.len() > 0 {
                lemma_map_of_at(self.pairs(), 0);
            } else {
                assert(self@ =~= Map::<Seq<u8>, Seq<u8>>::empty());
            }
        }
        self.entries.len() == 0
    }

    /// The position of the pair whose name has the bytes `name`.
    fn position(&self, name: &[u8]) -> (r: Option<usize>)
        ensures
            match r {
                Some(i) => i < self.pairs().len() && self.pairs()[i as int].0 == name@,
                None => !has_name(self.pairs(), name@),
            },
    {
        let mut i: usize = 0;
        while i < self.entries.len()
            invariant
                i <= self.entries@.len(),
                forall|j: int| 0 <= j < i ==> (#[trigger] self.pairs()[j]).0 != name@,
            decreases self.entries@.len() - i,
        {
            if bytes_eq(self.entries[i].0.as_bytes(), name) {
                return Some(i);
            }
            i += 1;
        }
        None
    }

    /// The value of `name`, if the mapping holds it.
    pub fn get(&self, name: &str) -> (r: Option<&&'a str>)
        ensures
            match r {
                Some(v) => self@.contains_key(name.spec_bytes()) && (*v).spec_bytes()
                    == self@[name.spec_bytes()],
                None => !self@.contains_key(name.spec_bytes()),
            },
    {
        self.get_bytes(name.as_bytes())
    }

    /// The value of the name whose bytes are `name`, if the mapping holds it.
    pub fn get_bytes(&self, name: &[u8]) -> (r: Option<&&'a str>)
        ensures
            match r {
                Some(v) => self@.contains_key(name@) && (*v).spec_bytes() == self@[name@],
                None => !self@.contains_key(name@),
            },
    {
        proof {
            use_type_invariant(self);
        }
        match self.position(name) {
            Some(i) => {
                proof {
                    lemma_map_of_at(self.pairs(), i as int);
                }
                Some(&self.entries[i].1)
            },
            None => None,
        }
    }

    /// Writes `value` under `name`, and returns the value that `name` had.
    pub fn insert(&mut self, name: &'a str, value: &'a str) -> (r: Option<&'a str>)
        ensures
            final(self)@ == old(self)@.insert(name.spec_bytes(), value.spec_bytes()),
            match r {
                Some(v) => old(self)@.contains_key(name.spec_bytes()) && v.spec_bytes() == old(
                    self,
                )@[name.spec_bytes()],
                None => !old(self)@.contains_key(name.spec_bytes()),
            },
            final(self).wf(),
    {
        proof {
            use_type_invariant(&*self);
        }
        match self.position(name.as_bytes()) {
            Some(i) => {
                let before: &'a str = self.entries[i].1;
                proof {
                    lemma_map_of_at(self.pairs(), i as int);
                    lemma_map_of_update(
                        self.pairs(),
                        i as int,
                        name.spec_bytes(),
                        value.spec_bytes(),
                    );
                }
                let ghost was = self.pairs();
                let mut entries: Vec<(&'a str, &'a str)> = Vec::new();
                core::mem::swap(&mut self.entries, &mut entries);
                entries[i] = (name, value);
                assert(pairs_of(entries@) =~= was.update(
                    i as int,
                    (name.spec_bytes(), value.spec_bytes()),
                ));
                self.entries = entries;
                Some(before)
            },
            None => {
                proof {
                    lemma_map_of_push(self.pairs(), name.spec_bytes(), value.spec_bytes());
                }
                let ghost was = self.pairs();
                let mut entries: Vec<(&'a str, &'a str)> = Vec::new();
                core::mem::swap(&mut self.entries, &mut entries);
                entries.push((name, value));
                assert(pairs_of(entries@) =~= was.push((name.spec_bytes(), value.spec_bytes())));
                self.entries = entries;
                None
            },
        }
    }
}

/// Whether two byte slices hold the same bytes.
pub fn bytes_eq(a: &[u8], b: &[u8]) -> (r: bool)
    ensures
        r == (a@ == b@),
{
    if a.len() != b.len() {
        return false;
    }
    let mut i: usize = 0;
    while i < a.len()
        invariant
            a@.len() == b@.len(),
            i <= a@.len(),
            forall|j: int| 0 <= j < i ==> a@[j] == b@[j],
        decreases a@.len() - i,
    {
        if a[i] != b[i] {
            return false;
        }
        i += 1;
    }
    assert(a@ =~= b@);
    true
}

} // verus!
