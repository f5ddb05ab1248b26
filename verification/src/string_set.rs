use vstd::prelude::*;

use crate::text::chars_of;

verus! {

/// Lexicographic order of character sequences, character by character by
/// code point. On strings it is the order of `String`'s `Ord`, which
/// compares the UTF-8 bytes.
pub open spec fn seq_less(a: Seq<char>, b: Seq<char>) -> bool
    decreases a.len(),
{
    if a.len() == 0 {
        b.len() > 0
    } else if b.len() == 0 {
        false
    } else if a[0] < b[0] {
        true
    } else if a[0] == b[0] {
        seq_less(a.drop_first(), b.drop_first())
    } else {
        false
    }
}

/// Every element comes strictly before every later one.
pub open spec fn strictly_sorted(s: Seq<Seq<char>>) -> bool {
    forall|i: int, j: int| 0 <= i < j < s.len() ==> seq_less(#[trigger] s[i], #[trigger] s[j])
}

/// No sequence comes before itself.
pub proof fn lemma_less_irreflexive(a: Seq<char>)
    ensures
        !seq_less(a, a),
    decreases a.len(),
{
    if a.len() > 0 {
        lemma_less_irreflexive(a.drop_first());
    }
}

/// Two different sequences are ordered one way or the other, never both.
pub proof fn lemma_less_total(a: Seq<char>, b: Seq<char>)
    ensures
        a != b ==> (seq_less(a, b) || seq_less(b, a)),
        !(seq_less(a, b) && seq_less(b, a)),
    decreases a.len(),
{
    if a.len() > 0 && b.len() > 0 {
        lemma_less_total(a.drop_first(), b.drop_first());
        if a[0] == b[0] && a.drop_first() == b.drop_first() {
            assert forall|k: int| 0 <= k < a.len() implies a[k] == b[k] by {
                if k > 0 {
                    assert(a[k] == a.drop_first()[k - 1]);
                    assert(b[k] == b.drop_first()[k - 1]);
                }
            }
            assert(a =~= b);
        }
    } else if a.len() == 0 && b.len() == 0 {
        assert(a =~= b);
    }
}

/// The order is transitive.
pub proof fn lemma_less_transitive(a: Seq<char>, b: Seq<char>, c: Seq<char>)
    requires
        seq_less(a, b),
        seq_less(b, c),
    ensures
        seq_less(a, c),
    decreases a.len(),
{
    if a.len() > 0 && b.len() > 0 && c.len() > 0 {
        if a[0] == b[0] && b[0] == c[0] {
            lemma_less_transitive(a.drop_first(), b.drop_first(), c.drop_first());
        }
    }
}

/// Comparing after a common prefix is comparing the whole.
proof fn lemma_less_skip(a: Seq<char>, b: Seq<char>, i: int)
    requires
        0 <= i <= a.len(),
        i <= b.len(),
        a.take(i) =~= b.take(i),
    ensures
        seq_less(a, b) == seq_less(a.skip(i), b.skip(i)),
    decreases i,
{
    if i > 0 {
        assert(a[0] == a.take(i)[0]);
        assert(b[0] == b.take(i)[0]);
        assert(a.drop_first().take(i - 1) =~= a.take(i).drop_first());
        assert(b.drop_first().take(i - 1) =~= b.take(i).drop_first());
        lemma_less_skip(a.drop_first(), b.drop_first(), i - 1);
        assert(a.drop_first().skip(i - 1) =~= a.skip(i));
        assert(b.drop_first().skip(i - 1) =~= b.skip(i));
    } else {
        assert(a.skip(0) =~= a);
        assert(b.skip(0) =~= b);
    }
}

/// `a` comes before `b` in the order of `String`.
pub fn str_less(a: &str, b: &str) -> (r: bool)
    ensures
        r == seq_less(a@, b@),
{
    let x = chars_of(a);
    let y = chars_of(b);
    let mut i: usize = 0;
    while i < x.len() && i < y.len() && x[i] == y[i]
        invariant
            x@ == a@,
            y@ == b@,
            i <= x.len(),
            i <= y.len(),
            x@.take(i as int) =~= y@.take(i as int),
        decreases x.len() - i,
    {
        assert(x@.take(i + 1) =~= x@.take(i as int).push(x@[i as int]));
        assert(y@.take(i + 1) =~= y@.take(i as int).push(y@[i as int]));
        i = i + 1;
    }
    proof {
        lemma_less_skip(x@, y@, i as int);
    }
    if i == x.len() {
        i < y.len()
    } else if i == y.len() {
        false
    } else {
        assert(x@.skip(i as int)[0] == x@[i as int]);
        assert(y@.skip(i as int)[0] == y@[i as int]);
        x[i] < y[i]
    }
}

/// `a` and `b` hold the same characters.
pub fn str_equal(a: &str, b: &str) -> (r: bool)
    ensures
        r == (a@ == b@),
{
    let x = chars_of(a);
    let y = chars_of(b);
    if x.len() != y.len() {
        return false;
    }
    let mut i: usize = 0;
    while i < x.len()
        invariant
            x@ == a@,
            y@ == b@,
            x@.len() == y@.len(),
            i <= x.len(),
            forall|k: int| 0 <= k < i ==> x@[k] == y@[k],
        decreases x.len() - i,
    {
        if x[i] != y[i] {
            return false;
        }
        i = i + 1;
    }
    assert(x@ =~= y@);
    true
}

/// A set of strings kept in the order of `String`, as a `BTreeSet<String>`
/// keeps and hands out its elements. It is held as a sorted `Vec` because
/// vstd's contracts for `BTreeSet` speak only of keys whose ordering obeys
/// vstd's comparison specification, which vstd does not give `String`: with
/// a `BTreeSet<String>`, not even the length after one `insert` follows.
#[derive(Debug, PartialEq, Eq)]
pub struct StringSet {
    items: Vec<String>,
}

impl View for StringSet {
    type V = Set<Seq<char>>;

    open spec fn view(&self) -> Set<Seq<char>> {
        self.elements().to_set()
    }
}

impl StringSet {
    #[verifier::type_invariant]
    spec fn inv(self) -> bool {
        strictly_sorted(self.items@.map_values(|s: String| s@))
    }

    /// The elements in increasing order.
    pub closed spec fn elements(self) -> Seq<Seq<char>> {
        self.items@.map_values(|s: String| s@)
    }

    /// The empty set.
    pub fn new() -> (r: StringSet)
        ensures
            r@ == Set::<Seq<char>>::empty(),
            r.elements() == Seq::<Seq<char>>::empty(),
    {
        let r = StringSet { items: Vec::new() };
        assert(r.elements() =~= Seq::<Seq<char>>::empty());
        r
    }

    /// The number of elements.
    pub fn len(&self) -> (n: usize)
        ensures
            n == self.elements().len(),
    {
        self.items.len()
    }

    /// `true` when the set has no element.
    pub fn is_empty(&self) -> (b: bool)
        ensures
            b == (self.elements().len() == 0),
            b == (self@ == Set::<Seq<char>>::empty()),
    {
        proof {
            if self.elements().len() > 0 {
                assert(self@.contains(self.elements()[0]));
            } else {
                assert(self@ =~= Set::<Seq<char>>::empty());
            }
        }
        self.items.len() == 0
    }

    /// The elements in increasing order, as strings.
    pub fn to_vec(&self) -> (v: Vec<String>)
        ensures
            v@.map_values(|s: String| s@) == self.elements(),
            strictly_sorted(self.elements()),
    {
        proof {
            use_type_invariant(self);
        }
        let mut v: Vec<String> = Vec::new();
        let mut i: usize = 0;
        while i < self.items.len()
            invariant
                i <= self.items@.len(),
                v@.map_values(|s: String| s@) =~= self.elements().take(i as int),
            decreases self.items@.len() - i,
        {
            v.push(self.items[i].clone());
            assert(self.elements().take(i + 1) =~= self.elements().take(i as int).push(
                self.items@[i as int]@,
            ));
            i = i + 1;
        }
        assert(self.elements().take(i as int) =~= self.elements());
        v
    }

    /// `true` when `s` is an element.
    pub fn contains(&self, s: &str) -> (b: bool)
        ensures
            b == self@.contains(s@),
    {
        let mut i: usize = 0;
        while i < self.items.len()
            invariant
                i <= self.items@.len(),
                forall|j: int| 0 <= j < i ==> self.elements()[j] != s@,
            decreases self.items@.len() - i,
        {
            if str_equal(self.items[i].as_str(), s) {
                assert(self.elements()[i as int] == s@);
                assert(self@.contains(self.elements()[i as int]));
                return true;
            }
            i = i + 1;
        }
        proof {
            if self@.contains(s@) {
                let k = self.elements().index_of(s@);
                assert(self.elements()[k] == s@);
            }
        }
        false
    }

    /// Adds `s`; nothing changes when it is already there.
    pub fn insert(&mut self, s: String)
        ensures
            final(self)@ == old(self)@.insert(s@),
    {
        proof {
            use_type_invariant(&*self);
        }
        let ghost old_elems = self.elements();
        let mut i: usize = 0;
        while i < self.items.len() && str_less(self.items[i].as_str(), s.as_str())
            invariant
                i <= self.items@.len(),
                self.elements() == old_elems,
                strictly_sorted(old_elems),
                forall|j: int| 0 <= j < i ==> seq_less(#[trigger] old_elems[j], s@),
            decreases self.items@.len() - i,
        {
            i = i + 1;
        }
        if i < self.items.len() && str_equal(self.items[i].as_str(), s.as_str()) {
            proof {
                assert(old_elems[i as int] == s@);
                assert(old_elems.to_set().insert(s@) =~= old_elems.to_set());
            }
            return;
        }
        proof {
            if i < self.items@.len() {
                lemma_less_total(old_elems[i as int], s@);
                assert forall|j: int| i <= j < old_elems.len() implies seq_less(
                    s@,
                    #[trigger] old_elems[j],
                ) by {
                    if j > i {
                        lemma_less_transitive(s@, old_elems[i as int], old_elems[j]);
                    }
                }
            }
        }
        let ghost sv = s@;
        let mut items: Vec<String> = Vec::new();
        std::mem::swap(&mut items, &mut self.items);
        items.insert(i, s);
        proof {
            let ne = items@.map_values(|s: String| s@);
            assert(ne =~= old_elems.insert(i as int, sv));
            assert forall|a: int, b: int| 0 <= a < b < ne.len() implies seq_less(
                #[trigger] ne[a],
                #[trigger] ne[b],
            ) by {
                if b < i {
                } else if a < i && b == i {
                } else if a < i {
                    assert(ne[b] == old_elems[b - 1]);
                } else if a == i {
                    assert(ne[b] == old_elems[b - 1]);
                } else {
                    assert(ne[a] == old_elems[a - 1]);
                    assert(ne[b] == old_elems[b - 1]);
                }
            }
            assert forall|x: Seq<char>| ne.to_set().contains(x) <==> old_elems.to_set().insert(
                sv,
            ).contains(x) by {
                if ne.to_set().contains(x) {
                    let k = ne.index_of(x);
                    if k < i {
                        assert(old_elems[k] == x);
                    } else if k > i {
                        assert(old_elems[k - 1] == x);
                    }
                }
                if old_elems.to_set().contains(x) {
                    let k = old_elems.index_of(x);
                    if k < i {
                        assert(ne[k] == x);
                    } else {
                        assert(ne[k + 1] == x);
                    }
                }
                if x == sv {
                    assert(ne[i as int] == x);
                }
            }
            assert(ne.to_set() =~= old_elems.to_set().insert(sv));
        }
        self.items = items;
    }

    /// Adds every element of `other`.
    pub fn extend(&mut self, other: &StringSet)
        ensures
            final(self)@ == old(self)@.union(other@),
    {
        let v = other.to_vec();
        let mut i: usize = 0;
        while i < v.len()
            invariant
                i <= v@.len(),
                v@.map_values(|s: String| s@) == other.elements(),
                self@ == old(self)@.union(other.elements().take(i as int).to_set()),
            decreases v@.len() - i,
        {
            let s = v[i].clone();
            self.insert(s);
            proof {
                assert(other.elements()[i as int] == v@[i as int]@);
                assert(other.elements().take(i + 1).to_set() =~= other.elements().take(
                    i as int,
                ).to_set().insert(v@[i as int]@)) by {
                    assert(other.elements().take(i + 1) =~= other.elements().take(i as int).push(
                        v@[i as int]@,
                    ));
                    other.elements().take(i as int).lemma_push_to_set_commute(v@[i as int]@);
                }
                assert(self@ =~= old(self)@.union(other.elements().take(i + 1).to_set()));
            }
            i = i + 1;
        }
        assert(other.elements().take(i as int) =~= other.elements());
    }

    /// The set of the given strings.
    pub fn from_strings(values: Vec<String>) -> (r: StringSet)
        ensures
            r@ == values@.map_values(|s: String| s@).to_set(),
    {
        let mut r = StringSet::new();
        let mut i: usize = 0;
        while i < values.len()
            invariant
                i <= values@.len(),
                r@ == values@.map_values(|s: String| s@).take(i as int).to_set(),
            decreases values@.len() - i,
        {
            let s = values[i].clone();
            r.insert(s);
            proof {
                let m = values@.map_values(|s: String| s@);
                assert(m.take(i + 1) =~= m.take(i as int).push(m[i as int]));
                m.take(i as int).lemma_push_to_set_commute(m[i as int]);
                assert(r@ =~= m.take(i + 1).to_set());
            }
            i = i + 1;
        }
        assert(values@.map_values(|s: String| s@).take(i as int) =~= values@.map_values(
            |s: String| s@,
        ));
        r
    }
}

impl Clone for StringSet {
    fn clone(&self) -> (r: StringSet)
        ensures
            r.elements() == self.elements(),
            r@ == self@,
    {
        let v = self.to_vec();
        StringSet { items: v }
    }
}

} // verus!
