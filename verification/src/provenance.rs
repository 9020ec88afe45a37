use vstd::prelude::*;

verus! {

/// `true` when `s` is strictly increasing. Such a sequence carries each
/// value at most once, so it is the one canonical ordering of its set of
/// values.
pub open spec fn sorted_strict(s: Seq<int>) -> bool {
    forall|i: int, j: int| 0 <= i < j < s.len() ==> s[i] < s[j]
}

/// The set of input-layer indices that contributed bytes to one produced
/// layer. The indices are kept strictly sorted, so the order in which
/// they are handed back depends only on which indices were inserted,
/// never on the order of insertion; inserting an index twice leaves the
/// set unchanged. One fresh set is made per component; sets are never
/// shared across components.
pub struct ProvenanceSet {
    indices: Vec<usize>,
}

impl View for ProvenanceSet {
    type V = Seq<int>;

    closed spec fn view(&self) -> Seq<int> {
        self.indices@.map(|_k: int, v: usize| v as int)
    }
}

impl ProvenanceSet {
    #[verifier::type_invariant]
    spec fn inv(self) -> bool {
        sorted_strict(self@)
    }

    /// The empty provenance set.
    pub fn new() -> (s: Self)
        ensures
            s@ == Seq::<int>::empty(),
    {
        let s = ProvenanceSet { indices: Vec::new() };
        proof {
            assert(s@ =~= Seq::<int>::empty());
        }
        s
    }

    /// How many distinct indices are recorded.
    pub fn len(&self) -> (n: usize)
        ensures
            n == self@.len(),
    {
        self.indices.len()
    }

    /// The `k`-th recorded index, in increasing order.
    pub fn index_at(&self, k: usize) -> (idx: usize)
        requires
            k < self@.len(),
        ensures
            idx as int == self@[k as int],
    {
        self.indices[k]
    }

    /// Whether layer index `idx` is recorded.
    pub fn contains(&self, idx: usize) -> (r: bool)
        ensures
            r == self@.contains(idx as int),
    {
        let n = self.indices.len();
        let mut k: usize = 0;
        while k < n
            invariant
                n == self@.len(),
                k <= n,
                forall|t: int| 0 <= t < k ==> self@[t] != idx as int,
            decreases n - k,
        {
            if self.indices[k] == idx {
                assert(self@.contains(idx as int)) by {
                    assert(self@[k as int] == idx as int);
                }
                return true;
            }
            k += 1;
        }
        assert(!self@.contains(idx as int));
        false
    }

    /// Record that the layer at index `idx` was read. The set afterwards
    /// holds exactly the old indices and `idx`; it stays strictly
    /// sorted, so a duplicate insert changes nothing.
    pub fn insert(&mut self, idx: usize)
        ensures
            forall|x: int|
                #[trigger] final(self)@.contains(x) <==> (old(self)@.contains(x) || x
                    == idx as int),
            sorted_strict(final(self)@),
    {
        proof {
            use_type_invariant(&*self);
        }
        let mut v: Vec<usize> = Vec::new();
        core::mem::swap(&mut v, &mut self.indices);
        let ghost orig: Seq<int> = v@.map(|_k: int, u: usize| u as int);
        let n = v.len();
        let mut k: usize = 0;
        while k < n && v[k] < idx
            invariant
                sorted_strict(orig),
                orig == v@.map(|_t: int, u: usize| u as int),
                n == v@.len(),
                k <= n,
                forall|t: int| 0 <= t < k ==> orig[t] < idx as int,
            decreases n - k,
        {
            k += 1;
        }
        if k == n || v[k] > idx {
            v.insert(k, idx);
            proof {
                let inserted = v@.map(|_t: int, u: usize| u as int);
                assert(inserted =~= orig.insert(k as int, idx as int));
                orig.insert_ensures(k as int, idx as int);
                lemma_insert_contains(orig, k as int, idx as int);
                assert(sorted_strict(inserted)) by {
                    assert forall|i: int, j: int| 0 <= i < j < inserted.len() implies inserted[i]
                        < inserted[j] by {
                        if j < k {
                            assert(inserted[i] == orig[i] && inserted[j] == orig[j]);
                        } else if i > k {
                            assert(inserted[i] == orig[i - 1] && inserted[j] == orig[j - 1]);
                        } else if i < k && j == k {
                            assert(inserted[i] == orig[i] && orig[i] < idx as int);
                        } else if i == k && j > k {
                            assert(inserted[j] == orig[j - 1] && (idx as int) < orig[j - 1]);
                        } else {
                            // i < k < j
                            assert(inserted[i] == orig[i] && inserted[j] == orig[j - 1]);
                        }
                    }
                }
            }
        } else {
            proof {
                assert(v@[k as int] == idx);
                assert(orig.contains(idx as int)) by {
                    assert(orig[k as int] == idx as int);
                }
            }
        }
        self.indices = v;
    }
}

/// Membership in `s.insert(pos, e)` is membership in `s` or equality
/// with `e`.
proof fn lemma_insert_contains(s: Seq<int>, pos: int, e: int)
    requires
        0 <= pos <= s.len(),
    ensures
        forall|x: int| #[trigger] s.insert(pos, e).contains(x) <==> (s.contains(x) || x == e),
{
    let t = s.insert(pos, e);
    s.insert_ensures(pos, e);
    assert forall|x: int| #[trigger] t.contains(x) implies (s.contains(x) || x == e) by {
        let i = choose|i: int| 0 <= i < t.len() && t[i] == x;
        if i < pos {
            assert(s[i] == x);
        } else if i == pos {
        } else {
            assert(s[i - 1] == x);
        }
    }
    assert forall|x: int| (s.contains(x) || x == e) implies #[trigger] t.contains(x) by {
        if x == e {
            assert(t[pos] == x);
        } else {
            let j = choose|j: int| 0 <= j < s.len() && s[j] == x;
            if j < pos {
                assert(t[j] == x);
            } else {
                assert(t[j + 1] == x);
            }
        }
    }
}

/// Two strictly sorted sequences with the same members are the same
/// sequence: the recorded ordering of a provenance set is canonical,
/// determined by its members alone.
pub proof fn lemma_sorted_unique(a: Seq<int>, b: Seq<int>)
    requires
        sorted_strict(a),
        sorted_strict(b),
        forall|x: int| a.contains(x) <==> b.contains(x),
    ensures
        a == b,
    decreases a.len(),
{
    if a.len() == 0 {
        if b.len() > 0 {
            assert(b.contains(b[0]));
            assert(a.contains(b[0]));
        }
        assert(a =~= b);
    } else {
        assert(a.contains(a[0]));
        assert(b.contains(a[0]));
        assert(b.len() > 0);
        assert(b.contains(b[0]));
        assert(a.contains(b[0]));
        // The head of a strictly sorted sequence is its unique minimum,
        // so the heads agree.
        let ia = choose|i: int| 0 <= i < b.len() && b[i] == a[0];
        let ib = choose|i: int| 0 <= i < a.len() && a[i] == b[0];
        assert(0 <= ia < b.len() && b[ia] == a[0]);
        assert(0 <= ib < a.len() && a[ib] == b[0]);
        if ia > 0 {
            assert(b[0] < b[ia]);
        }
        if ib > 0 {
            assert(a[0] < a[ib]);
        }
        assert(a[0] == b[0]);
        let at = a.drop_first();
        let bt = b.drop_first();
        assert forall|x: int| at.contains(x) <==> bt.contains(x) by {
            lemma_tail_contains(a, x);
            lemma_tail_contains(b, x);
        }
        lemma_sorted_unique(at, bt);
        assert(a =~= b) by {
            assert(forall|i: int| 1 <= i < a.len() ==> a[i] == at[i - 1] && b[i] == bt[i - 1]);
        }
    }
}

/// For a strictly sorted, non-empty sequence, the tail holds exactly the
/// members greater than the head.
proof fn lemma_tail_contains(s: Seq<int>, x: int)
    requires
        sorted_strict(s),
        s.len() > 0,
    ensures
        s.drop_first().contains(x) <==> (s.contains(x) && x > s[0]),
{
    let t = s.drop_first();
    if t.contains(x) {
        let i = choose|i: int| 0 <= i < t.len() && t[i] == x;
        assert(s[i + 1] == x);
        assert(s[0] < s[i + 1]);
        assert(s.contains(x));
    }
    if s.contains(x) && x > s[0] {
        let i = choose|i: int| 0 <= i < s.len() && s[i] == x;
        assert(i > 0);
        assert(t[i - 1] == x);
    }
}

} // verus!
