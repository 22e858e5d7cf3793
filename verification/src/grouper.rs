//! Transitive grouping of pairwise matches into duplicate clusters,
//! built on a union-find structure over photo paths.

use vstd::prelude::*;
use vstd::multiset::Multiset;

use crate::comparator::{DuplicateGroup, MatchResult, MatchType};
use crate::text::{spec_str_le, lemma_str_le_total, str_le};

verus! {

/// Whether `a` and `b` are directly joined by one of the pairs,
/// in either orientation.
pub open spec fn pairs_linked<A>(pairs: Seq<(A, A)>, a: A, b: A) -> bool {
    exists|k: int|
        0 <= k < pairs.len() && (((#[trigger] pairs[k]).0 == a && pairs[k].1 == b) || (pairs[k].0
            == b && pairs[k].1 == a))
}

/// Whether consecutive elements of `p` are each directly joined.
pub open spec fn pairs_chain<A>(pairs: Seq<(A, A)>, p: Seq<A>) -> bool {
    forall|i: int| 0 <= i < p.len() - 1 ==> #[trigger] pairs_linked(pairs, p[i], p[i + 1])
}

/// Whether a chain of direct joins connects `a` to `b`: the
/// reflexive, symmetric, transitive closure of the pair relation.
#[verifier::opaque]
pub open spec fn pairs_connected<A>(pairs: Seq<(A, A)>, a: A, b: A) -> bool {
    exists|p: Seq<A>|
        #![all_triggers]
        p.len() >= 1 && p.first() == a && p.last() == b && pairs_chain(pairs, p)
}

/// Every element is connected to itself.
pub proof fn lemma_conn_refl<A>(pairs: Seq<(A, A)>, a: A)
    ensures
        pairs_connected(pairs, a, a),
{
    reveal(pairs_connected);
    let p = seq![a];
    assert(p.len() >= 1 && p.first() == a && p.last() == a && pairs_chain(pairs, p));
}

/// A direct join connects its two elements.
pub proof fn lemma_conn_step<A>(pairs: Seq<(A, A)>, a: A, b: A)
    requires
        pairs_linked(pairs, a, b),
    ensures
        pairs_connected(pairs, a, b),
{
    reveal(pairs_connected);
    let p = seq![a, b];
    assert(p.first() == a && p.last() == b);
    assert forall|i: int| 0 <= i < p.len() - 1 implies #[trigger] pairs_linked(
        pairs,
        p[i],
        p[i + 1],
    ) by {
        assert(i == 0);
        assert(p[0] == a && p[1] == b);
    }
}

/// Connectivity is symmetric.
pub proof fn lemma_conn_sym<A>(pairs: Seq<(A, A)>, a: A, b: A)
    requires
        pairs_connected(pairs, a, b),
    ensures
        pairs_connected(pairs, b, a),
{
    reveal(pairs_connected);
    let p = choose|p: Seq<A>|
        #![all_triggers]
        p.len() >= 1 && p.first() == a && p.last() == b && pairs_chain(pairs, p);
    let q = p.reverse();
    assert(q.len() >= 1);
    assert(q.first() == p.last());
    assert(q.last() == p.first());
    assert forall|i: int| 0 <= i < q.len() - 1 implies #[trigger] pairs_linked(
        pairs,
        q[i],
        q[i + 1],
    ) by {
        let n = p.len();
        let j = n - 2 - i;
        assert(q[i] == p[j + 1]);
        assert(q[i + 1] == p[j]);
        assert(pairs_linked(pairs, p[j], p[j + 1]));
        let k = choose|k: int|
            0 <= k < pairs.len() && (((#[trigger] pairs[k]).0 == p[j] && pairs[k].1 == p[j + 1])
                || (pairs[k].0 == p[j + 1] && pairs[k].1 == p[j]));
        assert(((pairs[k]).0 == q[i] && pairs[k].1 == q[i + 1]) || (pairs[k].0 == q[i + 1]
            && pairs[k].1 == q[i]));
    }
}

/// Connectivity is transitive.
pub proof fn lemma_conn_trans<A>(pairs: Seq<(A, A)>, a: A, b: A, c: A)
    requires
        pairs_connected(pairs, a, b),
        pairs_connected(pairs, b, c),
    ensures
        pairs_connected(pairs, a, c),
{
    reveal(pairs_connected);
    let p1 = choose|p: Seq<A>|
        #![all_triggers]
        p.len() >= 1 && p.first() == a && p.last() == b && pairs_chain(pairs, p);
    let p2 = choose|p: Seq<A>|
        #![all_triggers]
        p.len() >= 1 && p.first() == b && p.last() == c && pairs_chain(pairs, p);
    if p2.len() == 1 {
        assert(b == c);
        assert(p1.len() >= 1 && p1.first() == a && p1.last() == c && pairs_chain(pairs, p1));
    } else {
        let q = p1 + p2.drop_first();
        let n1 = p1.len() as int;
        assert(q.len() >= 1);
        assert(q.first() == a);
        assert(q.last() == p2.last());
        assert forall|i: int| 0 <= i < q.len() - 1 implies #[trigger] pairs_linked(
            pairs,
            q[i],
            q[i + 1],
        ) by {
            if i < n1 - 1 {
                assert(q[i] == p1[i]);
                assert(q[i + 1] == p1[i + 1]);
                assert(pairs_linked(pairs, p1[i], p1[i + 1]));
            } else if i == n1 - 1 {
                assert(q[i] == p1[n1 - 1]);
                assert(q[i + 1] == p2.drop_first()[0]);
                assert(p2.drop_first()[0] == p2[1]);
                assert(pairs_linked(pairs, p2[0], p2[1]));
            } else {
                assert(q[i] == p2.drop_first()[i - n1]);
                assert(q[i + 1] == p2.drop_first()[i + 1 - n1]);
                assert(q[i] == p2[i - n1 + 1]);
                assert(q[i + 1] == p2[i - n1 + 2]);
                assert(pairs_linked(pairs, p2[i - n1 + 1], p2[i - n1 + 2]));
            }
        }
    }
}

/// Connectivity carries over to any pair list that directly joins
/// everything the first list joins.
pub proof fn lemma_conn_sub<A>(p: Seq<(A, A)>, q: Seq<(A, A)>, a: A, b: A)
    requires
        pairs_connected(p, a, b),
        forall|k: int| 0 <= k < p.len() ==> pairs_linked(q, (#[trigger] p[k]).0, p[k].1),
    ensures
        pairs_connected(q, a, b),
{
    reveal(pairs_connected);
    let ch = choose|ch: Seq<A>|
        #![all_triggers]
        ch.len() >= 1 && ch.first() == a && ch.last() == b && pairs_chain(p, ch);
    assert forall|i: int| 0 <= i < ch.len() - 1 implies #[trigger] pairs_linked(
        q,
        ch[i],
        ch[i + 1],
    ) by {
        assert(pairs_linked(p, ch[i], ch[i + 1]));
        let k = choose|k: int|
            0 <= k < p.len() && (((#[trigger] p[k]).0 == ch[i] && p[k].1 == ch[i + 1]) || (p[k].0
                == ch[i + 1] && p[k].1 == ch[i]));
        assert(pairs_linked(q, p[k].0, p[k].1));
    }
    assert(ch.len() >= 1 && ch.first() == a && ch.last() == b && pairs_chain(q, ch));
}

/// Adding pairs preserves connectivity.
pub proof fn lemma_conn_mono<A>(p: Seq<(A, A)>, e: (A, A), a: A, b: A)
    requires
        pairs_connected(p, a, b),
    ensures
        pairs_connected(p.push(e), a, b),
{
    assert forall|k: int| 0 <= k < p.len() implies pairs_linked(
        p.push(e),
        (#[trigger] p[k]).0,
        p[k].1,
    ) by {
        assert(p.push(e)[k] == p[k]);
    }
    lemma_conn_sub(p, p.push(e), a, b);
}

/// Whether some string of the list reads `s`.
pub open spec fn contains_view(v: Seq<String>, s: Seq<char>) -> bool {
    exists|i: int| 0 <= i < v.len() && (#[trigger] v[i])@ == s
}

/// Whether the strings of the list are pairwise distinct.
pub open spec fn distinct_views(v: Seq<String>) -> bool {
    forall|i: int, j: int| 0 <= i < j < v.len() ==> (#[trigger] v[i])@ != (#[trigger] v[j])@
}

/// Union-find over photo paths, with path compression.
///
/// The ghost `links` sequence records every pair that has been
/// unioned; the structure guarantees that an item and its parent are
/// always connected under those links.
pub struct UnionFind {
    /// The distinct items, in first-insertion order.
    pub items: Vec<String>,
    /// Parent index of each item; a root is its own parent.
    pub parent: Vec<usize>,
    /// All pairs ever passed to `union`.
    pub links: Ghost<Seq<(Seq<char>, Seq<char>)>>,
}

impl UnionFind {
    /// Structural invariant: parents point downward and each item is
    /// connected to its parent under the recorded links.
    pub open spec fn wf(&self) -> bool {
        &&& self.parent@.len() == self.items@.len()
        &&& distinct_views(self.items@)
        &&& forall|i: int|
            0 <= i < self.parent@.len() ==> (#[trigger] self.parent@[i]) as int <= i
        &&& forall|i: int|
            0 <= i < self.parent@.len() ==> pairs_connected(
                self.links@,
                (#[trigger] self.items@[i])@,
                self.items@[self.parent@[i] as int]@,
            )
    }

    /// Create a union-find whose classes are the given items, each in
    /// a class of its own; duplicate items are inserted once.
    pub fn new(items: Vec<String>) -> (r: UnionFind)
        ensures
            r.wf(),
            r.links@ =~= Seq::<(Seq<char>, Seq<char>)>::empty(),
            forall|s: Seq<char>| contains_view(r.items@, s) <==> contains_view(items@, s),
            distinct_views(items@) ==> r.items@ == items@,
    {
        let mut r = UnionFind {
            items: Vec::new(),
            parent: Vec::new(),
            links: Ghost(Seq::empty()),
        };
        let mut k: usize = 0;
        while k < items.len()
            invariant
                k <= items@.len(),
                r.wf(),
                r.links@ =~= Seq::<(Seq<char>, Seq<char>)>::empty(),
                forall|s: Seq<char>|
                    contains_view(r.items@, s) <==> contains_view(items@.take(k as int), s),
                distinct_views(items@) ==> r.items@ == items@.take(k as int),
            decreases items@.len() - k,
        {
            let ghost pre = r.items@;
            r.insert_item(&items[k]);
            proof {
                assert forall|s: Seq<char>|
                    contains_view(items@.take(k + 1 as int), s) <==> (contains_view(
                        items@.take(k as int),
                        s,
                    ) || s == items@[k as int]@) by {
                    if contains_view(items@.take(k + 1 as int), s) {
                        let i = choose|i: int|
                            0 <= i < items@.take(k + 1 as int).len() && (#[trigger] items@.take(
                                k + 1 as int,
                            )[i])@ == s;
                        if i < k {
                            assert(items@.take(k as int)[i]@ == s);
                        } else {
                            assert(s == items@[k as int]@);
                        }
                    }
                    if contains_view(items@.take(k as int), s) {
                        let i = choose|i: int|
                            0 <= i < items@.take(k as int).len() && (#[trigger] items@.take(
                                k as int,
                            )[i])@ == s;
                        assert(items@.take(k + 1 as int)[i]@ == s);
                    }
                    if s == items@[k as int]@ {
                        assert(items@.take(k + 1 as int)[k as int]@ == s);
                    }
                }
                if distinct_views(items@) {
                    if contains_view(pre, items@[k as int]@) {
                        let i = choose|i: int| 0 <= i < pre.len() && (#[trigger] pre[i])@
                            == items@[k as int]@;
                        assert(items@.take(k as int)[i]@ == items@[k as int]@);
                        assert(false);
                    }
                    assert(r.items@ =~= items@.take(k + 1 as int));
                }
            }
            k = k + 1;
        }
        proof {
            assert(items@.take(items@.len() as int) =~= items@);
        }
        r
    }

    /// Insert one item as its own class if it is not yet present.
    fn insert_item(&mut self, x: &String)
        requires
            old(self).wf(),
        ensures
            final(self).wf(),
            final(self).links == old(self).links,
            forall|s: Seq<char>|
                contains_view(final(self).items@, s) <==> (contains_view(old(self).items@, s) || s
                    == x@),
            contains_view(old(self).items@, x@) ==> final(self).items@ == old(self).items@,
            !contains_view(old(self).items@, x@) ==> final(self).items@ == old(self).items@.push(
                *x,
            ),
    {
        if let Some(i) = self.index_of(x) {
            proof {
                assert forall|s: Seq<char>| (contains_view(old(self).items@, s) || s == x@)
                    implies contains_view(self.items@, s) by {
                    if s == x@ {
                        assert((self.items@[i as int])@ == s);
                    }
                }
            }
        } else {
            let n = self.items.len();
            self.items.push(x.clone());
            self.parent.push(n);
            proof {
                lemma_conn_refl(self.links@, x@);
                assert(forall|i: int|
                    0 <= i < old(self).items@.len() ==> (#[trigger] self.items@[i]) == old(
                        self,
                    ).items@[i]);
                assert(self.items@[n as int]@ == x@);
                assert forall|s: Seq<char>| contains_view(self.items@, s) implies (contains_view(
                    old(self).items@,
                    s,
                ) || s == x@) by {
                    let i = choose|i: int|
                        0 <= i < self.items@.len() && (#[trigger] self.items@[i])@ == s;
                    if i < n {
                        assert(old(self).items@[i]@ == s);
                    }
                }
                assert forall|s: Seq<char>| (contains_view(old(self).items@, s) || s == x@)
                    implies contains_view(self.items@, s) by {
                    if contains_view(old(self).items@, s) {
                        let i = choose|i: int|
                            0 <= i < old(self).items@.len() && (#[trigger] old(self).items@[i])@
                                == s;
                        assert((self.items@[i])@ == s);
                    } else {
                        assert((self.items@[n as int])@ == s);
                    }
                }
                assert forall|i: int, j: int| 0 <= i < j < self.items@.len() implies (
                #[trigger] self.items@[i])@ != (#[trigger] self.items@[j])@ by {
                    if j == n {
                        if self.items@[i]@ == x@ {
                            assert(contains_view(old(self).items@, x@));
                        }
                    }
                }
            }
        }
    }

    /// Index of an item equal to `x`, if present.
    pub fn index_of(&self, x: &String) -> (r: Option<usize>)
        ensures
            match r {
                Some(i) => i < self.items@.len() && self.items@[i as int]@ == x@,
                None => !contains_view(self.items@, x@),
            },
    {
        let mut i: usize = 0;
        while i < self.items.len()
            invariant
                i <= self.items@.len(),
                forall|j: int| 0 <= j < i ==> (#[trigger] self.items@[j])@ != x@,
            decreases self.items@.len() - i,
        {
            if self.items[i] == *x {
                return Some(i);
            }
            i = i + 1;
        }
        None
    }

    /// Number of items.
    pub fn len(&self) -> (r: usize)
        ensures
            r == self.items@.len(),
    {
        self.items.len()
    }

    /// Find the root index of the class of item `ix`, compressing the
    /// path behind it. The returned root is connected to `ix` under
    /// the recorded links.
    #[verifier::rlimit(100)]
    pub fn find_index(&mut self, ix: usize) -> (r: usize)
        requires
            old(self).wf(),
            ix < old(self).items@.len(),
        ensures
            final(self).wf(),
            final(self).items == old(self).items,
            final(self).links == old(self).links,
            r < final(self).items@.len(),
            final(self).parent@[r as int] == r,
            pairs_connected(
                final(self).links@,
                final(self).items@[ix as int]@,
                final(self).items@[r as int]@,
            ),
    {
        let ghost links = self.links@;
        let ghost items = self.items@;
        // First pass: find the root.
        let mut cur = ix;
        proof {
            lemma_conn_refl(links, items[ix as int]@);
        }
        while self.parent[cur] != cur
            invariant
                self.wf(),
                self.items == old(self).items,
                self.items@ == items,
                self.links@ == links,
                ix < items.len(),
                cur < items.len(),
                pairs_connected(links, items[ix as int]@, items[cur as int]@),
            decreases cur,
        {
            let next = self.parent[cur];
            proof {
                lemma_conn_trans(
                    links,
                    items[ix as int]@,
                    items[cur as int]@,
                    items[next as int]@,
                );
            }
            cur = next;
        }
        let root = cur;
        // Second pass: point the nodes on the way at the root.
        let mut cur2 = ix;
        while self.parent[cur2] != cur2
            invariant
                self.wf(),
                self.items == old(self).items,
                self.items@ == items,
                self.links@ == links,
                ix < items.len(),
                cur2 < items.len(),
                root < items.len(),
                self.parent@[root as int] == root,
                pairs_connected(links, items[cur2 as int]@, items[root as int]@),
                pairs_connected(links, items[ix as int]@, items[root as int]@),
            decreases cur2,
        {
            let next = self.parent[cur2];
            proof {
                lemma_conn_sym(links, items[cur2 as int]@, items[next as int]@);
                lemma_conn_trans(
                    links,
                    items[next as int]@,
                    items[cur2 as int]@,
                    items[root as int]@,
                );
            }
            if root < cur2 {
                self.parent[cur2] = root;
            }
            cur2 = next;
        }
        root
    }

    /// Record the new link and join two root classes.
    #[verifier::rlimit(100)]
    fn merge_roots(&mut self, ra: usize, rb: usize, pair: Ghost<(Seq<char>, Seq<char>)>)
        requires
            old(self).wf(),
            ra < old(self).items@.len(),
            rb < old(self).items@.len(),
            pairs_connected(
                old(self).links@.push(pair@),
                old(self).items@[ra as int]@,
                old(self).items@[rb as int]@,
            ),
        ensures
            final(self).wf(),
            final(self).items == old(self).items,
            final(self).links@ =~= old(self).links@.push(pair@),
    {
        let ghost old_links = self.links@;
        let ghost items = self.items@;
        proof {
            self.links@ = self.links@.push(pair@);
            assert forall|i: int| 0 <= i < self.parent@.len() implies pairs_connected(
                self.links@,
                (#[trigger] self.items@[i])@,
                self.items@[self.parent@[i] as int]@,
            ) by {
                lemma_conn_mono(
                    old_links,
                    pair@,
                    self.items@[i]@,
                    self.items@[self.parent@[i] as int]@,
                );
            }
        }
        if ra != rb {
            proof {
                lemma_conn_sym(self.links@, items[ra as int]@, items[rb as int]@);
            }
            if ra < rb {
                self.parent[rb] = ra;
            } else {
                self.parent[ra] = rb;
            }
        }
    }

    /// Union the classes of the items `a` and `b`, which must have
    /// been registered when the structure was built. Records the pair
    /// in the ghost links.
    #[verifier::rlimit(100)]
    pub fn union(&mut self, a: &String, b: &String)
        requires
            old(self).wf(),
            contains_view(old(self).items@, a@),
            contains_view(old(self).items@, b@),
        ensures
            final(self).wf(),
            final(self).items == old(self).items,
            final(self).links@ =~= old(self).links@.push((a@, b@)),
    {
        let ia = match self.index_of(a) {
            Some(i) => i,
            None => {
                proof {
                    assert(false);
                }
                0
            },
        };
        let ib = match self.index_of(b) {
            Some(i) => i,
            None => {
                proof {
                    assert(false);
                }
                0
            },
        };
        let ra = self.find_index(ia);
        let rb = self.find_index(ib);
        let ghost old_links = self.links@;
        let ghost items = self.items@;
        proof {
            let nl = old_links.push((a@, b@));
            // items[ra] ~ a ~ b ~ items[rb] under the extended links.
            assert(nl[nl.len() - 1] == (a@, b@));
            assert(pairs_linked(nl, items[ia as int]@, items[ib as int]@));
            lemma_conn_step(nl, items[ia as int]@, items[ib as int]@);
            lemma_conn_mono(old_links, (a@, b@), items[ia as int]@, items[ra as int]@);
            lemma_conn_mono(old_links, (a@, b@), items[ib as int]@, items[rb as int]@);
            lemma_conn_sym(nl, items[ia as int]@, items[ra as int]@);
            lemma_conn_trans(nl, items[ra as int]@, items[ia as int]@, items[ib as int]@);
            lemma_conn_trans(nl, items[ra as int]@, items[ib as int]@, items[rb as int]@);
        }
        self.merge_roots(ra, rb, Ghost((a@, b@)));
    }

    /// Find the representative path of `x`'s class; `x` itself if it
    /// is not an item.
    pub fn find(&mut self, x: &String) -> (r: String)
        requires
            old(self).wf(),
        ensures
            final(self).wf(),
            final(self).items == old(self).items,
            final(self).links == old(self).links,
            contains_view(old(self).items@, x@) ==> pairs_connected(final(self).links@, x@, r@)
                && contains_view(final(self).items@, r@),
            !contains_view(old(self).items@, x@) ==> r@ == x@,
    {
        match self.index_of(x) {
            Some(i) => {
                let root = self.find_index(i);
                let r = self.items[root].clone();
                proof {
                    lemma_conn_refl(self.links@, x@);
                    lemma_conn_trans(self.links@, x@, self.items@[i as int]@, r@);
                }
                r
            },
            None => x.clone(),
        }
    }
}


/// Lexicographic order is transitive.
pub proof fn lemma_str_le_trans(a: Seq<char>, b: Seq<char>, c: Seq<char>)
    requires
        spec_str_le(a, b),
        spec_str_le(b, c),
    ensures
        spec_str_le(a, c),
    decreases a.len(),
{
    if a.len() > 0 && b.len() > 0 && c.len() > 0 && a.first() == b.first() && b.first()
        == c.first() {
        lemma_str_le_trans(a.drop_first(), b.drop_first(), c.drop_first());
    }
}

/// Lexicographic order is reflexive.
proof fn lemma_str_le_refl(a: Seq<char>)
    ensures
        spec_str_le(a, a),
    decreases a.len(),
{
    if a.len() > 0 {
        lemma_str_le_refl(a.drop_first());
    }
}

/// Append `x` to the list unless an equal string is already there;
/// returns the index where `x` stands.
fn push_unique(v: &mut Vec<String>, x: &String) -> (i: usize)
    requires
        distinct_views(old(v)@),
    ensures
        distinct_views(final(v)@),
        i < final(v)@.len(),
        final(v)@[i as int]@ == x@,
        forall|j: int| 0 <= j < old(v)@.len() ==> final(v)@[j] == old(v)@[j],
        final(v)@.len() == old(v)@.len() || final(v)@.len() == old(v)@.len() + 1,
        forall|s: Seq<char>|
            contains_view(final(v)@, s) <==> (contains_view(old(v)@, s) || s == x@),
{
    let mut i: usize = 0;
    while i < v.len()
        invariant
            i <= v@.len(),
            distinct_views(v@),
            v == old(v),
            forall|j: int| 0 <= j < i ==> (#[trigger] v@[j])@ != x@,
        decreases v@.len() - i,
    {
        if v[i] == *x {
            proof {
                assert forall|s: Seq<char>| (contains_view(old(v)@, s) || s == x@)
                    implies contains_view(v@, s) by {
                    if s == x@ {
                        assert((v@[i as int])@ == s);
                    }
                }
            }
            return i;
        }
        i = i + 1;
    }
    let ghost pre = v@;
    let n = v.len();
    v.push(x.clone());
    proof {
        assert(v@[n as int]@ == x@);
        assert forall|s: Seq<char>| contains_view(v@, s) implies (contains_view(pre, s) || s
            == x@) by {
            let j = choose|j: int| 0 <= j < v@.len() && (#[trigger] v@[j])@ == s;
            if j < n {
                assert(pre[j]@ == s);
            } else {
                assert(s == x@);
            }
        }
        assert forall|s: Seq<char>| (contains_view(pre, s) || s == x@) implies contains_view(
            v@,
            s,
        ) by {
            if contains_view(pre, s) {
                let j = choose|j: int| 0 <= j < pre.len() && (#[trigger] pre[j])@ == s;
                assert((v@[j])@ == s);
            } else {
                assert((v@[n as int])@ == s);
            }
        }
        assert forall|i2: int, j2: int| 0 <= i2 < j2 < v@.len() implies (#[trigger] v@[i2])@ != (
        #[trigger] v@[j2])@ by {
            if j2 == n {
                if v@[i2]@ == x@ {
                    assert(contains_view(pre, x@));
                }
            }
        }
    }
    n
}

/// Whether the paths are sorted lexicographically.
pub open spec fn sorted_views(v: Seq<String>) -> bool {
    forall|i: int, j: int|
        0 <= i < j < v.len() ==> spec_str_le((#[trigger] v[i])@, (#[trigger] v[j])@)
}

/// Sort paths lexicographically; the result is a permutation of the
/// input.
#[verifier::rlimit(100)]
pub fn sort_paths(v: Vec<String>) -> (r: Vec<String>)
    ensures
        r@.len() == v@.len(),
        r@.to_multiset() == v@.to_multiset(),
        sorted_views(r@),
{
    broadcast use vstd::seq_lib::group_to_multiset_ensures;

    let mut src = v;
    let mut r: Vec<String> = Vec::new();
    proof {
        assert(r@.to_multiset().add(src@.to_multiset()) =~= v@.to_multiset());
    }
    while src.len() > 0
        invariant
            r@.len() + src@.len() == v@.len(),
            r@.to_multiset().add(src@.to_multiset()) =~= v@.to_multiset(),
            sorted_views(r@),
            forall|i: int, j: int|
                0 <= i < src@.len() && 0 <= j < r@.len() ==> spec_str_le(
                    (#[trigger] r@[j])@,
                    (#[trigger] src@[i])@,
                ),
        decreases src@.len(),
    {
        // Find the least remaining path.
        let mut m: usize = 0;
        let mut i: usize = 1;
        proof {
            lemma_str_le_refl(src@[0]@);
        }
        while i < src.len()
            invariant
                m < src@.len(),
                i <= src@.len(),
                forall|k: int| 0 <= k < i ==> spec_str_le((src@[m as int])@, (#[trigger] src@[k])@),
            decreases src@.len() - i,
        {
            proof {
                lemma_str_le_total(src@[i as int]@, src@[m as int]@);
            }
            if str_le(&src[i], &src[m]) {
                proof {
                    assert forall|k: int| 0 <= k < i + 1 implies spec_str_le(
                        (src@[i as int])@,
                        (#[trigger] src@[k])@,
                    ) by {
                        if k < i {
                            lemma_str_le_trans(src@[i as int]@, src@[m as int]@, src@[k]@);
                        } else {
                            lemma_str_le_refl(src@[i as int]@);
                        }
                    }
                }
                m = i;
            }
            i = i + 1;
        }
        let ghost src_pre = src@;
        let ghost r_pre = r@;
        let s = src.remove(m);
        proof {
            src_pre.to_multiset_ensures();
            r_pre.to_multiset_ensures();
            assert(src_pre[m as int] == s);
            assert(src_pre.contains(s));
            assert(src_pre.to_multiset().count(s) > 0);
        }
        r.push(s);
        proof {
            assert(r@.to_multiset() =~= r_pre.to_multiset().insert(s));
            assert(src@.to_multiset() =~= src_pre.to_multiset().remove(s));
            assert(r@.to_multiset().add(src@.to_multiset()) =~= r_pre.to_multiset().add(
                src_pre.to_multiset(),
            ));
            // The removed minimum keeps both order invariants.
            assert forall|i2: int, j2: int| 0 <= i2 < j2 < r@.len() implies spec_str_le(
                (#[trigger] r@[i2])@,
                (#[trigger] r@[j2])@,
            ) by {
                if j2 == r@.len() - 1 {
                    assert(r@[i2] == r_pre[i2]);
                    assert(r@[j2] == s);
                    assert(s == src_pre[m as int]);
                }
            }
            assert forall|i2: int, j2: int| 0 <= i2 < src@.len() && 0 <= j2 < r@.len()
                implies spec_str_le((#[trigger] r@[j2])@, (#[trigger] src@[i2])@) by {
                assert(src@ == src_pre.remove(m as int));
                if i2 < m {
                    assert(src@[i2] == src_pre[i2]);
                } else {
                    assert(src@[i2] == src_pre[i2 + 1]);
                }
                if j2 < r@.len() - 1 {
                    assert(r@[j2] == r_pre[j2]);
                } else {
                    assert(r@[j2] == src_pre[m as int]);
                }
            }
        }
    }
    proof {
        src@.to_multiset_ensures();
        assert(src@.to_multiset() =~= Multiset::<String>::empty());
        assert(r@.to_multiset() =~= v@.to_multiset());
    }
    r
}

/// The photo pairs named by a list of matches.
pub open spec fn match_pairs(matches: Seq<MatchResult>) -> Seq<(Seq<char>, Seq<char>)> {
    matches.map_values(|m: MatchResult| (m.photo_a@, m.photo_b@))
}

/// Whether a chain of matches connects path `a` to path `b`:
/// the transitive closure of the match relation.
pub open spec fn spec_connected(matches: Seq<MatchResult>, a: Seq<char>, b: Seq<char>) -> bool {
    pairs_connected(match_pairs(matches), a, b)
}

/// Groups photos into duplicate clusters by the transitive closure
/// of the pairwise matches.
pub struct TransitiveGrouper {}


/// Collect every path that appears in a match, once each, in
/// first-appearance order, together with the index pair of each
/// match's two endpoints in that list.
fn collect_paths(matches: &Vec<MatchResult>) -> (r: (Vec<String>, Vec<(usize, usize)>))
    ensures
        distinct_views(r.0@),
        r.1@.len() == matches@.len(),
        forall|k: int|
            0 <= k < matches@.len() ==> {
                &&& (#[trigger] r.1@[k]).0 < r.0@.len()
                &&& r.1@[k].1 < r.0@.len()
                &&& r.0@[r.1@[k].0 as int]@ == matches@[k].photo_a@
                &&& r.0@[r.1@[k].1 as int]@ == matches@[k].photo_b@
            },
{
    let mut paths: Vec<String> = Vec::new();
    let mut idx: Vec<(usize, usize)> = Vec::new();
    let mut k: usize = 0;
    while k < matches.len()
        invariant
            k <= matches@.len(),
            distinct_views(paths@),
            idx@.len() == k,
            forall|kk: int|
                0 <= kk < k ==> {
                    &&& (#[trigger] idx@[kk]).0 < paths@.len()
                    &&& idx@[kk].1 < paths@.len()
                    &&& paths@[idx@[kk].0 as int]@ == matches@[kk].photo_a@
                    &&& paths@[idx@[kk].1 as int]@ == matches@[kk].photo_b@
                },
        decreases matches@.len() - k,
    {
        let ia = push_unique(&mut paths, &matches[k].photo_a);
        let ib = push_unique(&mut paths, &matches[k].photo_b);
        idx.push((ia, ib));
        k = k + 1;
    }
    (paths, idx)
}

/// Position of a value in a list of indices, if present.
fn find_usize(v: &Vec<usize>, x: usize) -> (r: Option<usize>)
    ensures
        match r {
            Some(i) => i < v@.len() && v@[i as int] == x,
            None => forall|i: int| 0 <= i < v@.len() ==> (#[trigger] v@[i]) != x,
        },
{
    let mut i: usize = 0;
    while i < v.len()
        invariant
            i <= v@.len(),
            forall|j: int| 0 <= j < i ==> (#[trigger] v@[j]) != x,
        decreases v@.len() - i,
    {
        if v[i] == x {
            return Some(i);
        }
        i = i + 1;
    }
    None
}

/// Label every path index with its connected component under the
/// match relation: equal labels mean connected, and the two
/// endpoints of every match share a label.
#[verifier::rlimit(100)]
fn component_labels(
    paths: &Vec<String>,
    idx: &Vec<(usize, usize)>,
    matches: &Vec<MatchResult>,
) -> (comp: Vec<usize>)
    requires
        idx@.len() == matches@.len(),
        forall|k: int|
            0 <= k < matches@.len() ==> {
                &&& (#[trigger] idx@[k]).0 < paths@.len()
                &&& idx@[k].1 < paths@.len()
                &&& paths@[idx@[k].0 as int]@ == matches@[k].photo_a@
                &&& paths@[idx@[k].1 as int]@ == matches@[k].photo_b@
            },
    ensures
        comp@.len() == paths@.len(),
        forall|i: int| 0 <= i < comp@.len() ==> (#[trigger] comp@[i]) < comp@.len(),
        forall|i: int, j: int|
            0 <= i < comp@.len() && 0 <= j < comp@.len() && comp@[i] == comp@[j]
                ==> spec_connected(matches@, (#[trigger] paths@[i])@, (#[trigger] paths@[j])@),
        forall|k: int|
            0 <= k < matches@.len() ==> comp@[(#[trigger] idx@[k]).0 as int] == comp@[idx@[
                k
            ].1 as int],
{
    let n = paths.len();
    let mut comp: Vec<usize> = Vec::new();
    let mut i: usize = 0;
    while i < n
        invariant
            i <= n,
            comp@.len() == i,
            forall|j: int| 0 <= j < i ==> (#[trigger] comp@[j]) == j,
        decreases n - i,
    {
        comp.push(i);
        i = i + 1;
    }
    proof {
        assert forall|i2: int, j2: int|
            0 <= i2 < comp@.len() && 0 <= j2 < comp@.len() && comp@[i2]
                == comp@[j2] implies spec_connected(
            matches@,
            (#[trigger] paths@[i2])@,
            (#[trigger] paths@[j2])@,
        ) by {
            assert(i2 == j2);
            lemma_conn_refl(match_pairs(matches@), paths@[i2]@);
        }
    }
    let mut k: usize = 0;
    while k < matches.len()
        invariant
            k <= matches@.len(),
            idx@.len() == matches@.len(),
            comp@.len() == paths@.len(),
            n == paths@.len(),
            forall|kk: int|
                0 <= kk < matches@.len() ==> {
                    &&& (#[trigger] idx@[kk]).0 < paths@.len()
                    &&& idx@[kk].1 < paths@.len()
                    &&& paths@[idx@[kk].0 as int]@ == matches@[kk].photo_a@
                    &&& paths@[idx@[kk].1 as int]@ == matches@[kk].photo_b@
                },
            forall|i2: int| 0 <= i2 < comp@.len() ==> (#[trigger] comp@[i2]) < comp@.len(),
            forall|i2: int, j2: int|
                0 <= i2 < comp@.len() && 0 <= j2 < comp@.len() && comp@[i2] == comp@[j2]
                    ==> spec_connected(
                    matches@,
                    (#[trigger] paths@[i2])@,
                    (#[trigger] paths@[j2])@,
                ),
            forall|kk: int|
                0 <= kk < k ==> comp@[(#[trigger] idx@[kk]).0 as int] == comp@[idx@[
                    kk
                ].1 as int],
        decreases matches@.len() - k,
    {
        let (ia, ib) = idx[k];
        let ca = comp[ia];
        let cb = comp[ib];
        if ca != cb {
            let ghost comp_pre = comp@;
            // Relabel the whole class of `cb` to `ca`.
            let mut j: usize = 0;
            while j < n
                invariant
                    j <= n,
                    n == paths@.len(),
                    comp@.len() == n,
                    ia < n,
                    ib < n,
                    ca < n,
                    cb < n,
                    comp_pre.len() == n,
                    comp_pre[ia as int] == ca,
                    comp_pre[ib as int] == cb,
                    forall|j0: int|
                        0 <= j0 < j ==> (#[trigger] comp@[j0]) == (if comp_pre[j0] == cb {
                            ca
                        } else {
                            comp_pre[j0]
                        }),
                    forall|j0: int| j <= j0 < n ==> (#[trigger] comp@[j0]) == comp_pre[j0],
                    forall|i2: int| 0 <= i2 < n ==> (#[trigger] comp_pre[i2]) < n,
                    forall|i2: int, j2: int|
                        0 <= i2 < n && 0 <= j2 < n && comp_pre[i2] == comp_pre[j2]
                            ==> spec_connected(
                            matches@,
                            (#[trigger] paths@[i2])@,
                            (#[trigger] paths@[j2])@,
                        ),
                decreases n - j,
            {
                if comp[j] == cb {
                    comp[j] = ca;
                }
                j = j + 1;
            }
            proof {
                // The match's own pair is a direct link.
                assert(match_pairs(matches@)[k as int] == (
                    matches@[k as int].photo_a@,
                    matches@[k as int].photo_b@,
                ));
                assert(pairs_linked(
                    match_pairs(matches@),
                    paths@[ia as int]@,
                    paths@[ib as int]@,
                ));
                lemma_conn_step(match_pairs(matches@), paths@[ia as int]@, paths@[ib as int]@);
                // Relabelling preserves soundness: a new equality joins
                // the two classes through that link.
                assert forall|i2: int, j2: int|
                    0 <= i2 < comp@.len() && 0 <= j2 < comp@.len() && comp@[i2]
                        == comp@[j2] implies spec_connected(
                    matches@,
                    (#[trigger] paths@[i2])@,
                    (#[trigger] paths@[j2])@,
                ) by {
                    let mp = match_pairs(matches@);
                    if comp_pre[i2] == comp_pre[j2] {
                    } else if comp_pre[i2] == cb && comp_pre[j2] == ca {
                        assert(spec_connected(matches@, paths@[i2]@, paths@[ib as int]@));
                        lemma_conn_sym(mp, paths@[ia as int]@, paths@[ib as int]@);
                        lemma_conn_trans(mp, paths@[i2]@, paths@[ib as int]@, paths@[ia as int]@);
                        assert(spec_connected(matches@, paths@[ia as int]@, paths@[j2]@));
                        lemma_conn_trans(mp, paths@[i2]@, paths@[ia as int]@, paths@[j2]@);
                    } else if comp_pre[i2] == ca && comp_pre[j2] == cb {
                        assert(spec_connected(matches@, paths@[i2]@, paths@[ia as int]@));
                        lemma_conn_trans(mp, paths@[i2]@, paths@[ia as int]@, paths@[ib as int]@);
                        assert(spec_connected(matches@, paths@[ib as int]@, paths@[j2]@));
                        lemma_conn_trans(mp, paths@[i2]@, paths@[ib as int]@, paths@[j2]@);
                    }
                }
                assert forall|i2: int| 0 <= i2 < comp@.len() implies (#[trigger] comp@[i2])
                    < comp@.len() by {
                    assert(comp@[i2] == ca || comp@[i2] == comp_pre[i2]);
                }
                assert forall|kk: int| 0 <= kk < k + 1 implies comp@[(
                #[trigger] idx@[kk]).0 as int] == comp@[idx@[kk].1 as int] by {
                    if kk < k {
                        assert(comp_pre[idx@[kk].0 as int] == comp_pre[idx@[kk].1 as int]);
                    } else {
                        assert(comp@[ia as int] == ca);
                        assert(comp@[ib as int] == ca);
                    }
                }
            }
        } else {
            proof {
                assert forall|kk: int| 0 <= kk < k + 1 implies comp@[(
                #[trigger] idx@[kk]).0 as int] == comp@[idx@[kk].1 as int] by {}
            }
        }
        k = k + 1;
    }
    comp
}

/// Whether index `j` is filed in some bucket.
pub open spec fn in_buckets(buckets: Seq<Vec<usize>>, j: int) -> bool {
    exists|t: int, u: int|
        0 <= t < buckets.len() && 0 <= u < buckets[t]@.len() && (#[trigger] buckets[t]@[u]) == j
}

/// Bucket the path indices by their component label. Returns the
/// distinct labels and, aligned with them, each label's member
/// indices in increasing order.
#[verifier::rlimit(100)]
fn buckets_by_comp(comp: &Vec<usize>) -> (r: (Vec<usize>, Vec<Vec<usize>>))
    ensures
        r.0@.len() == r.1@.len(),
        forall|t: int, t2: int| 0 <= t < t2 < r.0@.len() ==> r.0@[t] != r.0@[t2],
        forall|t: int, u: int|
            0 <= t < r.1@.len() && 0 <= u < r.1@[t]@.len() ==> (#[trigger] r.1@[t]@[u])
                < comp@.len() && comp@[r.1@[t]@[u] as int] == r.0@[t],
        forall|t: int, u: int, u2: int|
            0 <= t < r.1@.len() && 0 <= u < u2 < r.1@[t]@.len() ==> (#[trigger] r.1@[t]@[u]) < (
            #[trigger] r.1@[t]@[u2]),
        forall|j: int| 0 <= j < comp@.len() ==> #[trigger] in_buckets(r.1@, j),
{
    let n = comp.len();
    let mut cids: Vec<usize> = Vec::new();
    let mut buckets: Vec<Vec<usize>> = Vec::new();
    let mut i: usize = 0;
    while i < n
        invariant
            i <= n,
            n == comp@.len(),
            cids@.len() == buckets@.len(),
            forall|t: int, t2: int| 0 <= t < t2 < cids@.len() ==> cids@[t] != cids@[t2],
            forall|t: int, u: int|
                0 <= t < buckets@.len() && 0 <= u < buckets@[t]@.len() ==> (
                #[trigger] buckets@[t]@[u]) < i && comp@[buckets@[t]@[u] as int] == cids@[t],
            forall|t: int, u: int, u2: int|
                0 <= t < buckets@.len() && 0 <= u < u2 < buckets@[t]@.len() ==> (
                #[trigger] buckets@[t]@[u]) < (#[trigger] buckets@[t]@[u2]),
            forall|j: int| 0 <= j < i ==> #[trigger] in_buckets(buckets@, j),
        decreases n - i,
    {
        let c = comp[i];
        let ghost buckets_pre = buckets@;
        match find_usize(&cids, c) {
            Some(t) => {
                let mut bt = buckets.remove(t);
                bt.push(i);
                buckets.insert(t, bt);
                proof {
                    assert(buckets@.len() == buckets_pre.len());
                    assert(forall|tt: int|
                        0 <= tt < buckets@.len() && tt != t ==> #[trigger] buckets@[tt]
                            == buckets_pre[tt]);
                    assert(buckets@[t as int]@ =~= buckets_pre[t as int]@.push(i));
                    assert forall|j: int| 0 <= j < i + 1 implies #[trigger] in_buckets(
                        buckets@,
                        j,
                    ) by {
                        if j == i {
                            assert(buckets@[t as int]@[buckets@[t as int]@.len() - 1] == j);
                        } else {
                            assert(in_buckets(buckets_pre, j));
                            let (t2, u): (int, int) = choose|t2: int, u: int|
                                0 <= t2 < buckets_pre.len() && 0 <= u < buckets_pre[t2]@.len()
                                    && (#[trigger] buckets_pre[t2]@[u]) == j;
                            assert(buckets@[t2]@[u] == j);
                        }
                    }
                }
            },
            None => {
                cids.push(c);
                let mut b0: Vec<usize> = Vec::new();
                b0.push(i);
                buckets.push(b0);
                proof {
                    let last = buckets@.len() - 1;
                    assert(forall|tt: int|
                        0 <= tt < last ==> #[trigger] buckets@[tt] == buckets_pre[tt]);
                    assert(buckets@[last]@ =~= seq![i]);
                    assert forall|j: int| 0 <= j < i + 1 implies #[trigger] in_buckets(
                        buckets@,
                        j,
                    ) by {
                        if j == i {
                            assert(buckets@[last]@[0] == j);
                        } else {
                            assert(in_buckets(buckets_pre, j));
                            let (t2, u): (int, int) = choose|t2: int, u: int|
                                0 <= t2 < buckets_pre.len() && 0 <= u < buckets_pre[t2]@.len()
                                    && (#[trigger] buckets_pre[t2]@[u]) == j;
                            assert(buckets@[t2]@[u] == j);
                        }
                    }
                }
            },
        }
        i = i + 1;
    }
    (cids, buckets)
}

/// Sum of the distances of the matches whose first endpoint lies
/// among the photos; with grouping completeness this is exactly the
/// matches contributing to the group.
pub open spec fn spec_group_dsum(matches: Seq<MatchResult>, photos: Seq<String>) -> int
    decreases matches.len(),
{
    if matches.len() == 0 {
        0
    } else {
        spec_group_dsum(matches.drop_last(), photos) + (if contains_view(
            photos,
            matches.last().photo_a@,
        ) {
            matches.last().distance as int
        } else {
            0
        })
    }
}

/// Number of matches whose first endpoint lies among the photos.
pub open spec fn spec_group_dcount(matches: Seq<MatchResult>, photos: Seq<String>) -> int
    decreases matches.len(),
{
    if matches.len() == 0 {
        0
    } else {
        spec_group_dcount(matches.drop_last(), photos) + (if contains_view(
            photos,
            matches.last().photo_a@,
        ) {
            1int
        } else {
            0
        })
    }
}

/// The most exact (lowest-ordinal) match type among the matches whose
/// first endpoint lies among the photos; `MaybeSimilar` when none
/// does.
pub open spec fn spec_group_best(matches: Seq<MatchResult>, photos: Seq<String>) -> MatchType
    decreases matches.len(),
{
    if matches.len() == 0 {
        MatchType::MaybeSimilar
    } else {
        let rest = spec_group_best(matches.drop_last(), photos);
        if contains_view(photos, matches.last().photo_a@) && matches.last(
        ).match_type.spec_ordinal() < rest.spec_ordinal() {
            matches.last().match_type
        } else {
            rest
        }
    }
}

/// Whether one of the strings reads `x`.
fn contains_string(v: &Vec<String>, x: &String) -> (r: bool)
    ensures
        r == contains_view(v@, x@),
{
    let mut i: usize = 0;
    while i < v.len()
        invariant
            i <= v@.len(),
            forall|j: int| 0 <= j < i ==> (#[trigger] v@[j])@ != x@,
        decreases v@.len() - i,
    {
        if v[i] == *x {
            proof {
                assert((v@[i as int])@ == x@);
            }
            return true;
        }
        i = i + 1;
    }
    proof {
        if contains_view(v@, x@) {
            let j = choose|j: int| 0 <= j < v@.len() && (#[trigger] v@[j])@ == x@;
            assert(false);
        }
    }
    false
}

/// Aggregate the statistics of one group: total distance, match count
/// and most exact type over the matches whose first endpoint is one
/// of the group's photos.
#[verifier::rlimit(100)]
fn group_stats(matches: &Vec<MatchResult>, photos: &Vec<String>) -> (r: (u64, u64, MatchType))
    requires
        matches@.len() < 0x1_0000_0000,
    ensures
        r.0 as int == spec_group_dsum(matches@, photos@),
        r.1 as int == spec_group_dcount(matches@, photos@),
        r.2 == spec_group_best(matches@, photos@),
{
    let mut dsum: u64 = 0;
    let mut dcount: u64 = 0;
    let mut best = MatchType::MaybeSimilar;
    let mut k: usize = 0;
    proof {
        assert(matches@.take(0) =~= Seq::<MatchResult>::empty());
    }
    while k < matches.len()
        invariant
            k <= matches@.len(),
            matches@.len() < 0x1_0000_0000,
            dsum as int == spec_group_dsum(matches@.take(k as int), photos@),
            dcount as int == spec_group_dcount(matches@.take(k as int), photos@),
            best == spec_group_best(matches@.take(k as int), photos@),
            dcount <= k,
            dsum as int <= dcount as int * 0xFFFF_FFFF,
        decreases matches@.len() - k,
    {
        proof {
            assert(matches@.take(k + 1).drop_last() =~= matches@.take(k as int));
            assert(matches@.take(k + 1).last() == matches@[k as int]);
        }
        if contains_string(photos, &matches[k].photo_a) {
            proof {
                assert(dsum + matches@[k as int].distance < 0xFFFF_FFFF_FFFF_FFFF)
                    by (nonlinear_arith)
                    requires
                        dsum as int <= dcount as int * 0xFFFF_FFFF,
                        dcount <= k,
                        k < 0x1_0000_0000,
                        matches@[k as int].distance <= 0xFFFF_FFFF,
                ;
                assert((dcount + 1) as int * 0xFFFF_FFFF >= dsum + matches@[k as int].distance)
                    by (nonlinear_arith)
                    requires
                        dsum as int <= dcount as int * 0xFFFF_FFFF,
                        matches@[k as int].distance <= 0xFFFF_FFFF,
                ;
            }
            dsum = dsum + matches[k].distance as u64;
            dcount = dcount + 1;
            if matches[k].match_type.ordinal() < best.ordinal() {
                best = matches[k].match_type;
            }
        }
        k = k + 1;
    }
    proof {
        assert(matches@.take(matches@.len() as int) =~= matches@);
    }
    (dsum, dcount, best)
}

/// Whether a group holds every photo of the bucket.
pub open spec fn group_holds_bucket(
    grp: DuplicateGroup,
    bucket: Seq<usize>,
    paths: Seq<String>,
) -> bool {
    forall|u: int|
        0 <= u < bucket.len() ==> contains_view(grp.photos@, paths[(#[trigger] bucket[u]) as int]@)
}

/// Whether some group of the list holds every photo of the bucket.
pub open spec fn bucket_grouped(
    bucket: Seq<usize>,
    paths: Seq<String>,
    out: Seq<DuplicateGroup>,
) -> bool {
    exists|g: int| 0 <= g < out.len() && group_holds_bucket(#[trigger] out[g], bucket, paths)
}

/// A bucket held by some group is still held after more groups are
/// appended.
proof fn lemma_bucket_grouped_push(
    bucket: Seq<usize>,
    paths: Seq<String>,
    out: Seq<DuplicateGroup>,
    x: DuplicateGroup,
)
    requires
        bucket_grouped(bucket, paths, out),
    ensures
        bucket_grouped(bucket, paths, out.push(x)),
{
    let g = choose|g: int| 0 <= g < out.len() && group_holds_bucket(#[trigger] out[g], bucket, paths);
    assert(out.push(x)[g] == out[g]);
    assert(group_holds_bucket(out.push(x)[g], bucket, paths));
}

impl TransitiveGrouper {
    /// Create a new grouper.
    pub fn new() -> (r: TransitiveGrouper) {
        TransitiveGrouper {  }
    }

    /// Group the matches into duplicate clusters: the connected
    /// components of the match relation with at least two photos.
    ///
    /// Every returned group holds at least two pairwise distinct
    /// photos, sorted with the representative first; any two photos
    /// of a group are connected by a chain of matches; no photo
    /// appears in two groups; the two endpoints of every match with
    /// distinct paths share a group; and each group carries the
    /// distance sum, match count and most exact type of exactly the
    /// matches whose endpoints lie in it.
    #[verifier::rlimit(100)]
    pub fn group(&self, matches: &Vec<MatchResult>) -> (r: Vec<DuplicateGroup>)
        requires
            matches@.len() < 0x1_0000_0000,
        ensures
            matches@.len() == 0 ==> r@.len() == 0,
            forall|g: int| 0 <= g < r@.len() ==> (#[trigger] r@[g]).photos@.len() >= 2,
            forall|g: int| 0 <= g < r@.len() ==> (#[trigger] r@[g]).id == g,
            forall|g: int| 0 <= g < r@.len() ==> sorted_views((#[trigger] r@[g]).photos@),
            forall|g: int|
                0 <= g < r@.len() ==> (#[trigger] r@[g]).representative == r@[g].photos@[0],
            forall|g: int, i: int, j: int|
                0 <= g < r@.len() && 0 <= i < j < r@[g].photos@.len() ==> (
                #[trigger] r@[g].photos@[i])@ != (#[trigger] r@[g].photos@[j])@,
            forall|g: int, i: int, j: int|
                0 <= g < r@.len() && 0 <= i < r@[g].photos@.len() && 0 <= j
                    < r@[g].photos@.len() ==> spec_connected(
                    matches@,
                    (#[trigger] r@[g].photos@[i])@,
                    (#[trigger] r@[g].photos@[j])@,
                ),
            forall|g1: int, g2: int, i1: int, i2: int|
                0 <= g1 < r@.len() && 0 <= g2 < r@.len() && g1 != g2
                    && 0 <= i1 < r@[g1].photos@.len() && 0 <= i2 < r@[g2].photos@.len() ==> (
                #[trigger] r@[g1].photos@[i1])@ != (#[trigger] r@[g2].photos@[i2])@,
            forall|k: int|
                0 <= k < matches@.len() && (#[trigger] matches@[k]).photo_a@
                    != matches@[k].photo_b@ ==> exists|g: int|
                    0 <= g < r@.len() && contains_view(
                        (#[trigger] r@[g]).photos@,
                        matches@[k].photo_a@,
                    ) && contains_view(r@[g].photos@, matches@[k].photo_b@),
            forall|g: int|
                0 <= g < r@.len() ==> (#[trigger] r@[g]).distance_sum as int == spec_group_dsum(
                    matches@,
                    r@[g].photos@,
                ) && r@[g].match_count as int == spec_group_dcount(matches@, r@[g].photos@)
                    && r@[g].match_type == spec_group_best(matches@, r@[g].photos@),
    {
        let mut out: Vec<DuplicateGroup> = Vec::new();
        if matches.len() == 0 {
            return out;
        }
        let collected = collect_paths(matches);
        let (paths, idx) = collected;
        let comp = component_labels(&paths, &idx, matches);
        let pair = buckets_by_comp(&comp);
        let (cids, buckets) = pair;
        let n = paths.len();
        let mut t: usize = 0;
        while t < buckets.len()
            invariant
                n == paths@.len(),
                comp@.len() == n,
                distinct_views(paths@),
                matches@.len() < 0x1_0000_0000,
                idx@.len() == matches@.len(),
                forall|k: int|
                    0 <= k < matches@.len() ==> {
                        &&& (#[trigger] idx@[k]).0 < n
                        &&& idx@[k].1 < n
                        &&& paths@[idx@[k].0 as int]@ == matches@[k].photo_a@
                        &&& paths@[idx@[k].1 as int]@ == matches@[k].photo_b@
                    },
                forall|i2: int| 0 <= i2 < n ==> (#[trigger] comp@[i2]) < n,
                forall|i2: int, j2: int|
                    0 <= i2 < n && 0 <= j2 < n && comp@[i2] == comp@[j2] ==> spec_connected(
                        matches@,
                        (#[trigger] paths@[i2])@,
                        (#[trigger] paths@[j2])@,
                    ),
                forall|k: int|
                    0 <= k < matches@.len() ==> comp@[(#[trigger] idx@[k]).0 as int] == comp@[
                        idx@[k].1 as int
                    ],
                cids@.len() == buckets@.len(),
                t <= buckets@.len(),
                forall|t2: int, t3: int| 0 <= t2 < t3 < cids@.len() ==> cids@[t2] != cids@[t3],
                forall|t2: int, u: int|
                    0 <= t2 < buckets@.len() && 0 <= u < buckets@[t2]@.len() ==> (
                    #[trigger] buckets@[t2]@[u]) < n && comp@[buckets@[t2]@[u] as int] == cids@[
                        t2
                    ],
                forall|t2: int, u: int, u2: int|
                    0 <= t2 < buckets@.len() && 0 <= u < u2 < buckets@[t2]@.len() ==> (
                    #[trigger] buckets@[t2]@[u]) < (#[trigger] buckets@[t2]@[u2]),
                forall|j: int| 0 <= j < n ==> #[trigger] in_buckets(buckets@, j),
                forall|g: int| 0 <= g < out@.len() ==> (#[trigger] out@[g]).photos@.len() >= 2,
                forall|g: int| 0 <= g < out@.len() ==> (#[trigger] out@[g]).id == g,
                forall|g: int| 0 <= g < out@.len() ==> sorted_views((#[trigger] out@[g]).photos@),
                forall|g: int|
                    0 <= g < out@.len() ==> (#[trigger] out@[g]).representative
                        == out@[g].photos@[0],
                forall|g: int, i2: int, j2: int|
                    0 <= g < out@.len() && 0 <= i2 < j2 < out@[g].photos@.len() ==> (
                    #[trigger] out@[g].photos@[i2])@ != (#[trigger] out@[g].photos@[j2])@,
                forall|g: int, i2: int, j2: int|
                    0 <= g < out@.len() && 0 <= i2 < out@[g].photos@.len() && 0 <= j2
                        < out@[g].photos@.len() ==> spec_connected(
                        matches@,
                        (#[trigger] out@[g].photos@[i2])@,
                        (#[trigger] out@[g].photos@[j2])@,
                    ),
                forall|g: int, i2: int|
                    0 <= g < out@.len() && 0 <= i2 < out@[g].photos@.len() ==> exists|tt: int,
                    u: int|
                        0 <= tt < t && 0 <= u < buckets@[tt]@.len() && (
                        #[trigger] out@[g].photos@[i2])@ == paths@[buckets@[tt]@[u] as int]@,
                forall|g1: int, g2: int, i1: int, i2: int|
                    0 <= g1 < out@.len() && 0 <= g2 < out@.len() && g1 != g2
                        && 0 <= i1 < out@[g1].photos@.len() && 0 <= i2 < out@[g2].photos@.len()
                        ==> (#[trigger] out@[g1].photos@[i1])@ != (
                    #[trigger] out@[g2].photos@[i2])@,
                forall|tt: int|
                    0 <= tt < t && buckets@[tt]@.len() >= 2 ==> bucket_grouped(
                        (#[trigger] buckets@[tt])@,
                        paths@,
                        out@,
                    ),
                forall|g: int|
                    0 <= g < out@.len() ==> (#[trigger] out@[g]).distance_sum as int
                        == spec_group_dsum(matches@, out@[g].photos@) && out@[
                        g
                    ].match_count as int == spec_group_dcount(matches@, out@[g].photos@) && out@[
                        g
                    ].match_type == spec_group_best(matches@, out@[g].photos@),
            decreases buckets@.len() - t,
        {
            let blen = buckets[t].len();
            if blen >= 2 {
                let mut member_paths: Vec<String> = Vec::new();
                let mut u: usize = 0;
                while u < blen
                    invariant
                        n == paths@.len(),
                        t < buckets@.len(),
                        blen == buckets@[t as int]@.len(),
                        u <= blen,
                        member_paths@.len() == u,
                        forall|t2: int, u2: int|
                            0 <= t2 < buckets@.len() && 0 <= u2 < buckets@[t2]@.len() ==> (
                            #[trigger] buckets@[t2]@[u2]) < n,
                        forall|uu: int|
                            0 <= uu < u ==> (#[trigger] member_paths@[uu]) == paths@[buckets@[
                                t as int
                            ]@[uu] as int],
                    decreases blen - u,
                {
                    let bidx = buckets[t][u];
                    member_paths.push(paths[bidx].clone());
                    u = u + 1;
                }
                let ghost members = member_paths@;
                let sorted = sort_paths(member_paths);
                let stats = group_stats(matches, &sorted);
                let (dsum, dcount, best) = stats;
                let representative = sorted[0].clone();
                let mut grp = DuplicateGroup::new(sorted, representative, best);
                grp.id = out.len() as u64;
                grp.distance_sum = dsum;
                grp.match_count = dcount;
                proof {
                    grp.photos@.to_multiset_ensures();
                    members.to_multiset_ensures();
                    // Every sorted photo is a bucket member and back.
                    assert forall|i2: int| 0 <= i2 < grp.photos@.len() implies members.contains(
                        #[trigger] grp.photos@[i2],
                    ) by {
                        assert(grp.photos@.contains(grp.photos@[i2]));
                        assert(grp.photos@.to_multiset().count(grp.photos@[i2]) > 0);
                    }
                    assert forall|u2: int| 0 <= u2 < members.len() implies grp.photos@.contains(
                        #[trigger] members[u2],
                    ) by {
                        assert(members.contains(members[u2]));
                        assert(members.to_multiset().count(members[u2]) > 0);
                    }
                    // Members carry pairwise distinct views.
                    assert forall|u2: int, u3: int| 0 <= u2 < u3 < members.len() implies (
                    #[trigger] members[u2])@ != (#[trigger] members[u3])@ by {
                        let b2 = buckets@[t as int]@[u2] as int;
                        let b3 = buckets@[t as int]@[u3] as int;
                        assert(b2 < b3);
                        assert((paths@[b2])@ != (paths@[b3])@);
                    }
                    assert(members.no_duplicates()) by {
                        assert forall|u2: int, u3: int|
                            0 <= u2 < members.len() && 0 <= u3 < members.len() && u2
                                != u3 implies members[u2] != members[u3] by {
                            if u2 < u3 {
                                assert(members[u2]@ != members[u3]@);
                            } else {
                                assert(members[u3]@ != members[u2]@);
                            }
                        }
                    }
                    members.lemma_multiset_has_no_duplicates();
                    grp.photos@.lemma_multiset_has_no_duplicates_conv();
                    // Hence the sorted photos are pairwise distinct too.
                    assert forall|i2: int, j2: int|
                        0 <= i2 < j2 < grp.photos@.len() implies (#[trigger] grp.photos@[i2])@
                        != (#[trigger] grp.photos@[j2])@ by {
                        assert(grp.photos@[i2] != grp.photos@[j2]);
                        let u2 = choose|u2: int|
                            0 <= u2 < members.len() && #[trigger] members[u2] == grp.photos@[i2];
                        let u3 = choose|u3: int|
                            0 <= u3 < members.len() && #[trigger] members[u3] == grp.photos@[j2];
                        assert(u2 != u3);
                        if u2 < u3 {
                            assert(members[u2]@ != members[u3]@);
                        } else {
                            assert(members[u3]@ != members[u2]@);
                        }
                    }
                    // Connectivity: equal component labels.
                    assert forall|i2: int, j2: int|
                        0 <= i2 < grp.photos@.len() && 0 <= j2 < grp.photos@.len()
                        implies spec_connected(
                        matches@,
                        (#[trigger] grp.photos@[i2])@,
                        (#[trigger] grp.photos@[j2])@,
                    ) by {
                        let u2 = choose|u2: int|
                            0 <= u2 < members.len() && #[trigger] members[u2] == grp.photos@[i2];
                        let u3 = choose|u3: int|
                            0 <= u3 < members.len() && #[trigger] members[u3] == grp.photos@[j2];
                        let b2 = buckets@[t as int]@[u2] as int;
                        let b3 = buckets@[t as int]@[u3] as int;
                        assert(comp@[b2] == cids@[t as int]);
                        assert(comp@[b3] == cids@[t as int]);
                        assert(spec_connected(matches@, paths@[b2]@, paths@[b3]@));
                    }
                    // Provenance: filed under bucket t.
                    assert forall|i2: int| 0 <= i2 < grp.photos@.len() implies exists|tt: int,
                    u2: int|
                        0 <= tt < t + 1 && 0 <= u2 < buckets@[tt]@.len() && (
                        #[trigger] grp.photos@[i2])@ == paths@[buckets@[tt]@[u2] as int]@ by {
                        let u2 = choose|u2: int|
                            0 <= u2 < members.len() && #[trigger] members[u2] == grp.photos@[i2];
                        assert((grp.photos@[i2])@ == paths@[buckets@[t as int]@[u2] as int]@);
                    }
                    // And the whole bucket is held by this group.
                    assert forall|u2: int| 0 <= u2 < buckets@[t as int]@.len()
                        implies contains_view(
                        grp.photos@,
                        paths@[(#[trigger] buckets@[t as int]@[u2]) as int]@,
                    ) by {
                        assert(grp.photos@.contains(members[u2]));
                        let i2 = choose|i2: int|
                            0 <= i2 < grp.photos@.len() && #[trigger] grp.photos@[i2] == members[
                                u2
                            ];
                        assert((grp.photos@[i2])@ == paths@[buckets@[t as int]@[u2] as int]@);
                    }
                    assert(group_holds_bucket(grp, buckets@[t as int]@, paths@));
                }
                let ghost out_pre = out@;
                out.push(grp);
                proof {
                    assert forall|g: int, i2: int|
                        0 <= g < out@.len() && 0 <= i2 < out@[g].photos@.len() implies exists|
                        tt: int,
                        u2: int,
                    |
                        0 <= tt < t + 1 && 0 <= u2 < buckets@[tt]@.len() && (
                        #[trigger] out@[g].photos@[i2])@ == paths@[buckets@[tt]@[u2] as int]@ by {
                        if g < out_pre.len() {
                            assert(out@[g] == out_pre[g]);
                            let (tt, u2): (int, int) = choose|tt: int, u2: int|
                                0 <= tt < t && 0 <= u2 < buckets@[tt]@.len() && (
                                #[trigger] out_pre[g].photos@[i2])@ == paths@[buckets@[tt]@[
                                    u2
                                ] as int]@;
                            assert((out@[g].photos@[i2])@ == paths@[buckets@[tt]@[u2] as int]@);
                        }
                    }
                    assert forall|g1: int, g2: int, i1: int, i2: int|
                        0 <= g1 < out@.len() && 0 <= g2 < out@.len() && g1 != g2 && 0 <= i1
                            < out@[g1].photos@.len() && 0 <= i2 < out@[g2].photos@.len()
                        implies (#[trigger] out@[g1].photos@[i1])@ != (
                    #[trigger] out@[g2].photos@[i2])@ by {
                        if g1 < out_pre.len() && g2 < out_pre.len() {
                        } else {
                            let go = if g1 < out_pre.len() {
                                g1
                            } else {
                                g2
                            };
                            let io = if g1 < out_pre.len() {
                                i1
                            } else {
                                i2
                            };
                            let gn = if g1 < out_pre.len() {
                                g2
                            } else {
                                g1
                            };
                            let inn = if g1 < out_pre.len() {
                                i2
                            } else {
                                i1
                            };
                            assert(out@[gn] == grp);
                            let (tt, u2): (int, int) = choose|tt: int, u2: int|
                                0 <= tt < t && 0 <= u2 < buckets@[tt]@.len() && (
                                #[trigger] out_pre[go].photos@[io])@ == paths@[buckets@[tt]@[
                                    u2
                                ] as int]@;
                            assert(grp.photos@.contains(grp.photos@[inn]));
                            assert(members.contains(grp.photos@[inn]));
                            let u3 = choose|u3: int|
                                0 <= u3 < members.len() && #[trigger] members[u3]
                                    == grp.photos@[inn];
                            let bo = buckets@[tt]@[u2] as int;
                            let bn = buckets@[t as int]@[u3] as int;
                            // Different components, hence different paths.
                            assert(comp@[bo] == cids@[tt]);
                            assert(comp@[bn] == cids@[t as int]);
                            assert(cids@[tt] != cids@[t as int]);
                            assert(bo != bn);
                            assert((paths@[bo])@ != (paths@[bn])@);
                        }
                    }
                    assert forall|tt: int|
                        0 <= tt < t + 1 && buckets@[tt]@.len() >= 2 implies bucket_grouped(
                        (#[trigger] buckets@[tt])@,
                        paths@,
                        out@,
                    ) by {
                        if tt < t {
                            assert(bucket_grouped(buckets@[tt]@, paths@, out_pre));
                            lemma_bucket_grouped_push(buckets@[tt]@, paths@, out_pre, grp);
                            assert(out@ == out_pre.push(grp));
                        } else {
                            let g = out@.len() - 1;
                            assert(out@[g] == grp);
                            assert(group_holds_bucket(out@[g], buckets@[tt]@, paths@));
                        }
                    }
                }
            } else {
                proof {
                    assert forall|tt: int|
                        0 <= tt < t + 1 && buckets@[tt]@.len() >= 2 implies bucket_grouped(
                        (#[trigger] buckets@[tt])@,
                        paths@,
                        out@,
                    ) by {
                        if tt < t {
                        } else {
                            assert(buckets@[tt]@.len() < 2);
                        }
                    }
                }
            }
            t = t + 1;
        }
        proof {
            // Completeness: every match with distinct endpoint paths
            // lands in one group.
            assert forall|k: int|
                0 <= k < matches@.len() && (#[trigger] matches@[k]).photo_a@
                    != matches@[k].photo_b@ implies exists|g: int|
                0 <= g < out@.len() && contains_view(
                    (#[trigger] out@[g]).photos@,
                    matches@[k].photo_a@,
                ) && contains_view(out@[g].photos@, matches@[k].photo_b@) by {
                let ia = idx@[k].0 as int;
                let ib = idx@[k].1 as int;
                assert(paths@[ia]@ != paths@[ib]@);
                assert(ia != ib);
                assert(in_buckets(buckets@, ia));
                assert(in_buckets(buckets@, ib));
                let (ta, ua): (int, int) = choose|ta: int, ua: int|
                    0 <= ta < buckets@.len() && 0 <= ua < buckets@[ta]@.len() && (
                    #[trigger] buckets@[ta]@[ua]) == ia;
                let (tb, ub): (int, int) = choose|tb: int, ub: int|
                    0 <= tb < buckets@.len() && 0 <= ub < buckets@[tb]@.len() && (
                    #[trigger] buckets@[tb]@[ub]) == ib;
                assert(cids@[ta] == comp@[ia]);
                assert(cids@[tb] == comp@[ib]);
                assert(comp@[ia] == comp@[ib]);
                assert forall|t2: int, t3: int|
                    0 <= t2 < cids@.len() && 0 <= t3 < cids@.len() && cids@[t2]
                        == cids@[t3] implies t2 == t3 by {
                    if t2 < t3 {
                        assert(cids@[t2] != cids@[t3]);
                    } else if t3 < t2 {
                        assert(cids@[t3] != cids@[t2]);
                    }
                }
                assert(ta == tb);
                assert(ua != ub);
                assert(buckets@[ta]@.len() >= 2);
                assert(bucket_grouped(buckets@[ta]@, paths@, out@));
                let g = choose|g: int|
                    0 <= g < out@.len() && group_holds_bucket(
                        #[trigger] out@[g],
                        buckets@[ta]@,
                        paths@,
                    );
                assert(contains_view(out@[g].photos@, paths@[buckets@[ta]@[ua] as int]@));
                assert(contains_view(out@[g].photos@, paths@[buckets@[ta]@[ub] as int]@));
            }
        }
        out
    }
}

} // verus!
