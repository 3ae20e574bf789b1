//! Stable ordering of table rows.
//!
//! The views sort `(record index, row)` pairs with a stable sort, so rows
//! whose keys compare equal keep the order in which they were listed. Rows
//! are identified here by their position in the listed sequence, and a stable
//! sort by key is exactly a sort by the strict order "key first, then
//! position". That order is total on distinct positions, so the sorted
//! arrangement is unique.
use vstd::prelude::*;
use vstd::multiset::Multiset;
use vstd::seq_lib::lemma_multiset_commutative;

verus! {

/// A strict order on the positions `0..len()` of a listed sequence.
pub trait PositionOrder {
    spec fn len(&self) -> nat;

    spec fn spec_before(&self, a: usize, b: usize) -> bool;

    fn before(&self, a: usize, b: usize) -> (r: bool)
        requires
            a < self.len(),
            b < self.len(),
        ensures
            r == self.spec_before(a, b),
    ;

    proof fn lemma_strict_total(&self, a: usize, b: usize, c: usize)
        requires
            a < self.len(),
            b < self.len(),
            c < self.len(),
        ensures
            !self.spec_before(a, a),
            a != b ==> (self.spec_before(a, b) || self.spec_before(b, a)),
            self.spec_before(a, b) && self.spec_before(b, c) ==> self.spec_before(a, c),
    ;
}

pub open spec fn in_range<O: PositionOrder>(ord: &O, s: Seq<usize>) -> bool {
    forall|k: int| 0 <= k < s.len() ==> #[trigger] s[k] < ord.len()
}

pub open spec fn sorted_by<O: PositionOrder>(ord: &O, s: Seq<usize>) -> bool {
    forall|k: int, l: int| 0 <= k < l < s.len() ==> ord.spec_before(#[trigger] s[k], #[trigger] s[l])
}

/// The positions `0..n` in increasing order.
pub open spec fn identity(n: nat) -> Seq<usize> {
    Seq::new(n, |i: int| i as usize)
}

proof fn lemma_before_trans<O: PositionOrder>(ord: &O, a: usize, b: usize, c: usize)
    requires
        a < ord.len(),
        b < ord.len(),
        c < ord.len(),
        ord.spec_before(a, b),
        ord.spec_before(b, c),
    ensures
        ord.spec_before(a, c),
{
    ord.lemma_strict_total(a, b, c);
}

proof fn lemma_move_to_end<A>(r: Seq<A>, x: A, a: Seq<A>, b: Seq<A>)
    ensures
        (r.push(x) + a + b).to_multiset() == (r + a + (seq![x] + b)).to_multiset(),
{
    lemma_multiset_commutative(r + a, seq![x] + b);
    lemma_multiset_commutative(seq![x], b);
    lemma_multiset_commutative(r.push(x) + a, b);
    lemma_multiset_commutative(r.push(x), a);
    lemma_multiset_commutative(r, seq![x]);
    lemma_multiset_commutative(r, a);
    assert(r.push(x) =~= r + seq![x]);
    assert((r.push(x) + a + b).to_multiset() =~= (r + a + (seq![x] + b)).to_multiset());
}

proof fn lemma_take_first<A>(r: Seq<A>, a: Seq<A>, i: int, b: Seq<A>)
    requires
        0 <= i < a.len(),
    ensures
        r.push(a[i]) + a.skip(i + 1) + b == r + a.skip(i) + b,
{
    assert(r.push(a[i]) + a.skip(i + 1) + b =~= r + a.skip(i) + b);
}

/// Merges two sorted runs of distinct positions into one sorted run.
fn merge<O: PositionOrder>(ord: &O, a: Vec<usize>, b: Vec<usize>) -> (r: Vec<usize>)
    requires
        in_range(ord, a@),
        in_range(ord, b@),
        sorted_by(ord, a@),
        sorted_by(ord, b@),
        a.len() + b.len() <= usize::MAX,
        forall|p: int, q: int| 0 <= p < a.len() && 0 <= q < b.len() ==> #[trigger] a@[p] != #[trigger] b@[q],
    ensures
        r@.to_multiset() == (a@ + b@).to_multiset(),
        in_range(ord, r@),
        sorted_by(ord, r@),
{
    let mut r: Vec<usize> = Vec::new();
    let mut i: usize = 0;
    let mut j: usize = 0;
    assert(r@ + a@.skip(0) + b@.skip(0) =~= a@ + b@);
    while i < a.len() || j < b.len()
        invariant
            i <= a.len(),
            j <= b.len(),
            a.len() + b.len() <= usize::MAX,
            forall|p: int, q: int| 0 <= p < a.len() && 0 <= q < b.len() ==> #[trigger] a@[p] != #[trigger] b@[q],
            in_range(ord, a@),
            in_range(ord, b@),
            sorted_by(ord, a@),
            sorted_by(ord, b@),
            (r@ + a@.skip(i as int) + b@.skip(j as int)).to_multiset() == (a@ + b@).to_multiset(),
            in_range(ord, r@),
            sorted_by(ord, r@),
            forall|k: int, p: int|
                0 <= k < r.len() && i <= p < a.len() ==> ord.spec_before(#[trigger] r@[k], #[trigger] a@[p]),
            forall|k: int, p: int|
                0 <= k < r.len() && j <= p < b.len() ==> ord.spec_before(#[trigger] r@[k], #[trigger] b@[p]),
        decreases a.len() + b.len() - i - j,
    {
        let take_a = if i < a.len() && j < b.len() {
            ord.before(a[i], b[j])
        } else {
            i < a.len()
        };
        let ghost old_r = r@;
        if take_a {
            let x = a[i];
            proof {
                assert forall|p: int| j <= p < b.len() implies ord.spec_before(x, #[trigger] b@[p]) by {
                    if p > j {
                        lemma_before_trans(ord, x, b@[j as int], b@[p]);
                    }
                }
                lemma_take_first(old_r, a@, i as int, b@.skip(j as int));
            }
            r.push(x);
            i = i + 1;
        } else {
            let x = b[j];
            proof {
                if i < a.len() {
                    assert(a@[i as int] != b@[j as int]);
                    ord.lemma_strict_total(a@[i as int], x, x);
                }
                assert forall|p: int| i <= p < a.len() implies ord.spec_before(x, #[trigger] a@[p]) by {
                    if p > i {
                        lemma_before_trans(ord, x, a@[i as int], a@[p]);
                    }
                }
                assert(b@.skip(j as int) =~= seq![x] + b@.skip(j + 1));
                lemma_move_to_end(old_r, x, a@.skip(i as int), b@.skip(j + 1));
            }
            r.push(x);
            j = j + 1;
        }
    }
    assert(r@ =~= r@ + a@.skip(i as int) + b@.skip(j as int));
    r
}

/// Sorts distinct positions by `ord`.
pub fn sort_positions<O: PositionOrder>(ord: &O, v: Vec<usize>) -> (r: Vec<usize>)
    requires
        in_range(ord, v@),
        v@.no_duplicates(),
    ensures
        r@.to_multiset() == v@.to_multiset(),
        in_range(ord, r@),
        sorted_by(ord, r@),
    decreases v.len(),
{
    broadcast use vstd::seq_lib::to_multiset_contains;

    if v.len() <= 1 {
        return v;
    }
    let mut left = v;
    let mid = left.len() / 2;
    let ghost whole = left@;
    let right = left.split_off(mid);
    assert(whole =~= left@ + right@);
    let sl = sort_positions(ord, left);
    let sr = sort_positions(ord, right);
    proof {
        lemma_multiset_commutative(sl@, sr@);
        vstd::seq_lib::to_multiset_len(sl@);
        vstd::seq_lib::to_multiset_len(sr@);
        vstd::seq_lib::to_multiset_len(whole.take(mid as int));
        vstd::seq_lib::to_multiset_len(whole.skip(mid as int));
        lemma_multiset_commutative(whole.take(mid as int), whole.skip(mid as int));
        assert forall|p: int, q: int| 0 <= p < sl.len() && 0 <= q < sr.len() implies #[trigger] sl@[p] != #[trigger] sr@[q] by {
            assert(sl@.to_multiset().count(sl@[p]) > 0);
            assert(sr@.to_multiset().count(sr@[q]) > 0);
            let x = sl@[p];
            if x == sr@[q] {
                let lt = whole.take(mid as int);
                let rt = whole.skip(mid as int);
                assert(lt.contains(x));
                assert(rt.contains(x));
                let pl = choose|k: int| 0 <= k < lt.len() && #[trigger] lt[k] == x;
                let pr = choose|k: int| 0 <= k < rt.len() && #[trigger] rt[k] == x;
                assert(whole[pl] == whole[mid + pr]);
            }
        }
    }
    merge(ord, sl, sr)
}

/// The positions `0..ord.len()` arranged by `ord`.
pub fn sorted_order<O: PositionOrder>(ord: &O, n: usize) -> (r: Vec<usize>)
    requires
        ord.len() == n,
    ensures
        r@.to_multiset() == identity(n as nat).to_multiset(),
        r.len() == n,
        in_range(ord, r@),
        sorted_by(ord, r@),
{
    let mut v: Vec<usize> = Vec::new();
    for i in 0..n
        invariant
            v@ == identity(i as nat),
            ord.len() == n,
    {
        v.push(i);
        assert(v@ =~= identity((i + 1) as nat));
    }
    proof {
        assert(in_range(ord, v@));
        assert(v@.no_duplicates());
    }
    let r = sort_positions(ord, v);
    proof {
        vstd::seq_lib::to_multiset_len(r@);
        vstd::seq_lib::to_multiset_len(v@);
    }
    r
}

} // verus!

verus! {

/// `r` lists its elements in increasing order of `before`.
pub open spec fn sorted_seq(r: Seq<usize>, before: spec_fn(usize, usize) -> bool) -> bool {
    forall|k: int, l: int| 0 <= k < l < r.len() ==> before(#[trigger] r[k], #[trigger] r[l])
}

/// `before` is a strict total order on the elements of `s`.
pub open spec fn strict_total_on(s: Seq<usize>, before: spec_fn(usize, usize) -> bool) -> bool {
    &&& forall|a: usize| #[trigger] s.contains(a) ==> !before(a, a)
    &&& forall|a: usize, b: usize|
        s.contains(a) && s.contains(b) && a != b ==> #[trigger] before(a, b) || #[trigger] before(b, a)
    &&& forall|a: usize, b: usize| s.contains(a) && s.contains(b) && #[trigger] before(a, b) ==> !before(b, a)
}

/// The elements of `s` arranged in increasing order of `before`.
pub open spec fn arranged(s: Seq<usize>, before: spec_fn(usize, usize) -> bool) -> Seq<usize> {
    choose|r: Seq<usize>| r.to_multiset() == s.to_multiset() && sorted_seq(r, before)
}

/// Two arrangements of the same elements in increasing order of a strict
/// total order are the same sequence.
pub proof fn lemma_sorted_unique(r1: Seq<usize>, r2: Seq<usize>, before: spec_fn(usize, usize) -> bool)
    requires
        r1.to_multiset() == r2.to_multiset(),
        sorted_seq(r1, before),
        sorted_seq(r2, before),
        strict_total_on(r1, before),
    ensures
        r1 == r2,
    decreases r1.len(),
{
    broadcast use vstd::seq_lib::to_multiset_contains;

    vstd::seq_lib::to_multiset_len(r1);
    vstd::seq_lib::to_multiset_len(r2);
    if r1.len() == 0 {
        assert(r1 =~= r2);
    } else {
        let x = r1[0];
        let y = r2[0];
        assert(r1.to_multiset().count(y) > 0);
        assert(r2.to_multiset().count(x) > 0);
        assert(r1.contains(y));
        assert(r2.contains(x));
        let k = choose|k: int| 0 <= k < r1.len() && r1[k] == y;
        let m = choose|m: int| 0 <= m < r2.len() && r2[m] == x;
        if x != y {
            assert(k > 0 ==> before(x, y));
            assert(m > 0 ==> before(y, x));
            assert(r1.contains(x));
        }
        assert(x == y);
        let t1 = r1.drop_first();
        let t2 = r2.drop_first();
        assert(r1.remove(0) =~= t1);
        assert(r2.remove(0) =~= t2);
        vstd::seq_lib::to_multiset_remove(r1, 0);
        vstd::seq_lib::to_multiset_remove(r2, 0);
        assert forall|a: usize| #[trigger] t1.contains(a) implies r1.contains(a) by {
            let i = choose|i: int| 0 <= i < t1.len() && t1[i] == a;
            assert(r1[i + 1] == a);
        }
        assert(sorted_seq(t1, before)) by {
            assert forall|k: int, l: int| 0 <= k < l < t1.len() implies before(#[trigger] t1[k], #[trigger] t1[l]) by {
                assert(t1[k] == r1[k + 1] && t1[l] == r1[l + 1]);
            }
        }
        assert(sorted_seq(t2, before)) by {
            assert forall|k: int, l: int| 0 <= k < l < t2.len() implies before(#[trigger] t2[k], #[trigger] t2[l]) by {
                assert(t2[k] == r2[k + 1] && t2[l] == r2[l + 1]);
            }
        }
        lemma_sorted_unique(t1, t2, before);
        assert(r1 =~= seq![x] + t1);
        assert(r2 =~= seq![y] + t2);
    }
}

/// A sorted permutation is the arrangement.
pub proof fn lemma_is_arranged(s: Seq<usize>, r: Seq<usize>, before: spec_fn(usize, usize) -> bool)
    requires
        r.to_multiset() == s.to_multiset(),
        sorted_seq(r, before),
        strict_total_on(r, before),
    ensures
        arranged(s, before) == r,
{
    let a = arranged(s, before);
    assert(a.to_multiset() == s.to_multiset() && sorted_seq(a, before));
    lemma_sorted_unique(r, a, before);
}

} // verus!

verus! {

proof fn lemma_same_elements_same_multiset(s1: Seq<usize>, s2: Seq<usize>)
    requires
        s1.no_duplicates(),
        s2.no_duplicates(),
        forall|a: usize| s1.contains(a) <==> s2.contains(a),
    ensures
        s1.to_multiset() == s2.to_multiset(),
{
    broadcast use vstd::seq_lib::to_multiset_contains;

    s1.lemma_multiset_has_no_duplicates();
    s2.lemma_multiset_has_no_duplicates();
    assert forall|a: usize| s1.to_multiset().count(a) == s2.to_multiset().count(a) by {
        if s1.contains(a) {
            assert(s1.to_multiset().contains(a));
            assert(s2.to_multiset().contains(a));
        } else {
            assert(!s2.contains(a));
        }
    }
    assert(s1.to_multiset() =~= s2.to_multiset());
}

proof fn lemma_identity_no_dup(n: nat)
    requires
        n <= usize::MAX,
    ensures
        identity(n).no_duplicates(),
        forall|a: usize| identity(n).contains(a) <==> (a as int) < n,
{
    assert forall|a: usize| (a as int) < n implies identity(n).contains(a) by {
        assert(identity(n)[a as int] == a);
    }
}

/// `r[k] == idx[pos[k]]`, where `pos` lists the positions of `idx` in some
/// order: `r` holds the elements of `idx`, each once.
proof fn lemma_gathered_is_permutation(idx: Seq<usize>, pos: Seq<usize>, r: Seq<usize>)
    requires
        idx.len() <= usize::MAX,
        idx.no_duplicates(),
        pos.to_multiset() == identity(idx.len()).to_multiset(),
        r.len() == pos.len(),
        forall|k: int| 0 <= k < r.len() ==> 0 <= #[trigger] pos[k] < idx.len() && r[k] == idx[pos[k] as int],
    ensures
        r.to_multiset() == idx.to_multiset(),
        r.no_duplicates(),
{
    broadcast use vstd::seq_lib::to_multiset_contains;

    lemma_identity_no_dup(idx.len());
    identity(idx.len()).lemma_multiset_has_no_duplicates();
    assert forall|x: usize| pos.to_multiset().contains(x) implies pos.to_multiset().count(x) == 1 by {}
    pos.lemma_multiset_has_no_duplicates_conv();
    assert forall|a: usize| r.contains(a) <==> idx.contains(a) by {
        if idx.contains(a) {
            let i = choose|i: int| 0 <= i < idx.len() && idx[i] == a;
            assert(identity(idx.len()).contains(i as usize));
            assert(identity(idx.len()).to_multiset().count(i as usize) > 0);
            assert(pos.contains(i as usize));
            let k = choose|k: int| 0 <= k < pos.len() && pos[k] == i as usize;
            assert(r[k] == a);
        }
        if r.contains(a) {
            let k = choose|k: int| 0 <= k < r.len() && r[k] == a;
            assert(idx[pos[k] as int] == a);
        }
    }
    assert(r.no_duplicates()) by {
        assert forall|i: int, j: int| 0 <= i < r.len() && 0 <= j < r.len() && i != j implies r[i] != r[j] by {
            assert(pos[i] != pos[j]);
        }
    }
    lemma_same_elements_same_multiset(r, idx);
}

fn gather(idx: &Vec<usize>, pos: &Vec<usize>) -> (r: Vec<usize>)
    requires
        forall|k: int| 0 <= k < pos.len() ==> #[trigger] pos@[k] < idx.len(),
    ensures
        r.len() == pos.len(),
        forall|k: int| 0 <= k < r.len() ==> #[trigger] r@[k] == idx@[pos@[k] as int],
{
    let mut r: Vec<usize> = Vec::new();
    for k in 0..pos.len()
        invariant
            forall|j: int| 0 <= j < pos.len() ==> #[trigger] pos@[j] < idx.len(),
            r.len() == k,
            forall|j: int| 0 <= j < k ==> #[trigger] r@[j] == idx@[pos@[j] as int],
    {
        r.push(idx[pos[k]]);
    }
    r
}

/// Items keyed by numbers, ordered by key (descending when asked) and then
/// by item.
pub open spec fn number_before(key: spec_fn(usize) -> u64, descending: bool) -> spec_fn(usize, usize) -> bool {
    |a: usize, b: usize|
        if key(a) != key(b) {
            if descending {
                key(a) > key(b)
            } else {
                key(a) < key(b)
            }
        } else {
            a < b
        }
}

/// Items keyed by texts, ordered by key (descending when asked) and then by
/// item.
pub open spec fn text_before(key: spec_fn(usize) -> Seq<char>, descending: bool) -> spec_fn(usize, usize) -> bool {
    |a: usize, b: usize|
        if key(a) != key(b) {
            if descending {
                crate::text::text_less(key(b), key(a))
            } else {
                crate::text::text_less(key(a), key(b))
            }
        } else {
            a < b
        }
}

pub struct NumberKeys {
    pub idx: Vec<usize>,
    pub keys: Vec<u64>,
    pub descending: bool,
}

impl NumberKeys {
    pub open spec fn wf(&self) -> bool {
        self.idx.len() == self.keys.len() && self.idx@.no_duplicates()
    }
}

impl PositionOrder for NumberKeys {
    open spec fn len(&self) -> nat {
        if self.wf() {
            self.keys.len() as nat
        } else {
            0
        }
    }

    open spec fn spec_before(&self, a: usize, b: usize) -> bool {
        if self.keys@[a as int] != self.keys@[b as int] {
            if self.descending {
                self.keys@[a as int] > self.keys@[b as int]
            } else {
                self.keys@[a as int] < self.keys@[b as int]
            }
        } else {
            self.idx@[a as int] < self.idx@[b as int]
        }
    }

    fn before(&self, a: usize, b: usize) -> (r: bool) {
        let ka = self.keys[a];
        let kb = self.keys[b];
        if ka != kb {
            if self.descending {
                ka > kb
            } else {
                ka < kb
            }
        } else {
            self.idx[a] < self.idx[b]
        }
    }

    proof fn lemma_strict_total(&self, a: usize, b: usize, c: usize) {
        if a != b {
            assert(self.idx@[a as int] != self.idx@[b as int]);
        }
    }
}

pub struct TextKeys {
    pub idx: Vec<usize>,
    pub keys: Vec<Vec<char>>,
    pub descending: bool,
}

impl TextKeys {
    pub open spec fn wf(&self) -> bool {
        self.idx.len() == self.keys.len() && self.idx@.no_duplicates()
    }
}

impl PositionOrder for TextKeys {
    open spec fn len(&self) -> nat {
        if self.wf() {
            self.keys.len() as nat
        } else {
            0
        }
    }

    open spec fn spec_before(&self, a: usize, b: usize) -> bool {
        if self.keys@[a as int]@ != self.keys@[b as int]@ {
            if self.descending {
                crate::text::text_less(self.keys@[b as int]@, self.keys@[a as int]@)
            } else {
                crate::text::text_less(self.keys@[a as int]@, self.keys@[b as int]@)
            }
        } else {
            self.idx@[a as int] < self.idx@[b as int]
        }
    }

    fn before(&self, a: usize, b: usize) -> (r: bool) {
        let ka = &self.keys[a];
        let kb = &self.keys[b];
        if !crate::text::chars_eq(ka, kb) {
            if self.descending {
                crate::text::text_lt(kb, ka)
            } else {
                crate::text::text_lt(ka, kb)
            }
        } else {
            self.idx[a] < self.idx[b]
        }
    }

    proof fn lemma_strict_total(&self, a: usize, b: usize, c: usize) {
        let ka = self.keys@[a as int]@;
        let kb = self.keys@[b as int]@;
        let kc = self.keys@[c as int]@;
        crate::text::lemma_text_less_strict_total(ka, kb, kc);
        crate::text::lemma_text_less_strict_total(kc, kb, ka);
        crate::text::lemma_text_less_strict_total(kb, ka, kc);
        crate::text::lemma_text_less_strict_total(kc, ka, kb);
        crate::text::lemma_text_less_strict_total(ka, kc, kb);
        crate::text::lemma_text_less_strict_total(kb, kc, ka);
        if a != b {
            assert(self.idx@[a as int] != self.idx@[b as int]);
        }
    }
}

} // verus!

verus! {

proof fn lemma_number_before_total(key: spec_fn(usize) -> u64, descending: bool, s: Seq<usize>)
    ensures
        strict_total_on(s, number_before(key, descending)),
{
}

proof fn lemma_text_before_total(key: spec_fn(usize) -> Seq<char>, descending: bool, s: Seq<usize>)
    ensures
        strict_total_on(s, text_before(key, descending)),
{
    let before = text_before(key, descending);
    assert forall|a: usize, b: usize| s.contains(a) && s.contains(b) && a != b implies #[trigger] before(a, b) || #[trigger] before(b, a) by {
        crate::text::lemma_text_less_strict_total(key(a), key(b), key(a));
    }
    assert forall|a: usize, b: usize| s.contains(a) && s.contains(b) && #[trigger] before(a, b) implies !before(b, a) by {
        crate::text::lemma_text_less_strict_total(key(a), key(b), key(a));
        crate::text::lemma_text_less_strict_total(key(b), key(a), key(b));
    }
    assert forall|a: usize| #[trigger] s.contains(a) implies !before(a, a) by {
        crate::text::lemma_text_less_strict_total(key(a), key(a), key(a));
    }
}

/// Arranges distinct items by numeric key, then by item.
pub fn arrange_by_number(
    idx: Vec<usize>,
    keys: Vec<u64>,
    descending: bool,
    Ghost(key): Ghost<spec_fn(usize) -> u64>,
) -> (r: Vec<usize>)
    requires
        idx.len() == keys.len(),
        idx@.no_duplicates(),
        forall|k: int| 0 <= k < keys.len() ==> #[trigger] keys@[k] == key(idx@[k]),
    ensures
        r@ == arranged(idx@, number_before(key, descending)),
        r@.to_multiset() == idx@.to_multiset(),
        r.len() == idx.len(),
{
    let n = idx.len();
    let ord = NumberKeys { idx, keys, descending };
    let pos = sorted_order(&ord, n);
    let r = gather(&ord.idx, &pos);
    proof {
        let before = number_before(key, descending);
        lemma_gathered_is_permutation(ord.idx@, pos@, r@);
        assert(sorted_seq(r@, before)) by {
            assert forall|k: int, l: int| 0 <= k < l < r@.len() implies before(#[trigger] r@[k], #[trigger] r@[l]) by {
                assert(ord.spec_before(pos@[k], pos@[l]));
                assert(ord.keys@[pos@[k] as int] == key(r@[k]));
                assert(ord.keys@[pos@[l] as int] == key(r@[l]));
            }
        }
        lemma_number_before_total(key, descending, r@);
        lemma_is_arranged(ord.idx@, r@, before);
    }
    r
}

/// Arranges distinct items by text key, then by item.
pub fn arrange_by_text(
    idx: Vec<usize>,
    keys: Vec<Vec<char>>,
    descending: bool,
    Ghost(key): Ghost<spec_fn(usize) -> Seq<char>>,
) -> (r: Vec<usize>)
    requires
        idx.len() == keys.len(),
        idx@.no_duplicates(),
        forall|k: int| 0 <= k < keys.len() ==> #[trigger] keys@[k]@ == key(idx@[k]),
    ensures
        r@ == arranged(idx@, text_before(key, descending)),
        r@.to_multiset() == idx@.to_multiset(),
        r.len() == idx.len(),
{
    let n = idx.len();
    let ord = TextKeys { idx, keys, descending };
    let pos = sorted_order(&ord, n);
    let r = gather(&ord.idx, &pos);
    proof {
        let before = text_before(key, descending);
        lemma_gathered_is_permutation(ord.idx@, pos@, r@);
        assert(sorted_seq(r@, before)) by {
            assert forall|k: int, l: int| 0 <= k < l < r@.len() implies before(#[trigger] r@[k], #[trigger] r@[l]) by {
                assert(ord.spec_before(pos@[k], pos@[l]));
                assert(ord.keys@[pos@[k] as int]@ == key(r@[k]));
                assert(ord.keys@[pos@[l] as int]@ == key(r@[l]));
            }
        }
        lemma_text_before_total(key, descending, r@);
        lemma_is_arranged(ord.idx@, r@, before);
    }
    r
}

} // verus!

verus! {

/// `before` is a strict total order on all items.
pub open spec fn strict_order(before: spec_fn(usize, usize) -> bool) -> bool {
    &&& forall|a: usize| !(#[trigger] before(a, a))
    &&& forall|a: usize, b: usize| a != b ==> #[trigger] before(a, b) || #[trigger] before(b, a)
    &&& forall|a: usize, b: usize, c: usize| #[trigger] before(a, b) && #[trigger] before(b, c) ==> before(a, c)
}

/// `x` put into the sorted `r` in front of the first item it comes before.
pub open spec fn insert_in_order(x: usize, r: Seq<usize>, before: spec_fn(usize, usize) -> bool) -> Seq<usize>
    decreases r.len(),
{
    if r.len() == 0 {
        seq![x]
    } else if before(x, r[0]) {
        seq![x] + r
    } else {
        seq![r[0]] + insert_in_order(x, r.drop_first(), before)
    }
}

/// The items of `s` sorted by insertion.
pub open spec fn insertion_sorted(s: Seq<usize>, before: spec_fn(usize, usize) -> bool) -> Seq<usize>
    decreases s.len(),
{
    if s.len() == 0 {
        Seq::empty()
    } else {
        insert_in_order(s.last(), insertion_sorted(s.drop_last(), before), before)
    }
}

proof fn lemma_singleton_multiset(x: usize)
    ensures
        seq![x].to_multiset() == Multiset::<usize>::empty().insert(x),
{
    let e = Seq::<usize>::empty();
    vstd::seq_lib::to_multiset_build(e, x);
    assert(e.push(x) =~= seq![x]);
    vstd::seq_lib::to_multiset_len(e);
    vstd::multiset::lemma_multiset_empty_len(e.to_multiset());
}

proof fn lemma_insert_in_order(x: usize, r: Seq<usize>, before: spec_fn(usize, usize) -> bool)
    requires
        strict_order(before),
        sorted_seq(r, before),
        !r.contains(x),
    ensures
        insert_in_order(x, r, before).to_multiset() == r.to_multiset().insert(x),
        sorted_seq(insert_in_order(x, r, before), before),
    decreases r.len(),
{
    broadcast use vstd::seq_lib::to_multiset_contains;

    let out = insert_in_order(x, r, before);
    if r.len() == 0 {
        lemma_singleton_multiset(x);
        vstd::seq_lib::to_multiset_len(r);
        vstd::multiset::lemma_multiset_empty_len(r.to_multiset());
    } else if before(x, r[0]) {
        assert(out =~= seq![x] + r);
        vstd::seq_lib::lemma_multiset_commutative(seq![x], r);
        lemma_singleton_multiset(x);
        assert forall|k: int, l: int| 0 <= k < l < out.len() implies before(#[trigger] out[k], #[trigger] out[l]) by {
            if k == 0 {
                if l > 1 {
                    assert(before(r[0], r[l - 1]));
                }
            } else {
                assert(out[k] == r[k - 1] && out[l] == r[l - 1]);
            }
        }
    } else {
        let rest = r.drop_first();
        assert(r[0] != x);
        assert(before(r[0], x));
        assert(!rest.contains(x)) by {
            if rest.contains(x) {
                let i = choose|i: int| 0 <= i < rest.len() && rest[i] == x;
                assert(r[i + 1] == x);
            }
        }
        assert(sorted_seq(rest, before)) by {
            assert forall|k: int, l: int| 0 <= k < l < rest.len() implies before(#[trigger] rest[k], #[trigger] rest[l]) by {
                assert(rest[k] == r[k + 1] && rest[l] == r[l + 1]);
            }
        }
        lemma_insert_in_order(x, rest, before);
        let tail = insert_in_order(x, rest, before);
        assert(out =~= seq![r[0]] + tail);
        vstd::seq_lib::lemma_multiset_commutative(seq![r[0]], tail);
        vstd::seq_lib::lemma_multiset_commutative(seq![r[0]], rest);
        assert(r =~= seq![r[0]] + rest);
        assert forall|k: int, l: int| 0 <= k < l < out.len() implies before(#[trigger] out[k], #[trigger] out[l]) by {
            if k == 0 {
                let y = tail[l - 1];
                assert(tail.to_multiset().count(y) > 0);
                assert(rest.to_multiset().insert(x).count(y) > 0);
                if y != x {
                    assert(rest.contains(y));
                    let i = choose|i: int| 0 <= i < rest.len() && rest[i] == y;
                    assert(r[i + 1] == y);
                    assert(before(r[0], r[i + 1]));
                }
            } else {
                assert(out[k] == tail[k - 1] && out[l] == tail[l - 1]);
            }
        }
    }
}

proof fn lemma_insertion_sorted(s: Seq<usize>, before: spec_fn(usize, usize) -> bool)
    requires
        strict_order(before),
        s.no_duplicates(),
    ensures
        insertion_sorted(s, before).to_multiset() == s.to_multiset(),
        sorted_seq(insertion_sorted(s, before), before),
    decreases s.len(),
{
    broadcast use vstd::seq_lib::to_multiset_contains;

    if s.len() > 0 {
        let init = s.drop_last();
        assert(init.no_duplicates());
        lemma_insertion_sorted(init, before);
        let r = insertion_sorted(init, before);
        assert(!r.contains(s.last())) by {
            if r.contains(s.last()) {
                assert(r.to_multiset().count(s.last()) > 0);
                assert(init.contains(s.last()));
                let i = choose|i: int| 0 <= i < init.len() && init[i] == s.last();
                assert(s[i] == s[s.len() - 1]);
            }
        }
        lemma_insert_in_order(s.last(), r, before);
        assert(init.push(s.last()) =~= s);
        vstd::seq_lib::to_multiset_build(init, s.last());
    }
}

/// Every list of distinct items has exactly one arrangement under a strict
/// total order: `arranged` lists each item once, in order.
pub proof fn lemma_arranged_sorts(s: Seq<usize>, before: spec_fn(usize, usize) -> bool)
    requires
        strict_order(before),
        s.no_duplicates(),
    ensures
        arranged(s, before).to_multiset() == s.to_multiset(),
        sorted_seq(arranged(s, before), before),
{
    lemma_insertion_sorted(s, before);
    let r = insertion_sorted(s, before);
    assert(r.to_multiset() == s.to_multiset() && sorted_seq(r, before));
}

/// Ordering by a numeric key, ties by item, is a strict total order.
pub proof fn lemma_number_before_order(key: spec_fn(usize) -> u64, descending: bool)
    ensures
        strict_order(number_before(key, descending)),
{
}

/// Ordering by a text key, ties by item, is a strict total order.
pub proof fn lemma_text_before_order(key: spec_fn(usize) -> Seq<char>, descending: bool)
    ensures
        strict_order(text_before(key, descending)),
{
    let before = text_before(key, descending);
    assert forall|a: usize| !(#[trigger] before(a, a)) by {
        crate::text::lemma_text_less_strict_total(key(a), key(a), key(a));
    }
    assert forall|a: usize, b: usize| a != b implies #[trigger] before(a, b) || #[trigger] before(b, a) by {
        crate::text::lemma_text_less_strict_total(key(a), key(b), key(a));
    }
    assert forall|a: usize, b: usize, c: usize| #[trigger] before(a, b) && #[trigger] before(b, c) implies before(
        a,
        c,
    ) by {
        crate::text::lemma_text_less_strict_total(key(a), key(b), key(c));
        crate::text::lemma_text_less_strict_total(key(c), key(b), key(a));
        crate::text::lemma_text_less_strict_total(key(a), key(c), key(b));
        crate::text::lemma_text_less_strict_total(key(b), key(a), key(c));
        crate::text::lemma_text_less_strict_total(key(b), key(c), key(a));
        crate::text::lemma_text_less_strict_total(key(c), key(a), key(b));
    }
}

} // verus!
