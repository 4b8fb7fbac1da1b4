//! Code-point order on strings (the order of `String`'s `Ord`, which
//! compares UTF-8 bytes) and binary search over sorted key lists.
use vstd::prelude::*;

verus! {

/// `a < b` in lexicographic order of code points.
pub open spec fn seq_lt(a: Seq<char>, b: Seq<char>) -> bool
    decreases a.len(),
{
    if b.len() == 0 {
        false
    } else if a.len() == 0 {
        true
    } else if a[0] != b[0] {
        a[0] < b[0]
    } else {
        seq_lt(a.drop_first(), b.drop_first())
    }
}

pub proof fn lemma_lt_irreflexive(a: Seq<char>)
    ensures
        !seq_lt(a, a),
    decreases a.len(),
{
    if a.len() > 0 {
        lemma_lt_irreflexive(a.drop_first());
    }
}

pub proof fn lemma_lt_asymmetric(a: Seq<char>, b: Seq<char>)
    ensures
        seq_lt(a, b) ==> !seq_lt(b, a),
    decreases a.len(),
{
    if a.len() > 0 && b.len() > 0 && a[0] == b[0] {
        lemma_lt_asymmetric(a.drop_first(), b.drop_first());
    }
}

pub proof fn lemma_lt_total(a: Seq<char>, b: Seq<char>)
    ensures
        a != b ==> seq_lt(a, b) || seq_lt(b, a),
    decreases a.len(),
{
    if a.len() > 0 && b.len() > 0 && a[0] == b[0] {
        lemma_lt_total(a.drop_first(), b.drop_first());
        if a.drop_first() == b.drop_first() {
            assert(a =~= seq![a[0]] + a.drop_first());
            assert(b =~= seq![b[0]] + b.drop_first());
        }
    } else if a.len() == 0 && b.len() == 0 {
        assert(a =~= b);
    } else if a.len() > 0 && b.len() > 0 {
        assert(a[0] != b[0]);
    }
}

pub proof fn lemma_lt_transitive(a: Seq<char>, b: Seq<char>, c: Seq<char>)
    requires
        seq_lt(a, b),
        seq_lt(b, c),
    ensures
        seq_lt(a, c),
    decreases a.len(),
{
    if a.len() > 0 && b.len() > 0 && c.len() > 0 && a[0] == b[0] && b[0] == c[0] {
        lemma_lt_transitive(a.drop_first(), b.drop_first(), c.drop_first());
    }
}

proof fn lemma_sorted_head_least(a: Seq<Seq<char>>, i: int)
    requires
        strictly_sorted(a),
        0 < i < a.len(),
    ensures
        seq_lt(a[0], a[i]),
        a[i] != a[0],
{
    assert(seq_lt(a[0], a[i]));
    lemma_lt_irreflexive(a[0]);
}

/// Two strictly sorted key lists that hold the same keys are the same list.
pub proof fn lemma_sorted_same_keys(a: Seq<Seq<char>>, b: Seq<Seq<char>>)
    requires
        strictly_sorted(a),
        strictly_sorted(b),
        forall|x: Seq<char>| a.contains(x) <==> b.contains(x),
    ensures
        a == b,
    decreases a.len(),
{
    if a.len() == 0 {
        if b.len() > 0 {
            assert(b.contains(b[0]));
            assert(a.contains(b[0]));
        }
        assert(a =~= b);
    } else {
        assert(a.contains(a[0]));
        assert(b.contains(a[0]));
        assert(b.len() > 0);
        assert(b.contains(b[0]));
        assert(a.contains(b[0]));
        if a[0] != b[0] {
            let i = choose|i: int| 0 <= i < a.len() && a[i] == b[0];
            let j = choose|j: int| 0 <= j < b.len() && b[j] == a[0];
            lemma_sorted_head_least(a, i);
            lemma_sorted_head_least(b, j);
            lemma_lt_asymmetric(a[0], b[0]);
        }
        let a1 = a.drop_first();
        let b1 = b.drop_first();
        assert(strictly_sorted(a1)) by {
            assert forall|i: int, j: int| 0 <= i < j < a1.len() implies seq_lt(#[trigger] a1[i], #[trigger] a1[j]) by {
                assert(a1[i] == a[i + 1] && a1[j] == a[j + 1]);
            }
        }
        assert(strictly_sorted(b1)) by {
            assert forall|i: int, j: int| 0 <= i < j < b1.len() implies seq_lt(#[trigger] b1[i], #[trigger] b1[j]) by {
                assert(b1[i] == b[i + 1] && b1[j] == b[j + 1]);
            }
        }
        assert forall|x: Seq<char>| a1.contains(x) <==> b1.contains(x) by {
            if a1.contains(x) {
                let k = choose|k: int| 0 <= k < a1.len() && a1[k] == x;
                assert(a[k + 1] == x);
                lemma_sorted_head_least(a, k + 1);
                assert(a.contains(x));
                assert(b.contains(x));
                let m = choose|m: int| 0 <= m < b.len() && b[m] == x;
                assert(m != 0);
                assert(b1[m - 1] == x);
            }
            if b1.contains(x) {
                let k = choose|k: int| 0 <= k < b1.len() && b1[k] == x;
                assert(b[k + 1] == x);
                lemma_sorted_head_least(b, k + 1);
                assert(b.contains(x));
                assert(a.contains(x));
                let m = choose|m: int| 0 <= m < a.len() && a[m] == x;
                assert(m != 0);
                assert(a1[m - 1] == x);
            }
        }
        lemma_sorted_same_keys(a1, b1);
        assert(a =~= seq![a[0]] + a1);
        assert(b =~= seq![b[0]] + b1);
    }
}

/// Whether `a` sorts before `b`.
pub fn lex_less(a: &[char], b: &[char]) -> (r: bool)
    ensures
        r == seq_lt(a@, b@),
{
    let mut i: usize = 0;
    assert(a@.skip(0) =~= a@);
    assert(b@.skip(0) =~= b@);
    while i < a.len() && i < b.len()
        invariant
            i <= a.len(),
            i <= b.len(),
            seq_lt(a@, b@) == seq_lt(a@.skip(i as int), b@.skip(i as int)),
        decreases a.len() - i,
    {
        assert(a@.skip(i as int)[0] == a@[i as int]);
        assert(b@.skip(i as int)[0] == b@[i as int]);
        if a[i] != b[i] {
            return a[i] < b[i];
        }
        assert(a@.skip(i as int).drop_first() =~= a@.skip(i + 1));
        assert(b@.skip(i as int).drop_first() =~= b@.skip(i + 1));
        i = i + 1;
    }
    i < b.len()
}

/// Whether `a` and `b` are the same characters.
pub fn same_chars(a: &[char], b: &[char]) -> (r: bool)
    ensures
        r == (a@ == b@),
{
    if a.len() != b.len() {
        return false;
    }
    let mut i: usize = 0;
    while i < a.len()
        invariant
            a.len() == b.len(),
            i <= a.len(),
            forall|k: int| 0 <= k < i ==> a@[k] == b@[k],
        decreases a.len() - i,
    {
        if a[i] != b[i] {
            return false;
        }
        i = i + 1;
    }
    assert(a@ =~= b@);
    true
}

pub open spec fn key_views(keys: Seq<Vec<char>>) -> Seq<Seq<char>> {
    keys.map_values(|k: Vec<char>| k@)
}

/// Keys in strictly increasing order.
pub open spec fn strictly_sorted(keys: Seq<Seq<char>>) -> bool {
    forall|i: int, j: int| 0 <= i < j < keys.len() ==> seq_lt(#[trigger] keys[i], #[trigger] keys[j])
}

/// Finds `k` in sorted `keys`: its position, or the position where it would
/// go.
pub fn find_slot(keys: &Vec<Vec<char>>, k: &[char]) -> (r: (bool, usize))
    requires
        strictly_sorted(key_views(keys@)),
    ensures
        r.1 <= keys@.len(),
        r.0 ==> r.1 < keys@.len() && keys@[r.1 as int]@ == k@,
        !r.0 ==> (forall|i: int| 0 <= i < r.1 ==> seq_lt(#[trigger] keys@[i]@, k@)) && (forall|i: int|
            r.1 <= i < keys@.len() ==> seq_lt(k@, #[trigger] keys@[i]@)),
{
    let ghost kv = key_views(keys@);
    let mut lo: usize = 0;
    let mut hi: usize = keys.len();
    while lo < hi
        invariant
            lo <= hi <= keys@.len(),
            kv == key_views(keys@),
            strictly_sorted(kv),
            forall|i: int| 0 <= i < lo ==> seq_lt(#[trigger] keys@[i]@, k@),
            forall|i: int| hi <= i < keys@.len() ==> seq_lt(k@, #[trigger] keys@[i]@),
        decreases hi - lo,
    {
        let mid = lo + (hi - lo) / 2;
        let m = keys[mid].as_slice();
        assert(kv[mid as int] == keys@[mid as int]@);
        if same_chars(m, k) {
            return (true, mid);
        }
        if lex_less(m, k) {
            assert forall|i: int| 0 <= i < mid + 1 implies seq_lt(#[trigger] keys@[i]@, k@) by {
                if i < mid {
                    assert(kv[i] == keys@[i]@);
                    assert(seq_lt(kv[i], kv[mid as int]));
                    lemma_lt_transitive(keys@[i]@, keys@[mid as int]@, k@);
                }
            }
            lo = mid + 1;
        } else {
            proof {
                lemma_lt_total(keys@[mid as int]@, k@);
            }
            assert forall|i: int| mid <= i < keys@.len() implies seq_lt(k@, #[trigger] keys@[i]@) by {
                if i > mid {
                    assert(kv[i] == keys@[i]@);
                    assert(seq_lt(kv[mid as int], kv[i]));
                    lemma_lt_transitive(k@, keys@[mid as int]@, keys@[i]@);
                }
            }
            hi = mid;
        }
    }
    (false, lo)
}

} // verus!
verus! {

/// Inserts `k` at the position `find_slot` reported; the keys stay sorted.
pub fn insert_key(keys: &mut Vec<Vec<char>>, pos: usize, k: Vec<char>)
    requires
        strictly_sorted(key_views(old(keys)@)),
        pos <= old(keys)@.len(),
        forall|i: int| 0 <= i < pos ==> seq_lt(#[trigger] old(keys)@[i]@, k@),
        forall|i: int| pos <= i < old(keys)@.len() ==> seq_lt(k@, #[trigger] old(keys)@[i]@),
    ensures
        final(keys)@ == old(keys)@.insert(pos as int, k),
        key_views(final(keys)@) == key_views(old(keys)@).insert(pos as int, k@),
        strictly_sorted(key_views(final(keys)@)),
{
    let ghost old_keys = keys@;
    let ghost kv = k@;
    keys.insert(pos, k);
    assert(key_views(keys@) =~= key_views(old_keys).insert(pos as int, kv));
    assert forall|i: int, j: int| 0 <= i < j < keys@.len() implies seq_lt(
        #[trigger] key_views(keys@)[i],
        #[trigger] key_views(keys@)[j],
    ) by {
        let nk = key_views(keys@);
        let ok = key_views(old_keys);
        if j < pos {
            assert(nk[i] == ok[i] && nk[j] == ok[j]);
        } else if j == pos {
            assert(nk[i] == old_keys[i]@);
        } else if i < pos {
            assert(nk[i] == old_keys[i]@ && nk[j] == old_keys[j - 1]@);
            lemma_lt_transitive(nk[i], kv, nk[j]);
        } else if i == pos {
            assert(nk[j] == old_keys[j - 1]@);
        } else {
            assert(nk[i] == ok[i - 1] && nk[j] == ok[j - 1]);
        }
    }
}

} // verus!
