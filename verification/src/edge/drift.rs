//! The counting half of drift detection: how often each concept occurs in
//! an agent's output, and which concepts it dropped or invented. (The
//! divergences computed from these counts are floating point, and are
//! computed outside the library.)
use vstd::prelude::*;
use crate::json_text::string_views;

verus! {

/// How many times `t` occurs in `s`.
pub open spec fn occurrences(s: Seq<Seq<char>>, t: Seq<char>) -> nat
    decreases s.len(),
{
    if s.len() == 0 {
        0
    } else {
        occurrences(s.drop_last(), t) + if s.last() == t { 1nat } else { 0nat }
    }
}

/// The distinct tokens of `s`, in order of first appearance.
pub open spec fn distinct_in_order(s: Seq<Seq<char>>) -> Seq<Seq<char>>
    decreases s.len(),
{
    if s.len() == 0 {
        seq![]
    } else {
        let d = distinct_in_order(s.drop_last());
        if d.contains(s.last()) { d } else { d.push(s.last()) }
    }
}

proof fn lemma_occurrences_le(s: Seq<Seq<char>>, t: Seq<char>)
    ensures
        occurrences(s, t) <= s.len(),
    decreases s.len(),
{
    if s.len() > 0 {
        lemma_occurrences_le(s.drop_last(), t);
    }
}

proof fn lemma_distinct_absent(s: Seq<Seq<char>>, t: Seq<char>)
    requires
        !distinct_in_order(s).contains(t),
    ensures
        occurrences(s, t) == 0,
    decreases s.len(),
{
    if s.len() > 0 {
        let d = distinct_in_order(s.drop_last());
        if d.contains(t) {
            let i = choose|i: int| 0 <= i < d.len() && d[i] == t;
            if !d.contains(s.last()) {
                assert(d.push(s.last())[i] == t);
            }
        }
        if !d.contains(s.last()) {
            assert(d.push(s.last())[d.len() as int] == s.last());
        }
        lemma_distinct_absent(s.drop_last(), t);
    }
}

proof fn lemma_distinct_no_dup(s: Seq<Seq<char>>)
    ensures
        forall|i: int, j: int|
            0 <= i < j < distinct_in_order(s).len() ==> #[trigger] distinct_in_order(s)[i] != #[trigger] distinct_in_order(s)[j],
    decreases s.len(),
{
    if s.len() > 0 {
        lemma_distinct_no_dup(s.drop_last());
        let d = distinct_in_order(s.drop_last());
        if !d.contains(s.last()) {
            let e = d.push(s.last());
            assert forall|i: int, j: int| 0 <= i < j < e.len() implies #[trigger] e[i] != #[trigger] e[j] by {
                if j == d.len() {
                    assert(e[i] == d[i]);
                    if d[i] == s.last() {
                        assert(d.contains(s.last()));
                    }
                } else {
                    assert(e[i] == d[i] && e[j] == d[j]);
                }
            }
        }
    }
}

pub open spec fn count_keys(r: Seq<(String, usize)>) -> Seq<Seq<char>> {
    r.map_values(|p: (String, usize)| p.0@)
}

/// Each distinct token with the number of times it occurs, in order of first
/// appearance.
pub fn token_counts(tokens: &Vec<String>) -> (r: Vec<(String, usize)>)
    ensures
        count_keys(r@) == distinct_in_order(string_views(tokens@)),
        forall|i: int| 0 <= i < r@.len() ==> (#[trigger] r@[i]).1 == occurrences(string_views(tokens@), r@[i].0@),
{
    let ghost tv = string_views(tokens@);
    let mut r: Vec<(String, usize)> = Vec::new();
    let mut n: usize = 0;
    assert(count_keys(r@) =~= distinct_in_order(tv.take(0)));
    while n < tokens.len()
        invariant
            tv == string_views(tokens@),
            n <= tv.len(),
            count_keys(r@) == distinct_in_order(tv.take(n as int)),
            forall|i: int| 0 <= i < r@.len() ==> (#[trigger] r@[i]).1 == occurrences(tv.take(n as int), r@[i].0@),
        decreases tokens.len() - n,
    {
        let ghost prev = tv.take(n as int);
        let ghost next = tv.take(n + 1);
        assert(next.drop_last() =~= prev);
        assert(next.last() == tokens@[n as int]@);
        let t = &tokens[n];
        let mut k: usize = 0;
        while k < r.len()
            invariant
                k <= r@.len(),
                forall|j: int| 0 <= j < k ==> r@[j].0@ != t@,
            ensures
                k <= r@.len(),
                forall|j: int| 0 <= j < k ==> r@[j].0@ != t@,
                k < r@.len() ==> r@[k as int].0@ == t@,
            decreases r.len() - k,
        {
            if r[k].0 == *t {
                break;
            }
            k = k + 1;
        }
        let ghost before = r@;
        let ghost d = distinct_in_order(prev);
        assert(count_keys(before) == d);
        if k < r.len() {
            let c = r[k].1;
            proof {
                lemma_occurrences_le(prev, t@);
            }
            assert(c <= n);
            r.set(k, (t.clone(), c + 1));
            proof {
                assert(count_keys(before)[k as int] == t@);
                assert(d.contains(t@));
                assert(count_keys(r@) =~= count_keys(before));
                lemma_distinct_no_dup(prev);
                assert forall|i: int| 0 <= i < r@.len() implies (#[trigger] r@[i]).1 == occurrences(next, r@[i].0@) by {
                    if i != k {
                        assert(r@[i] == before[i]);
                        assert(count_keys(before)[i] == before[i].0@);
                        if i < k {
                            assert(d[i] != d[k as int]);
                        } else {
                            assert(d[k as int] != d[i]);
                        }
                        assert(before[i].0@ != t@);
                    } else {
                        assert(r@[i].0@ == t@);
                    }
                }
            }
        } else {
            r.push((t.clone(), 1));
            proof {
                if d.contains(t@) {
                    let j = choose|j: int| 0 <= j < d.len() && d[j] == t@;
                    assert(count_keys(before)[j] == t@);
                }
                lemma_distinct_absent(prev, t@);
                assert(count_keys(r@) =~= d.push(t@));
                assert forall|i: int| 0 <= i < r@.len() implies (#[trigger] r@[i]).1 == occurrences(next, r@[i].0@) by {
                    if i < before.len() {
                        assert(r@[i] == before[i]);
                        assert(before[i].0@ != t@);
                    }
                }
            }
        }
        n = n + 1;
    }
    assert(tv.take(n as int) =~= tv);
    r
}

/// The ground-truth concepts that the output never names.
pub open spec fn missing_spec(ground: Seq<Seq<char>>, tokens: Seq<Seq<char>>) -> nat {
    ground.filter(|g: Seq<char>| !tokens.contains(g)).len()
}

/// The concepts the output names that the ground truth lacks, each once.
pub open spec fn invented_spec(ground: Seq<Seq<char>>, tokens: Seq<Seq<char>>) -> nat {
    distinct_in_order(tokens).filter(|t: Seq<char>| !ground.contains(t)).len()
}

proof fn lemma_distinct_has(s: Seq<Seq<char>>, t: Seq<char>)
    ensures
        distinct_in_order(s).contains(t) <==> s.contains(t),
    decreases s.len(),
{
    if s.len() > 0 {
        let p = s.drop_last();
        let d = distinct_in_order(p);
        lemma_distinct_has(p, t);
        if d.contains(t) {
            let i = choose|i: int| 0 <= i < d.len() && d[i] == t;
            if !d.contains(s.last()) {
                assert(d.push(s.last())[i] == t);
            }
        }
        if p.contains(t) {
            let i = choose|i: int| 0 <= i < p.len() && p[i] == t;
            assert(s[i] == t);
        }
        if s.contains(t) {
            let i = choose|i: int| 0 <= i < s.len() && s[i] == t;
            if i < p.len() {
                assert(p[i] == t);
            } else if !d.contains(s.last()) {
                assert(d.push(s.last())[d.len() as int] == t);
            }
        }
        if distinct_in_order(s).contains(t) && !d.contains(t) {
            assert(t == s.last());
            assert(s[s.len() - 1] == t);
        }
    }
}

/// How many ground-truth concepts the output never names, and how many
/// distinct concepts the output names that the ground truth lacks.
pub fn coverage(ground_truth: &Vec<String>, tokens: &Vec<String>) -> (r: (usize, usize))
    ensures
        r.0 == missing_spec(string_views(ground_truth@), string_views(tokens@)),
        r.1 == invented_spec(string_views(ground_truth@), string_views(tokens@)),
{
    let counts = token_counts(tokens);
    let ghost gv = string_views(ground_truth@);
    let ghost tv = string_views(tokens@);
    let ghost keys = count_keys(counts@);
    let mut missing: usize = 0;
    let mut i: usize = 0;
    while i < ground_truth.len()
        invariant
            gv == string_views(ground_truth@),
            tv == string_views(tokens@),
            keys == count_keys(counts@),
            keys == distinct_in_order(tv),
            i <= gv.len(),
            missing == gv.take(i as int).filter(|g: Seq<char>| !tv.contains(g)).len(),
            missing <= i,
        decreases ground_truth.len() - i,
    {
        let g = &ground_truth[i];
        let mut found = false;
        let mut k: usize = 0;
        while k < counts.len()
            invariant
                k <= counts@.len(),
                keys == count_keys(counts@),
                found == exists|j: int| 0 <= j < k && #[trigger] keys[j] == g@,
            decreases counts.len() - k,
        {
            assert(keys[k as int] == counts@[k as int].0@);
            if counts[k].0 == *g {
                found = true;
            }
            k = k + 1;
        }
        proof {
            let pre = gv.take(i as int);
            let post = gv.take(i + 1);
            assert(post =~= pre.push(gv[i as int]));
            pre.lemma_filter_push(gv[i as int], |g: Seq<char>| !tv.contains(g));
            assert(gv[i as int] == g@);
            lemma_distinct_has(tv, g@);
            if found {
                let j = choose|j: int| 0 <= j < k && #[trigger] keys[j] == g@;
                assert(keys.contains(g@));
            } else if keys.contains(g@) {
                let j = choose|j: int| 0 <= j < keys.len() && keys[j] == g@;
                assert(keys[j] == g@);
            }
            let f = pre.filter(|g: Seq<char>| !tv.contains(g));
            assert(f.len() <= pre.len()) by {
                pre.lemma_filter_len(|g: Seq<char>| !tv.contains(g));
            }
        }
        if !found {
            missing = missing + 1;
        }
        i = i + 1;
    }
    assert(gv.take(i as int) =~= gv);
    let mut invented: usize = 0;
    let mut k: usize = 0;
    while k < counts.len()
        invariant
            gv == string_views(ground_truth@),
            keys == count_keys(counts@),
            k <= keys.len(),
            invented == keys.take(k as int).filter(|t: Seq<char>| !gv.contains(t)).len(),
            invented <= k,
        decreases counts.len() - k,
    {
        let mut known = false;
        let mut j: usize = 0;
        while j < ground_truth.len()
            invariant
                gv == string_views(ground_truth@),
                k < keys.len(),
                keys == count_keys(counts@),
                j <= gv.len(),
                known == exists|x: int| 0 <= x < j && #[trigger] gv[x] == keys[k as int],
            decreases ground_truth.len() - j,
        {
            assert(keys[k as int] == counts@[k as int].0@);
            assert(gv[j as int] == ground_truth@[j as int]@);
            if ground_truth[j] == counts[k].0 {
                known = true;
            }
            j = j + 1;
        }
        proof {
            let pre = keys.take(k as int);
            let post = keys.take(k + 1);
            assert(post =~= pre.push(keys[k as int]));
            pre.lemma_filter_push(keys[k as int], |t: Seq<char>| !gv.contains(t));
            if known {
                let x = choose|x: int| 0 <= x < j && #[trigger] gv[x] == keys[k as int];
                assert(gv.contains(keys[k as int]));
            } else if gv.contains(keys[k as int]) {
                let x = choose|x: int| 0 <= x < gv.len() && gv[x] == keys[k as int];
                assert(gv[x] == keys[k as int]);
            }
            pre.lemma_filter_len(|t: Seq<char>| !gv.contains(t));
        }
        if !known {
            invented = invented + 1;
        }
        k = k + 1;
    }
    assert(keys.take(k as int) =~= keys);
    (missing, invented)
}

} // verus!
