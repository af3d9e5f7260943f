//! The order of texts, and lists in that order.

use vstd::prelude::*;

use crate::text;
use crate::text::to_chars;

verus! {

/// Whether `a` comes before `b`: the first place where they differ decides, and a
/// text comes before those that go on where it ends.
pub open spec fn text_lt(a: Seq<char>, b: Seq<char>) -> bool
    decreases a.len(),
{
    if b.len() == 0 {
        false
    } else if a.len() == 0 {
        true
    } else if a[0] == b[0] {
        text_lt(a.skip(1), b.skip(1))
    } else {
        a[0] < b[0]
    }
}

/// No text comes before itself.
pub proof fn lemma_lt_irreflexive(a: Seq<char>)
    ensures
        !text_lt(a, a),
    decreases a.len(),
{
    if a.len() > 0 {
        lemma_lt_irreflexive(a.skip(1));
    }
}

/// What comes before a text comes before all that follow it.
pub proof fn lemma_lt_transitive(a: Seq<char>, b: Seq<char>, c: Seq<char>)
    requires
        text_lt(a, b),
        text_lt(b, c),
    ensures
        text_lt(a, c),
    decreases a.len(),
{
    if a.len() > 0 && a[0] == b[0] && b[0] == c[0] {
        lemma_lt_transitive(a.skip(1), b.skip(1), c.skip(1));
    }
}

/// Of two different texts one comes before the other.
pub proof fn lemma_lt_total(a: Seq<char>, b: Seq<char>)
    ensures
        a == b || text_lt(a, b) || text_lt(b, a),
    decreases a.len(),
{
    if a.len() > 0 && b.len() > 0 && a[0] == b[0] {
        lemma_lt_total(a.skip(1), b.skip(1));
        if a.skip(1) == b.skip(1) {
            assert(a =~= seq![a[0]] + a.skip(1));
            assert(b =~= seq![b[0]] + b.skip(1));
        }
    } else if a.len() == 0 && b.len() == 0 {
        assert(a =~= b);
    }
}

/// Whether `a` comes before `b`.
pub fn comes_before(a: &str, b: &str) -> (r: bool)
    ensures
        r == text_lt(a@, b@),
{
    let ac = to_chars(a);
    let bc = to_chars(b);
    let mut i: usize = 0;
    proof {
        assert(a@.skip(0) =~= a@);
        assert(b@.skip(0) =~= b@);
    }
    while i < ac.len() && i < bc.len() && ac[i] == bc[i]
        invariant
            ac@ == a@,
            bc@ == b@,
            i <= ac@.len(),
            i <= bc@.len(),
            text_lt(a@, b@) == text_lt(a@.skip(i as int), b@.skip(i as int)),
        decreases ac@.len() - i,
    {
        proof {
            assert(a@.skip(i as int).skip(1) =~= a@.skip(i + 1));
            assert(b@.skip(i as int).skip(1) =~= b@.skip(i + 1));
        }
        i += 1;
    }
    if i >= bc.len() {
        false
    } else if i >= ac.len() {
        true
    } else {
        ac[i] < bc[i]
    }
}

/// Whether a list is in order and has no text twice.
pub open spec fn ascending(list: Seq<Seq<char>>) -> bool {
    forall|i: int, j: int| 0 <= i < j < list.len() ==> text_lt(#[trigger] list[i], #[trigger] list[j])
}

/// Two lists in order that hold the same texts are the same list.
pub proof fn lemma_ascending_unique(a: Seq<Seq<char>>, b: Seq<Seq<char>>)
    requires
        ascending(a),
        ascending(b),
        forall|s: Seq<char>| a.contains(s) <==> b.contains(s),
    ensures
        a == b,
    decreases a.len(),
{
    if a.len() == 0 {
        if b.len() > 0 {
            assert(b.contains(b[0]));
        }
        assert(a =~= b);
    } else {
        assert(a.contains(a.last()));
        assert(b.len() > 0);
        assert(b.contains(b.last()));
        let i = choose|i: int| 0 <= i < b.len() && b[i] == a.last();
        let j = choose|j: int| 0 <= j < a.len() && a[j] == b.last();
        if a.last() != b.last() {
            assert(text_lt(b[i], b[b.len() - 1]));
            assert(text_lt(a[j], a[a.len() - 1]));
            lemma_lt_transitive(a.last(), b.last(), a.last());
            lemma_lt_irreflexive(a.last());
        }
        let a1 = a.drop_last();
        let b1 = b.drop_last();
        assert(ascending(a1));
        assert(ascending(b1));
        assert forall|s: Seq<char>| a1.contains(s) <==> b1.contains(s) by {
            lemma_lt_irreflexive(s);
            if a1.contains(s) {
                let k = choose|k: int| 0 <= k < a1.len() && a1[k] == s;
                assert(a[k] == s && text_lt(a[k], a[a.len() - 1]));
                assert(a.contains(s));
                let m = choose|m: int| 0 <= m < b.len() && b[m] == s;
                assert(m < b.len() - 1);
                assert(b1[m] == s);
            }
            if b1.contains(s) {
                let k = choose|k: int| 0 <= k < b1.len() && b1[k] == s;
                assert(b[k] == s && text_lt(b[k], b[b.len() - 1]));
                assert(b.contains(s));
                let m = choose|m: int| 0 <= m < a.len() && a[m] == s;
                assert(m < a.len() - 1);
                assert(a1[m] == s);
            }
        }
        lemma_ascending_unique(a1, b1);
        assert(a =~= a1.push(a.last()));
        assert(b =~= b1.push(b.last()));
    }
}

/// Puts a text into its place in an ordered list, unless it is there already.
fn insert_sorted(list: &mut Vec<String>, s: String)
    requires
        ascending(text::views(old(list)@)),
    ensures
        ascending(text::views(final(list)@)),
        forall|t: Seq<char>|
            text::views(final(list)@).contains(t) <==> text::views(old(list)@).contains(t) || t == s@,
{
    let ghost lv = text::views(list@);
    let n: usize = list.len();
    let mut i: usize = 0;
    while i < n && comes_before(list[i].as_str(), s.as_str())
        invariant
            n == list@.len(),
            lv == text::views(list@),
            i <= n,
            forall|k: int| 0 <= k < i ==> text_lt(#[trigger] lv[k], s@),
        decreases n - i,
    {
        i += 1;
    }
    if i < n && text::same(list[i].as_str(), s.as_str()) {
        proof {
            assert(lv[i as int] == s@);
        }
        return;
    }
    let ghost sv = s@;
    list.insert(i, s);
    proof {
        let nv = text::views(list@);
        assert(nv =~= lv.insert(i as int, sv));
        if i < n {
            lemma_lt_total(lv[i as int], sv);
        }
        assert forall|k: int| i <= k < lv.len() implies text_lt(sv, #[trigger] lv[k]) by {
            if k > i {
                assert(text_lt(lv[i as int], lv[k]));
                lemma_lt_transitive(sv, lv[i as int], lv[k]);
            }
        }
        assert forall|t: Seq<char>| nv.contains(t) <==> lv.contains(t) || t == sv by {
            if lv.contains(t) {
                let k = choose|k: int| 0 <= k < lv.len() && lv[k] == t;
                if k < i {
                    assert(nv[k] == t);
                } else {
                    assert(nv[k + 1] == t);
                }
            }
            if t == sv {
                assert(nv[i as int] == t);
            }
            if nv.contains(t) {
                let k = choose|k: int| 0 <= k < nv.len() && nv[k] == t;
                if k < i {
                    assert(lv[k] == t);
                } else if k > i {
                    assert(lv[k - 1] == t);
                }
            }
        }
    }
}

/// Puts texts in order and leaves out doubles.
pub fn sort_dedup(list: &[String]) -> (r: Vec<String>)
    ensures
        ascending(text::views(r@)),
        forall|s: Seq<char>| text::views(r@).contains(s) <==> text::views(list@).contains(s),
{
    let ghost lv = text::views(list@);
    let mut out: Vec<String> = Vec::new();
    let mut i: usize = 0;
    while i < list.len()
        invariant
            lv == text::views(list@),
            i <= list@.len(),
            ascending(text::views(out@)),
            forall|s: Seq<char>| text::views(out@).contains(s) <==> lv.take(i as int).contains(s),
        decreases list@.len() - i,
    {
        let ghost before = text::views(out@);
        insert_sorted(&mut out, list[i].clone());
        proof {
            let now = lv.take(i + 1);
            let prev = lv.take(i as int);
            assert(now =~= prev.push(lv[i as int]));
            assert forall|s: Seq<char>| text::views(out@).contains(s) <==> now.contains(s) by {
                if prev.contains(s) {
                    let k = choose|k: int| 0 <= k < prev.len() && prev[k] == s;
                    assert(now[k] == s);
                }
                if s == lv[i as int] {
                    assert(now[i as int] == s);
                }
                if now.contains(s) {
                    let k = choose|k: int| 0 <= k < now.len() && now[k] == s;
                    if k < i {
                        assert(prev[k] == s);
                    }
                }
            }
        }
        i += 1;
    }
    proof {
        assert(lv.take(i as int) =~= lv);
    }
    out
}

/// Putting an item into a list adds it to what the list holds, wherever it is put.
proof fn lemma_insert_multiset(list: Seq<Seq<char>>, i: int, s: Seq<char>)
    requires
        0 <= i <= list.len(),
    ensures
        list.insert(i, s).to_multiset() == list.to_multiset().insert(s),
{
    broadcast use vstd::seq_lib::group_to_multiset_ensures;

    let head = list.take(i);
    let tail = list.skip(i);
    assert(list =~= head + tail);
    assert(list.insert(i, s) =~= head.push(s) + tail);
    vstd::seq_lib::lemma_multiset_commutative(head, tail);
    vstd::seq_lib::lemma_multiset_commutative(head.push(s), tail);
    assert(head.push(s).to_multiset() =~= head.to_multiset().insert(s));
    assert(list.insert(i, s).to_multiset() =~= list.to_multiset().insert(s));
}

/// Whether a list is in order; a text may stand in it more than once.
pub open spec fn in_order(list: Seq<Seq<char>>) -> bool {
    forall|i: int, j: int| 0 <= i < j < list.len() ==> !text_lt(#[trigger] list[j], #[trigger] list[i])
}

/// Puts texts in order and keeps all of them.
pub fn sort(list: Vec<String>) -> (r: Vec<String>)
    ensures
        in_order(text::views(r@)),
        text::views(r@).to_multiset() == text::views(list@).to_multiset(),
{
    let ghost lv = text::views(list@);
    let mut out: Vec<String> = Vec::new();
    let mut i: usize = 0;
    proof {
        assert(text::views(out@) =~= lv.take(0));
    }
    while i < list.len()
        invariant
            lv == text::views(list@),
            i <= list@.len(),
            in_order(text::views(out@)),
            text::views(out@).to_multiset() == lv.take(i as int).to_multiset(),
        decreases list@.len() - i,
    {
        let ghost ov = text::views(out@);
        let s = list[i].clone();
        let ghost sv = s@;
        let n: usize = out.len();
        let mut k: usize = 0;
        while k < n && !comes_before(s.as_str(), out[k].as_str())
            invariant
                n == out@.len(),
                ov == text::views(out@),
                sv == s@,
                k <= n,
                forall|j: int| 0 <= j < k ==> !text_lt(sv, #[trigger] ov[j]),
            decreases n - k,
        {
            k += 1;
        }
        out.insert(k, s);
        proof {
            let nv = text::views(out@);
            assert(nv =~= ov.insert(k as int, sv));
            lemma_insert_multiset(ov, k as int, sv);
            assert(lv.take(i + 1) =~= lv.take(i as int).push(sv));
            lv.take(i as int).to_multiset_ensures();
            assert forall|a: int, b: int| 0 <= a < b < nv.len() implies !text_lt(#[trigger] nv[b], #[trigger] nv[a]) by {
                if b < k {
                    assert(nv[a] == ov[a] && nv[b] == ov[b]);
                } else if b == k {
                    assert(nv[a] == ov[a]);
                } else if a < k {
                    assert(nv[a] == ov[a] && nv[b] == ov[b - 1]);
                } else if a == k {
                    assert(nv[b] == ov[b - 1]);
                    if text_lt(nv[b], sv) {
                        lemma_lt_transitive(nv[b], sv, ov[k as int]);
                        if b - 1 > k {
                            assert(!text_lt(ov[b - 1], ov[k as int]));
                        } else {
                            lemma_lt_irreflexive(ov[k as int]);
                        }
                    }
                } else {
                    assert(nv[a] == ov[a - 1] && nv[b] == ov[b - 1]);
                }
            }
        }
        i += 1;
    }
    proof {
        assert(lv.take(i as int) =~= lv);
    }
    out
}

/// The first place at which two texts differ decides which comes first, by the codes of the two
/// characters; where one goes on after the other ends, the shorter comes first.
pub proof fn law_first_difference_decides(a: &str, b: &str, r: bool, k: int)
    requires
        call_ensures(comes_before, (a, b), r),
        0 <= k <= a@.len(),
        0 <= k <= b@.len(),
        forall|i: int| 0 <= i < k ==> a@[i] == #[trigger] b@[i],
    ensures
        k < a@.len() && k < b@.len() && a@[k] != b@[k] ==> (r <==> a@[k] < b@[k]),
        k == a@.len() && k < b@.len() ==> r,
        k == b@.len() ==> !r,
{
    lemma_first_difference(a@, b@, k);
}

/// What the first difference decides.
proof fn lemma_first_difference(a: Seq<char>, b: Seq<char>, k: int)
    requires
        0 <= k <= a.len(),
        0 <= k <= b.len(),
        forall|i: int| 0 <= i < k ==> a[i] == #[trigger] b[i],
    ensures
        k < a.len() && k < b.len() && a[k] != b[k] ==> (text_lt(a, b) <==> a[k] < b[k]),
        k == a.len() && k < b.len() ==> text_lt(a, b),
        k == b.len() ==> !text_lt(a, b),
    decreases k,
{
    if k > 0 {
        assert(a[0] == b[0]);
        assert forall|i: int| 0 <= i < k - 1 implies a.skip(1)[i] == #[trigger] b.skip(1)[i] by {
            assert(a[i + 1] == b[i + 1]);
        }
        lemma_first_difference(a.skip(1), b.skip(1), k - 1);
    }
}

/// Sorting a list without doubles gives the texts of the list, each once, the smaller before the
/// larger.
pub proof fn law_sort_dedup(list: &[String], r: Vec<String>, i: int, j: int)
    requires
        call_ensures(sort_dedup, (list,), r),
    ensures
        forall|s: Seq<char>| text::views(r@).contains(s) <==> text::views(list@).contains(s),
        0 <= i < j < r@.len() ==> text_lt(r@[i]@, r@[j]@) && r@[i]@ != r@[j]@,
{
    if 0 <= i < j < r@.len() {
        assert(text::views(r@)[i] == r@[i]@ && text::views(r@)[j] == r@[j]@);
        lemma_lt_irreflexive(r@[i]@);
    }
}

} // verus!
