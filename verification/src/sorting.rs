//! Ordering of strings by their characters, and sorting.
use vstd::prelude::*;
use vstd::multiset::Multiset;
use crate::text::views;

verus! {

broadcast use {vstd::seq_lib::group_seq_properties, vstd::multiset::group_multiset_axioms};

/// Lexicographic order on character sequences, character by code point; a
/// proper prefix comes first. It is the order `Ord` gives `str`, since UTF-8
/// keeps the order of code points.
pub open spec fn lex_le(a: Seq<char>, b: Seq<char>) -> bool
    decreases a.len(),
{
    if a.len() == 0 {
        true
    } else if b.len() == 0 {
        false
    } else if a[0] != b[0] {
        (a[0] as int) < (b[0] as int)
    } else {
        lex_le(a.drop_first(), b.drop_first())
    }
}

/// Any two strings are ordered one way or the other.
pub proof fn lemma_lex_total(a: Seq<char>, b: Seq<char>)
    ensures
        lex_le(a, b) || lex_le(b, a),
    decreases a.len(),
{
    if a.len() > 0 && b.len() > 0 {
        if a[0] == b[0] {
            lemma_lex_total(a.drop_first(), b.drop_first());
        } else {
            assert((a[0] as int) != (b[0] as int));
        }
    }
}

/// The order is transitive.
pub proof fn lemma_lex_transitive(a: Seq<char>, b: Seq<char>, c: Seq<char>)
    requires
        lex_le(a, b),
        lex_le(b, c),
    ensures
        lex_le(a, c),
    decreases a.len(),
{
    if a.len() > 0 && b.len() > 0 && c.len() > 0 && a[0] == b[0] && b[0] == c[0] {
        lemma_lex_transitive(a.drop_first(), b.drop_first(), c.drop_first());
    }
}

/// Strings ordered both ways are equal.
pub proof fn lemma_lex_antisymmetric(a: Seq<char>, b: Seq<char>)
    requires
        lex_le(a, b),
        lex_le(b, a),
    ensures
        a == b,
    decreases a.len(),
{
    if a.len() > 0 && b.len() > 0 {
        lemma_lex_antisymmetric(a.drop_first(), b.drop_first());
        assert(a =~= seq![a[0]] + a.drop_first());
        assert(b =~= seq![b[0]] + b.drop_first());
    }
}

/// Whether `a` comes no later than `b`.
pub fn lex_le_exec(a: &str, b: &str) -> (r: bool)
    ensures
        r == lex_le(a@, b@),
{
    let la = a.unicode_len();
    let lb = b.unicode_len();
    let mut i: usize = 0;
    proof {
        assert(a@.skip(0) =~= a@);
        assert(b@.skip(0) =~= b@);
    }
    while i < la && i < lb
        invariant
            0 <= i <= la,
            i <= lb,
            la == a@.len(),
            lb == b@.len(),
            lex_le(a@, b@) == lex_le(a@.skip(i as int), b@.skip(i as int)),
        decreases la - i,
    {
        let ca = a.get_char(i);
        let cb = b.get_char(i);
        proof {
            assert(a@.skip(i as int)[0] == ca);
            assert(b@.skip(i as int)[0] == cb);
            assert(a@.skip(i as int).drop_first() =~= a@.skip(i as int + 1));
            assert(b@.skip(i as int).drop_first() =~= b@.skip(i as int + 1));
        }
        if ca != cb {
            return (ca as u32) < (cb as u32);
        }
        i = i + 1;
    }
    i == la
}

/// Whether the strings are in order.
pub open spec fn sorted_lex(s: Seq<String>) -> bool {
    forall|i: int, j: int| 0 <= i < j < s.len() ==> lex_le((#[trigger] s[i])@, (#[trigger] s[j])@)
}

/// Sorts strings into lexicographic order.
pub fn sort_strings(v: Vec<String>) -> (r: Vec<String>)
    ensures
        sorted_lex(r@),
        views(r@).to_multiset() == views(v@).to_multiset(),
{
    let mut v = v;
    let ghost orig = views(v@);
    let mut out: Vec<String> = Vec::new();
    proof {
        assert(views(out@) =~= Seq::<Seq<char>>::empty());
    }
    while v.len() > 0
        invariant
            sorted_lex(out@),
            views(out@).to_multiset().add(views(v@).to_multiset()) == orig.to_multiset(),
        decreases v.len(),
    {
        let ghost before = v@;
        let x = v.pop().unwrap();
        proof {
            assert(before == v@.push(x));
        }
        let mut p: usize = 0;
        while p < out.len() && lex_le_exec(out[p].as_str(), x.as_str())
            invariant
                0 <= p <= out.len(),
                forall|k: int| 0 <= k < p ==> lex_le((#[trigger] out@[k])@, x@),
            decreases out.len() - p,
        {
            p = p + 1;
        }
        let ghost old_out = out@;
        proof {
            assert forall|j: int| p <= j < old_out.len() implies lex_le(x@, (#[trigger] old_out[j])@) by {
                lemma_lex_total(old_out[p as int]@, x@);
                if j > p {
                    lemma_lex_transitive(x@, old_out[p as int]@, old_out[j]@);
                }
            }
        }
        out.insert(p, x);
        proof {
            assert(out@ == old_out.insert(p as int, x));
            assert forall|i: int, j: int| 0 <= i < j < out@.len() implies lex_le((#[trigger] out@[i])@, (#[trigger] out@[j])@) by {
                if j < p {
                } else if j == p {
                } else if i < p {
                    assert(out@[j] == old_out[j - 1]);
                    lemma_lex_transitive(out@[i]@, x@, old_out[j - 1]@);
                } else if i == p {
                    assert(out@[j] == old_out[j - 1]);
                } else {
                    assert(out@[i] == old_out[i - 1]);
                    assert(out@[j] == old_out[j - 1]);
                }
            }
            assert(views(out@) =~= views(old_out).insert(p as int, x@));
            assert(views(before) =~= views(v@).push(x@));
            vstd::seq_lib::to_multiset_insert(views(old_out), p as int, x@);
            vstd::seq_lib::to_multiset_build(views(v@), x@);
            assert(views(out@).to_multiset().add(views(v@).to_multiset()) =~= orig.to_multiset());
        }
    }
    proof {
        assert(views(v@) =~= Seq::<Seq<char>>::empty());
        assert(views(v@).to_multiset() =~= Multiset::<Seq<char>>::empty());
        assert(views(out@).to_multiset() =~= orig.to_multiset());
    }
    out
}

/// Whether `v` holds `x`.
pub fn contains_u32(v: &Vec<u32>, x: u32) -> (r: bool)
    ensures
        r == v@.contains(x),
{
    let mut i: usize = 0;
    while i < v.len()
        invariant
            0 <= i <= v.len(),
            forall|k: int| 0 <= k < i ==> v@[k] != x,
        decreases v.len() - i,
    {
        if v[i] == x {
            assert(v@[i as int] == x);
            return true;
        }
        i = i + 1;
    }
    false
}

/// Strictly increasing.
pub open spec fn strictly_increasing(s: Seq<u32>) -> bool {
    forall|i: int, j: int| 0 <= i < j < s.len() ==> s[i] < s[j]
}

/// The distinct values of `v` in increasing order (a sort followed by removal of repeats).
pub fn sorted_distinct_u32(v: &Vec<u32>) -> (r: Vec<u32>)
    ensures
        strictly_increasing(r@),
        forall|x: u32| r@.contains(x) <==> v@.contains(x),
{
    let mut out: Vec<u32> = Vec::new();
    let mut i: usize = 0;
    while i < v.len()
        invariant
            0 <= i <= v.len(),
            strictly_increasing(out@),
            forall|y: u32| out@.contains(y) <==> v@.take(i as int).contains(y),
        decreases v.len() - i,
    {
        let x = v[i];
        proof {
            assert(v@.take(i as int + 1) == v@.take(i as int).push(x));
            assert forall|y: u32| v@.take(i as int + 1).contains(y) <==> (v@.take(i as int).contains(y) || y == x) by {
                let t = v@.take(i as int);
                if t.push(x).contains(y) {
                    let k = choose|k: int| 0 <= k < t.push(x).len() && t.push(x)[k] == y;
                    if k < t.len() {
                        assert(t[k] == y);
                    }
                }
                if t.contains(y) {
                    let k = choose|k: int| 0 <= k < t.len() && t[k] == y;
                    assert(t.push(x)[k] == y);
                }
                if y == x {
                    assert(t.push(x)[t.len() as int] == x);
                }
            }
        }
        let mut p: usize = 0;
        while p < out.len() && out[p] < x
            invariant
                0 <= p <= out.len(),
                forall|k: int| 0 <= k < p ==> out@[k] < x,
            decreases out.len() - p,
        {
            p = p + 1;
        }
        if p < out.len() && out[p] == x {
            assert(out@.contains(x));
            assert forall|y: u32| out@.contains(y) <==> v@.take(i as int + 1).contains(y) by {
                assert(v@.take(i as int + 1).contains(y) <==> (v@.take(i as int).contains(y) || y == x));
            }
        } else {
            let ghost old_out = out@;
            out.insert(p, x);
            proof {
                assert(out@ == old_out.insert(p as int, x));
                assert forall|y: u32| out@.contains(y) <==> (old_out.contains(y) || y == x) by {
                    if out@.contains(y) {
                        let k = choose|k: int| 0 <= k < out@.len() && out@[k] == y;
                        if k < p {
                            assert(old_out[k] == y);
                        } else if k > p {
                            assert(old_out[k - 1] == y);
                        }
                    }
                    if old_out.contains(y) {
                        let k = choose|k: int| 0 <= k < old_out.len() && old_out[k] == y;
                        if k < p {
                            assert(out@[k] == y);
                        } else {
                            assert(out@[k + 1] == y);
                        }
                    }
                    if y == x {
                        assert(out@[p as int] == x);
                    }
                }
                assert forall|y: u32| out@.contains(y) <==> v@.take(i as int + 1).contains(y) by {
                    assert(v@.take(i as int + 1).contains(y) <==> (v@.take(i as int).contains(y) || y == x));
                    assert(out@.contains(y) <==> (old_out.contains(y) || y == x));
                }
            }
        }
        i = i + 1;
    }
    proof {
        assert(v@.take(i as int) =~= v@);
    }
    out
}

/// Character sequences in lexicographic order.
pub open spec fn sorted_seqs(s: Seq<Seq<char>>) -> bool {
    forall|i: int, j: int| 0 <= i < j < s.len() ==> lex_le(#[trigger] s[i], #[trigger] s[j])
}

/// `sorted` holds the items of `items` in lexicographic order.
pub open spec fn is_sorted_arrangement(sorted: Seq<Seq<char>>, items: Seq<Seq<char>>) -> bool {
    sorted_seqs(sorted) && sorted.to_multiset() == items.to_multiset()
}

/// The items in lexicographic order.
pub open spec fn sorted_items(items: Seq<Seq<char>>) -> Seq<Seq<char>> {
    choose|s: Seq<Seq<char>>| is_sorted_arrangement(s, items)
}

/// Two lexicographic arrangements of the same items are equal.
pub proof fn lemma_sorted_unique(a: Seq<Seq<char>>, b: Seq<Seq<char>>)
    requires
        sorted_seqs(a),
        sorted_seqs(b),
        a.to_multiset() == b.to_multiset(),
    ensures
        a == b,
    decreases a.len(),
{
    vstd::seq_lib::to_multiset_len(a);
    vstd::seq_lib::to_multiset_len(b);
    if a.len() == 0 {
        assert(a =~= b);
    } else {
        vstd::seq_lib::to_multiset_contains(a, b[0]);
        vstd::seq_lib::to_multiset_contains(b, a[0]);
        assert(b.contains(b[0]));
        assert(a.contains(a[0]));
        let i = choose|i: int| 0 <= i < a.len() && a[i] == b[0];
        let j = choose|j: int| 0 <= j < b.len() && b[j] == a[0];
        if i > 0 {
            assert(lex_le(a[0], a[i]));
        }
        if j > 0 {
            assert(lex_le(b[0], b[j]));
        }
        lemma_lex_total(a[0], a[0]);
        lemma_lex_total(b[0], b[0]);
        assert(lex_le(a[0], b[0]));
        assert(lex_le(b[0], a[0]));
        lemma_lex_antisymmetric(a[0], b[0]);
        vstd::seq_lib::to_multiset_remove(a, 0);
        vstd::seq_lib::to_multiset_remove(b, 0);
        assert(a.remove(0) =~= a.drop_first());
        assert(b.remove(0) =~= b.drop_first());
        assert forall|x: int, y: int| 0 <= x < y < a.drop_first().len() implies
            lex_le(#[trigger] a.drop_first()[x], #[trigger] a.drop_first()[y]) by {
            assert(a.drop_first()[x] == a[x + 1]);
            assert(a.drop_first()[y] == a[y + 1]);
        }
        assert forall|x: int, y: int| 0 <= x < y < b.drop_first().len() implies
            lex_le(#[trigger] b.drop_first()[x], #[trigger] b.drop_first()[y]) by {
            assert(b.drop_first()[x] == b[x + 1]);
            assert(b.drop_first()[y] == b[y + 1]);
        }
        lemma_sorted_unique(a.drop_first(), b.drop_first());
        assert(a =~= seq![a[0]] + a.drop_first());
        assert(b =~= seq![b[0]] + b.drop_first());
    }
}

/// Sorts strings; the result's characters are the sorted items of the input's.
pub fn sort_strings_views(v: Vec<String>) -> (r: Vec<String>)
    ensures
        views(r@) == sorted_items(views(v@)),
{
    let ghost items = views(v@);
    let r = sort_strings(v);
    proof {
        assert forall|i: int, j: int| 0 <= i < j < views(r@).len() implies
            lex_le(#[trigger] views(r@)[i], #[trigger] views(r@)[j]) by {
            assert(lex_le(r@[i]@, r@[j]@));
        }
        assert(is_sorted_arrangement(views(r@), items));
        let s = sorted_items(items);
        assert(is_sorted_arrangement(s, items));
        lemma_sorted_unique(views(r@), s);
    }
    r
}

/// The distinct values of `v` in increasing order.
pub open spec fn sorted_distinct_of(v: Seq<u32>) -> Seq<u32> {
    choose|s: Seq<u32>| strictly_increasing(s) && forall|x: u32| s.contains(x) <==> v.contains(x)
}

/// Two increasing sequences with the same elements are equal.
pub proof fn lemma_increasing_unique(a: Seq<u32>, b: Seq<u32>)
    requires
        strictly_increasing(a),
        strictly_increasing(b),
        forall|x: u32| a.contains(x) <==> b.contains(x),
    ensures
        a == b,
    decreases a.len() + b.len(),
{
    if a.len() == 0 || b.len() == 0 {
        if a.len() > 0 {
            assert(a.contains(a[0]));
        }
        if b.len() > 0 {
            assert(b.contains(b[0]));
        }
        assert(a =~= b);
    } else {
        assert(a.contains(a[0]));
        assert(b.contains(b[0]));
        let i = choose|i: int| 0 <= i < a.len() && a[i] == b[0];
        let j = choose|j: int| 0 <= j < b.len() && b[j] == a[0];
        if i > 0 {
            assert(a[0] < a[i]);
        }
        if j > 0 {
            assert(b[0] < b[j]);
        }
        assert(a[0] == b[0]);
        let a1 = a.drop_first();
        let b1 = b.drop_first();
        assert forall|x: u32| a1.contains(x) <==> b1.contains(x) by {
            if a1.contains(x) {
                let k = choose|k: int| 0 <= k < a1.len() && a1[k] == x;
                assert(a[k + 1] == x);
                assert(a.contains(x));
                let m = choose|m: int| 0 <= m < b.len() && b[m] == x;
                if m == 0 {
                    assert(a[0] < a[k + 1]);
                }
                assert(b1[m - 1] == x);
            }
            if b1.contains(x) {
                let k = choose|k: int| 0 <= k < b1.len() && b1[k] == x;
                assert(b[k + 1] == x);
                assert(b.contains(x));
                let m = choose|m: int| 0 <= m < a.len() && a[m] == x;
                if m == 0 {
                    assert(b[0] < b[k + 1]);
                }
                assert(a1[m - 1] == x);
            }
        }
        lemma_increasing_unique(a1, b1);
        assert(a =~= seq![a[0]] + a1);
        assert(b =~= seq![b[0]] + b1);
    }
}

/// The distinct values of `v` in increasing order.
pub fn sorted_distinct(v: &Vec<u32>) -> (r: Vec<u32>)
    ensures
        r@ == sorted_distinct_of(v@),
{
    let r = sorted_distinct_u32(v);
    proof {
        let s = sorted_distinct_of(v@);
        assert(strictly_increasing(s) && forall|x: u32| s.contains(x) <==> v@.contains(x));
        lemma_increasing_unique(r@, s);
    }
    r
}

/// Non-decreasing.
pub open spec fn nondecreasing(s: Seq<u32>) -> bool {
    forall|i: int, j: int| 0 <= i < j < s.len() ==> s[i] <= s[j]
}

/// The values of `v` in non-decreasing order, repeats kept.
pub open spec fn sorted_u32_of(v: Seq<u32>) -> Seq<u32> {
    choose|s: Seq<u32>| nondecreasing(s) && s.to_multiset() == v.to_multiset()
}

/// Two non-decreasing arrangements of the same values are equal.
pub proof fn lemma_nondecreasing_unique(a: Seq<u32>, b: Seq<u32>)
    requires
        nondecreasing(a),
        nondecreasing(b),
        a.to_multiset() == b.to_multiset(),
    ensures
        a == b,
    decreases a.len(),
{
    vstd::seq_lib::to_multiset_len(a);
    vstd::seq_lib::to_multiset_len(b);
    if a.len() == 0 {
        assert(a =~= b);
    } else {
        vstd::seq_lib::to_multiset_contains(a, b[0]);
        vstd::seq_lib::to_multiset_contains(b, a[0]);
        assert(b.contains(b[0]));
        assert(a.contains(a[0]));
        let i = choose|i: int| 0 <= i < a.len() && a[i] == b[0];
        let j = choose|j: int| 0 <= j < b.len() && b[j] == a[0];
        if i > 0 {
            assert(a[0] <= a[i]);
        }
        if j > 0 {
            assert(b[0] <= b[j]);
        }
        assert(a[0] == b[0]);
        vstd::seq_lib::to_multiset_remove(a, 0);
        vstd::seq_lib::to_multiset_remove(b, 0);
        assert(a.remove(0) =~= a.drop_first());
        assert(b.remove(0) =~= b.drop_first());
        assert forall|x: int, y: int| 0 <= x < y < a.drop_first().len() implies
            #[trigger] a.drop_first()[x] <= #[trigger] a.drop_first()[y] by {
            assert(a.drop_first()[x] == a[x + 1]);
            assert(a.drop_first()[y] == a[y + 1]);
        }
        assert forall|x: int, y: int| 0 <= x < y < b.drop_first().len() implies
            #[trigger] b.drop_first()[x] <= #[trigger] b.drop_first()[y] by {
            assert(b.drop_first()[x] == b[x + 1]);
            assert(b.drop_first()[y] == b[y + 1]);
        }
        lemma_nondecreasing_unique(a.drop_first(), b.drop_first());
        assert(a =~= seq![a[0]] + a.drop_first());
        assert(b =~= seq![b[0]] + b.drop_first());
    }
}

/// Sorts values into non-decreasing order, repeats kept.
pub fn sort_u32(v: &Vec<u32>) -> (r: Vec<u32>)
    ensures
        r@ == sorted_u32_of(v@),
{
    let mut out: Vec<u32> = Vec::new();
    let mut i: usize = 0;
    while i < v.len()
        invariant
            0 <= i <= v.len(),
            nondecreasing(out@),
            out@.to_multiset() == v@.take(i as int).to_multiset(),
        decreases v.len() - i,
    {
        let x = v[i];
        let mut p: usize = 0;
        while p < out.len() && out[p] <= x
            invariant
                0 <= p <= out.len(),
                forall|k: int| 0 <= k < p ==> out@[k] <= x,
            decreases out.len() - p,
        {
            p = p + 1;
        }
        let ghost old_out = out@;
        out.insert(p, x);
        proof {
            assert(out@ == old_out.insert(p as int, x));
            assert forall|a: int, b: int| 0 <= a < b < out@.len() implies out@[a] <= out@[b] by {
                if b < p {
                } else if b == p {
                } else if a < p {
                    assert(out@[b] == old_out[b - 1]);
                    if p < old_out.len() {
                        assert(old_out[p as int] <= old_out[b - 1]);
                    }
                } else if a == p {
                    assert(out@[b] == old_out[b - 1]);
                    assert(x < old_out[p as int]);
                    assert(old_out[p as int] <= old_out[b - 1] || p == b - 1);
                } else {
                    assert(out@[a] == old_out[a - 1]);
                    assert(out@[b] == old_out[b - 1]);
                }
            }
            vstd::seq_lib::to_multiset_insert(old_out, p as int, x);
            assert(v@.take(i as int + 1) =~= v@.take(i as int).push(x));
            vstd::seq_lib::to_multiset_build(v@.take(i as int), x);
        }
        i = i + 1;
    }
    proof {
        assert(v@.take(i as int) =~= v@);
        let s = sorted_u32_of(v@);
        assert(nondecreasing(out@) && out@.to_multiset() == v@.to_multiset());
        lemma_nondecreasing_unique(out@, s);
    }
    out
}

/// The sorted items are an arrangement of the items.
pub proof fn lemma_sorted_items_permutes(items: Seq<Seq<char>>)
    ensures
        is_sorted_arrangement(sorted_items(items), items),
{
    let s = insertion_sorted(items);
    lemma_insertion_sorted(items);
    assert(is_sorted_arrangement(s, items));
}

/// Inserting `x` into a sorted sequence before the first greater item.
pub open spec fn insert_sorted(s: Seq<Seq<char>>, x: Seq<char>) -> Seq<Seq<char>>
    decreases s.len(),
{
    if s.len() == 0 {
        seq![x]
    } else if lex_le(s[0], x) {
        seq![s[0]] + insert_sorted(s.drop_first(), x)
    } else {
        seq![x] + s
    }
}

/// Insertion sort, as a definition.
pub open spec fn insertion_sorted(items: Seq<Seq<char>>) -> Seq<Seq<char>>
    decreases items.len(),
{
    if items.len() == 0 {
        seq![]
    } else {
        insert_sorted(insertion_sorted(items.drop_last()), items.last())
    }
}

proof fn lemma_insert_sorted(s: Seq<Seq<char>>, x: Seq<char>)
    requires
        sorted_seqs(s),
    ensures
        sorted_seqs(insert_sorted(s, x)),
        insert_sorted(s, x).to_multiset() == s.to_multiset().insert(x),
        forall|i: int| 0 <= i < insert_sorted(s, x).len() ==> (#[trigger] insert_sorted(s, x)[i] == x || s.contains(insert_sorted(s, x)[i])),
    decreases s.len(),
{
    if s.len() == 0 {
        assert(seq![x].to_multiset() =~= Multiset::<Seq<char>>::empty().insert(x)) by {
            vstd::seq_lib::to_multiset_build(Seq::<Seq<char>>::empty(), x);
            assert(Seq::<Seq<char>>::empty().push(x) =~= seq![x]);
        }
    } else if lex_le(s[0], x) {
        let t = s.drop_first();
        assert forall|i: int, j: int| 0 <= i < j < t.len() implies lex_le(#[trigger] t[i], #[trigger] t[j]) by {
            assert(t[i] == s[i + 1]);
            assert(t[j] == s[j + 1]);
        }
        lemma_insert_sorted(t, x);
        let r = insert_sorted(t, x);
        let full = seq![s[0]] + r;
        assert forall|i: int| 0 <= i < r.len() implies lex_le(s[0], #[trigger] r[i]) by {
            if r[i] != x {
                assert(t.contains(r[i]));
                let k = choose|k: int| 0 <= k < t.len() && t[k] == r[i];
                assert(t[k] == s[k + 1]);
            }
        }
        assert forall|i: int, j: int| 0 <= i < j < full.len() implies lex_le(#[trigger] full[i], #[trigger] full[j]) by {
            if i == 0 {
                assert(full[j] == r[j - 1]);
            } else {
                assert(full[i] == r[i - 1]);
                assert(full[j] == r[j - 1]);
            }
        }
        assert(s =~= seq![s[0]] + t);
        vstd::seq_lib::lemma_seq_union_to_multiset_commutative(seq![s[0]], r);
        vstd::seq_lib::lemma_seq_union_to_multiset_commutative(seq![s[0]], t);
        vstd::seq_lib::lemma_multiset_commutative(seq![s[0]], r);
        vstd::seq_lib::lemma_multiset_commutative(seq![s[0]], t);
        assert(full.to_multiset() =~= s.to_multiset().insert(x));
        assert forall|i: int| 0 <= i < full.len() implies (#[trigger] full[i] == x || s.contains(full[i])) by {
            if i == 0 {
                assert(s[0] == full[0]);
            } else {
                assert(full[i] == r[i - 1]);
                if r[i - 1] != x {
                    let k = choose|k: int| 0 <= k < t.len() && t[k] == r[i - 1];
                    assert(s[k + 1] == t[k]);
                }
            }
        }
    } else {
        let full = seq![x] + s;
        lemma_lex_total(s[0], x);
        assert forall|i: int, j: int| 0 <= i < j < full.len() implies lex_le(#[trigger] full[i], #[trigger] full[j]) by {
            if i == 0 {
                if j > 1 {
                    lemma_lex_transitive(x, s[0], s[j - 1]);
                }
            } else {
                assert(full[i] == s[i - 1]);
                assert(full[j] == s[j - 1]);
            }
        }
        vstd::seq_lib::lemma_multiset_commutative(seq![x], s);
        assert(full.to_multiset() =~= s.to_multiset().insert(x));
        assert forall|i: int| 0 <= i < full.len() implies (#[trigger] full[i] == x || s.contains(full[i])) by {
            if i > 0 {
                assert(full[i] == s[i - 1]);
            }
        }
    }
}

proof fn lemma_insertion_sorted(items: Seq<Seq<char>>)
    ensures
        is_sorted_arrangement(insertion_sorted(items), items),
    decreases items.len(),
{
    if items.len() == 0 {
        assert(insertion_sorted(items).to_multiset() =~= items.to_multiset());
    } else {
        lemma_insertion_sorted(items.drop_last());
        lemma_insert_sorted(insertion_sorted(items.drop_last()), items.last());
        assert(items =~= items.drop_last().push(items.last()));
        vstd::seq_lib::to_multiset_build(items.drop_last(), items.last());
    }
}

/// In an arrangement of items without repeats, no item repeats.
pub proof fn lemma_no_duplicates_permutation(items: Seq<Seq<char>>, s: Seq<Seq<char>>, a: int, b: int)
    requires
        items.no_duplicates(),
        s.to_multiset() == items.to_multiset(),
        0 <= a < b < s.len(),
    ensures
        s[a] != s[b],
{
    if s[a] == s[b] {
        let x = s[a];
        assert(s.to_multiset().count(x) >= 2) by {
            let t = s.remove(b);
            vstd::seq_lib::to_multiset_remove(s, b);
            assert(t[a] == x);
            vstd::seq_lib::to_multiset_contains(t, x);
            assert(t.contains(x));
        }
        items.lemma_multiset_has_no_duplicates();
    }
}


/// Mapping two sequences that hold the same items gives two sequences that
/// hold the same items.
pub proof fn lemma_map_same_items<A, B>(s1: Seq<A>, s2: Seq<A>, f: spec_fn(A) -> B)
    requires
        s1.to_multiset() == s2.to_multiset(),
    ensures
        s1.map_values(f).to_multiset() == s2.map_values(f).to_multiset(),
    decreases s1.len(),
{
    broadcast use vstd::multiset::group_multiset_axioms;
    vstd::seq_lib::to_multiset_len(s1);
    vstd::seq_lib::to_multiset_len(s2);
    if s1.len() == 0 {
        assert(s1.map_values(f) =~= Seq::<B>::empty());
        assert(s2.map_values(f) =~= Seq::<B>::empty());
    } else {
        let x = s1.last();
        let t1 = s1.drop_last();
        assert(s1 =~= t1.push(x));
        vstd::seq_lib::to_multiset_build(t1, x);
        vstd::seq_lib::to_multiset_contains(s2, x);
        assert(s2.to_multiset().count(x) > 0);
        let i = choose|i: int| 0 <= i < s2.len() && s2[i] == x;
        let t2 = s2.remove(i);
        vstd::seq_lib::to_multiset_remove(s2, i);
        assert(t1.to_multiset() =~= t2.to_multiset());
        lemma_map_same_items(t1, t2, f);
        assert(s1.map_values(f) =~= t1.map_values(f).push(f(x)));
        vstd::seq_lib::to_multiset_build(t1.map_values(f), f(x));
        assert(s2.map_values(f) =~= t2.map_values(f).insert(i, f(x)));
        vstd::seq_lib::to_multiset_insert(t2.map_values(f), i, f(x));
    }
}

/// The lexicographic arrangement of items depends only on which items there
/// are, with their repeats, not on their order.
pub proof fn lemma_sorted_items_same_items(a: Seq<Seq<char>>, b: Seq<Seq<char>>)
    requires
        a.to_multiset() == b.to_multiset(),
    ensures
        sorted_items(a) == sorted_items(b),
{
    lemma_sorted_items_permutes(a);
    lemma_sorted_items_permutes(b);
    lemma_sorted_unique(sorted_items(a), sorted_items(b));
}

/// `x` placed into the increasing sequence `s` where it is not there yet.
pub open spec fn insert_increasing(s: Seq<u32>, x: u32) -> Seq<u32>
    decreases s.len(),
{
    if s.len() == 0 {
        seq![x]
    } else if x < s[0] {
        seq![x] + s
    } else if x == s[0] {
        s
    } else {
        seq![s[0]] + insert_increasing(s.drop_first(), x)
    }
}

proof fn lemma_insert_increasing(s: Seq<u32>, x: u32)
    requires
        strictly_increasing(s),
    ensures
        strictly_increasing(insert_increasing(s, x)),
        forall|y: u32| #[trigger] insert_increasing(s, x).contains(y) <==> (s.contains(y) || y == x),
    decreases s.len(),
{
    if s.len() == 0 {
        assert(insert_increasing(s, x) =~= seq![x]);
        assert forall|y: u32| insert_increasing(s, x).contains(y) <==> (s.contains(y) || y == x) by {
            if insert_increasing(s, x).contains(y) {
                assert(insert_increasing(s, x)[0] == y);
            }
            if y == x {
                assert(insert_increasing(s, x)[0] == x);
            }
        }
    } else if x < s[0] {
        let r = seq![x] + s;
        assert forall|i: int, j: int| 0 <= i < j < r.len() implies r[i] < r[j] by {
            if i > 0 {
                assert(r[i] == s[i - 1] && r[j] == s[j - 1]);
            } else if j > 1 {
                assert(s[0] < s[j - 1]);
            }
        }
        assert forall|y: u32| r.contains(y) <==> (s.contains(y) || y == x) by {
            if r.contains(y) {
                let k = choose|k: int| 0 <= k < r.len() && r[k] == y;
                if k > 0 {
                    assert(s[k - 1] == y);
                }
            }
            if s.contains(y) {
                let k = choose|k: int| 0 <= k < s.len() && s[k] == y;
                assert(r[k + 1] == y);
            }
            if y == x {
                assert(r[0] == x);
            }
        }
    } else if x == s[0] {
        assert(s.contains(x));
    } else {
        let t = s.drop_first();
        assert forall|i: int, j: int| 0 <= i < j < t.len() implies t[i] < t[j] by {
            assert(t[i] == s[i + 1] && t[j] == s[j + 1]);
        }
        lemma_insert_increasing(t, x);
        let u = insert_increasing(t, x);
        let r = seq![s[0]] + u;
        assert(insert_increasing(s, x) == r);
        assert forall|i: int, j: int| 0 <= i < j < r.len() implies r[i] < r[j] by {
            if i == 0 {
                assert(r[j] == u[j - 1]);
                assert(u.contains(u[j - 1]));
                if t.contains(u[j - 1]) {
                    let k = choose|k: int| 0 <= k < t.len() && t[k] == u[j - 1];
                    assert(s[k + 1] == u[j - 1]);
                }
            } else {
                assert(r[i] == u[i - 1] && r[j] == u[j - 1]);
            }
        }
        assert forall|y: u32| r.contains(y) <==> (s.contains(y) || y == x) by {
            if r.contains(y) {
                let k = choose|k: int| 0 <= k < r.len() && r[k] == y;
                if k > 0 {
                    assert(u[k - 1] == y);
                    assert(u.contains(y));
                    if t.contains(y) {
                        let m = choose|m: int| 0 <= m < t.len() && t[m] == y;
                        assert(s[m + 1] == y);
                    }
                } else {
                    assert(s[0] == y);
                }
            }
            if s.contains(y) {
                let k = choose|k: int| 0 <= k < s.len() && s[k] == y;
                if k == 0 {
                    assert(r[0] == y);
                } else {
                    assert(t[k - 1] == y);
                    assert(t.contains(y));
                    assert(u.contains(y));
                    let m = choose|m: int| 0 <= m < u.len() && u[m] == y;
                    assert(r[m + 1] == y);
                }
            }
            if y == x {
                assert(u.contains(x));
                let m = choose|m: int| 0 <= m < u.len() && u[m] == x;
                assert(r[m + 1] == x);
            }
        }
    }
}

/// The distinct values of `v`, built in increasing order one value at a time.
pub open spec fn increasing_build(v: Seq<u32>) -> Seq<u32>
    decreases v.len(),
{
    if v.len() == 0 {
        seq![]
    } else {
        insert_increasing(increasing_build(v.drop_last()), v.last())
    }
}

proof fn lemma_increasing_build(v: Seq<u32>)
    ensures
        strictly_increasing(increasing_build(v)),
        forall|y: u32| increasing_build(v).contains(y) <==> v.contains(y),
    decreases v.len(),
{
    if v.len() > 0 {
        lemma_increasing_build(v.drop_last());
        lemma_insert_increasing(increasing_build(v.drop_last()), v.last());
        assert forall|y: u32| increasing_build(v).contains(y) <==> v.contains(y) by {
            if v.contains(y) {
                let k = choose|k: int| 0 <= k < v.len() && v[k] == y;
                if k < v.len() - 1 {
                    assert(v.drop_last()[k] == y);
                }
            }
            if v.drop_last().contains(y) {
                let k = choose|k: int| 0 <= k < v.drop_last().len() && v.drop_last()[k] == y;
                assert(v[k] == y);
            }
        }
    }
}

/// The distinct values in increasing order exist, and depend only on which
/// values occur.
pub proof fn lemma_sorted_distinct_same_values(a: Seq<u32>, b: Seq<u32>)
    requires
        forall|x: u32| a.contains(x) <==> b.contains(x),
    ensures
        strictly_increasing(sorted_distinct_of(a)),
        forall|x: u32| sorted_distinct_of(a).contains(x) <==> a.contains(x),
        sorted_distinct_of(a) == sorted_distinct_of(b),
{
    lemma_increasing_build(a);
    lemma_increasing_build(b);
    let sa = sorted_distinct_of(a);
    let sb = sorted_distinct_of(b);
    assert(strictly_increasing(increasing_build(a)) && forall|x: u32| increasing_build(a).contains(x) <==> a.contains(x));
    assert(strictly_increasing(increasing_build(b)) && forall|x: u32| increasing_build(b).contains(x) <==> b.contains(x));
    lemma_increasing_unique(sa, sb);
}

} // verus!
