//! Orders and sorting: the lexicographic order on strings (what `Ord` on
//! `str` compares) and a stable insertion sort for any strict order.

use vstd::prelude::*;
use crate::text::views;

verus! {

/// `a` comes strictly before `b` in lexicographic order of character codes
/// (the order of `Ord` on `str`, whose UTF-8 byte order agrees with it).
pub open spec fn seq_lt(a: Seq<char>, b: Seq<char>) -> bool
    decreases a.len(),
{
    if a.len() == 0 {
        b.len() > 0
    } else if b.len() == 0 {
        false
    } else if (a[0] as u32) < (b[0] as u32) {
        true
    } else if a[0] == b[0] {
        seq_lt(a.drop_first(), b.drop_first())
    } else {
        false
    }
}

pub proof fn lemma_seq_lt_irreflexive(a: Seq<char>)
    ensures
        !seq_lt(a, a),
    decreases a.len(),
{
    if a.len() > 0 {
        lemma_seq_lt_irreflexive(a.drop_first());
    }
}

pub proof fn lemma_seq_lt_transitive(a: Seq<char>, b: Seq<char>, c: Seq<char>)
    requires
        seq_lt(a, b),
        seq_lt(b, c),
    ensures
        seq_lt(a, c),
    decreases a.len(),
{
    if a.len() > 0 && b.len() > 0 && c.len() > 0 {
        if a[0] == b[0] && b[0] == c[0] {
            lemma_seq_lt_transitive(a.drop_first(), b.drop_first(), c.drop_first());
        }
    }
}

pub proof fn lemma_seq_lt_total(a: Seq<char>, b: Seq<char>)
    ensures
        a == b || seq_lt(a, b) || seq_lt(b, a),
    decreases a.len(),
{
    if a.len() > 0 && b.len() > 0 && a[0] == b[0] {
        lemma_seq_lt_total(a.drop_first(), b.drop_first());
        if a.drop_first() == b.drop_first() {
            assert(a =~= seq![a[0]] + a.drop_first());
            assert(b =~= seq![b[0]] + b.drop_first());
        }
    } else if a.len() == 0 && b.len() == 0 {
        assert(a =~= b);
    } else if a.len() > 0 && b.len() > 0 {
        vstd::utf8::char_u32_cast(a[0], a[0] as u32);
        vstd::utf8::char_u32_cast(b[0], b[0] as u32);
        assert((a[0] as u32) != (b[0] as u32));
    }
}

/// `a < b` on strings, by the lexicographic order of their characters.
pub fn str_lt(a: &str, b: &str) -> (r: bool)
    ensures
        r == seq_lt(a@, b@),
{
    let n = a.unicode_len();
    let m = b.unicode_len();
    let mut i: usize = 0;
    assert(a@.skip(0) =~= a@);
    assert(b@.skip(0) =~= b@);
    while i < n && i < m
        invariant
            n == a@.len(),
            m == b@.len(),
            i <= n,
            i <= m,
            seq_lt(a@, b@) == seq_lt(a@.skip(i as int), b@.skip(i as int)),
        decreases n - i,
    {
        let x = a.get_char(i);
        let y = b.get_char(i);
        let ghost sa = a@.skip(i as int);
        let ghost sb = b@.skip(i as int);
        assert(sa[0] == x && sb[0] == y);
        if (x as u32) < (y as u32) {
            return true;
        }
        if x != y {
            return false;
        }
        assert(sa.drop_first() =~= a@.skip(i + 1));
        assert(sb.drop_first() =~= b@.skip(i + 1));
        i = i + 1;
    }
    assert(a@.skip(i as int).len() == n - i);
    assert(b@.skip(i as int).len() == m - i);
    i < m
}

/// `lt` is a strict order: irreflexive and transitive.
pub open spec fn strict_order<T>(lt: spec_fn(T, T) -> bool) -> bool {
    &&& forall|a: T| !#[trigger] lt(a, a)
    &&& forall|a: T, b: T, c: T| #[trigger] lt(a, b) && #[trigger] lt(b, c) ==> lt(a, c)
}

/// No element of `s` comes strictly before an earlier one.
pub open spec fn sorted_by<T>(s: Seq<T>, lt: spec_fn(T, T) -> bool) -> bool {
    forall|i: int, j: int| 0 <= i < j < s.len() ==> !lt(#[trigger] s[j], #[trigger] s[i])
}

/// Where `x` goes in a sorted sequence to keep it sorted and stable: before
/// the first element that `x` comes strictly before.
pub open spec fn insert_pos<T>(s: Seq<T>, x: T, lt: spec_fn(T, T) -> bool) -> int
    decreases s.len(),
{
    if s.len() == 0 {
        0
    } else if lt(x, s[0]) {
        0
    } else {
        1 + insert_pos(s.drop_first(), x, lt)
    }
}

/// The stable sort of `s` by `lt`: each element in turn is placed after
/// every element that does not come after it.
pub open spec fn stable_sorted<T>(s: Seq<T>, lt: spec_fn(T, T) -> bool) -> Seq<T>
    decreases s.len(),
{
    if s.len() == 0 {
        s
    } else {
        let r = stable_sorted(s.drop_last(), lt);
        r.insert(insert_pos(r, s.last(), lt), s.last())
    }
}

pub proof fn lemma_insert_pos_bounds<T>(s: Seq<T>, x: T, lt: spec_fn(T, T) -> bool)
    ensures
        0 <= insert_pos(s, x, lt) <= s.len(),
        forall|j: int| 0 <= j < insert_pos(s, x, lt) ==> !lt(x, #[trigger] s[j]),
        insert_pos(s, x, lt) < s.len() ==> lt(x, s[insert_pos(s, x, lt)]),
    decreases s.len(),
{
    if s.len() > 0 && !lt(x, s[0]) {
        lemma_insert_pos_bounds(s.drop_first(), x, lt);
        assert forall|j: int| 0 <= j < insert_pos(s, x, lt) implies !lt(x, #[trigger] s[j]) by {
            if j > 0 {
                assert(s[j] == s.drop_first()[j - 1]);
            }
        }
    }
}

/// The first position whose element `x` comes strictly before is
/// `insert_pos`.
pub proof fn lemma_insert_pos_is_first<T>(s: Seq<T>, x: T, lt: spec_fn(T, T) -> bool, i: int)
    requires
        0 <= i <= s.len(),
        forall|j: int| 0 <= j < i ==> !lt(x, #[trigger] s[j]),
        i == s.len() || lt(x, s[i]),
    ensures
        insert_pos(s, x, lt) == i,
    decreases s.len(),
{
    if s.len() > 0 && i > 0 {
        assert(!lt(x, s[0]));
        assert forall|j: int| 0 <= j < i - 1 implies !lt(x, #[trigger] s.drop_first()[j]) by {
            assert(s.drop_first()[j] == s[j + 1]);
        }
        lemma_insert_pos_is_first(s.drop_first(), x, lt, i - 1);
    }
}

/// Sorting is stable sorting: the result is sorted and holds exactly the
/// elements of the input.
pub proof fn lemma_stable_sorted<T>(s: Seq<T>, lt: spec_fn(T, T) -> bool)
    requires
        strict_order(lt),
    ensures
        sorted_by(stable_sorted(s, lt), lt),
        stable_sorted(s, lt).to_multiset() == s.to_multiset(),
        stable_sorted(s, lt).len() == s.len(),
    decreases s.len(),
{
    broadcast use vstd::seq_lib::group_to_multiset_ensures;
    if s.len() > 0 {
        let d = s.drop_last();
        let x = s.last();
        lemma_stable_sorted(d, lt);
        let r = stable_sorted(d, lt);
        let p = insert_pos(r, x, lt);
        lemma_insert_pos_bounds(r, x, lt);
        let t = r.insert(p, x);
        assert(t == stable_sorted(s, lt));
        assert forall|i: int, j: int| 0 <= i < j < t.len() implies !lt(#[trigger] t[j], #[trigger] t[i]) by {
            if j < p {
                assert(t[i] == r[i] && t[j] == r[j]);
            } else if j == p {
                assert(t[j] == x && t[i] == r[i]);
            } else if i == p {
                assert(t[i] == x && t[j] == r[j - 1]);
                if lt(r[j - 1], x) {
                    if j - 1 > p {
                        assert(!lt(r[j - 1], r[p]));
                    }
                    assert(lt(x, r[p]));
                    assert(lt(r[j - 1], r[p]));
                }
            } else if i < p {
                assert(t[i] == r[i] && t[j] == r[j - 1]);
            } else {
                assert(t[i] == r[i - 1] && t[j] == r[j - 1]);
            }
        }
        r.insert_ensures(p, x);
        assert(s =~= d.push(x));
        assert(t.to_multiset() =~= r.to_multiset().insert(x)) by {
            vstd::seq_lib::lemma_multiset_commutative(r.subrange(0, p), seq![x] + r.subrange(p, r.len() as int));
            assert(r =~= r.subrange(0, p) + r.subrange(p, r.len() as int));
            assert(t =~= r.subrange(0, p) + (seq![x] + r.subrange(p, r.len() as int)));
            vstd::seq_lib::lemma_multiset_commutative(r.subrange(0, p), r.subrange(p, r.len() as int));
            vstd::seq_lib::lemma_multiset_commutative(seq![x], r.subrange(p, r.len() as int));
        }
    }
}

/// The order of `Ord` on strings, as a spec closure.
pub open spec fn str_order() -> spec_fn(Seq<char>, Seq<char>) -> bool {
    |a: Seq<char>, b: Seq<char>| seq_lt(a, b)
}

pub proof fn lemma_str_order_strict()
    ensures
        strict_order(str_order()),
{
    assert forall|a: Seq<char>| !#[trigger] str_order()(a, a) by {
        lemma_seq_lt_irreflexive(a);
    }
    assert forall|a: Seq<char>, b: Seq<char>, c: Seq<char>|
        #[trigger] str_order()(a, b) && #[trigger] str_order()(b, c) implies str_order()(a, c) by {
        lemma_seq_lt_transitive(a, b, c);
    }
}

/// Sorts strings in ascending order (what `sort` does on a `Vec<String>`).
pub fn sort_strings(v: Vec<String>) -> (r: Vec<String>)
    ensures
        views(r@) == stable_sorted(views(v@), str_order()),
{
    let ghost orig = views(v@);
    let ghost lt = str_order();
    let mut rest = v;
    let mut out: Vec<String> = Vec::new();
    assert(orig.take(0) =~= Seq::<Seq<char>>::empty());
    assert(orig.skip(0) =~= orig);
    while rest.len() > 0
        invariant
            lt == str_order(),
            orig.len() >= rest@.len(),
            views(rest@) == orig.skip(orig.len() - rest@.len()),
            views(out@) == stable_sorted(orig.take(orig.len() - rest@.len()), lt),
        decreases rest@.len(),
    {
        let ghost c = orig.len() - rest@.len();
        let ghost old_rest = rest@;
        let x = rest.remove(0);
        proof {
            assert(views(old_rest)[0] == orig.skip(c)[0]);
            assert(x@ == orig[c]);
            assert forall|k: int| 0 <= k < rest@.len() implies #[trigger] views(rest@)[k] == orig.skip(c + 1)[k] by {
                assert(rest@[k] == old_rest[k + 1]);
                assert(views(old_rest)[k + 1] == orig.skip(c)[k + 1]);
            }
            assert(views(rest@) =~= orig.skip(c + 1));
        }
        let mut p: usize = 0;
        while p < out.len() && !str_lt(x.as_str(), out[p].as_str())
            invariant
                lt == str_order(),
                p <= out@.len(),
                forall|j: int| 0 <= j < p ==> !lt(x@, #[trigger] views(out@)[j]),
            decreases out@.len() - p,
        {
            p = p + 1;
        }
        proof {
            lemma_insert_pos_is_first(views(out@), x@, lt, p as int);
            let t = orig.take(c + 1);
            assert(t.drop_last() =~= orig.take(c));
            assert(t.last() == x@);
        }
        let ghost before = views(out@);
        out.insert(p, x);
        proof {
            assert(views(out@) =~= before.insert(p as int, orig[c]));
        }
    }
    proof {
        assert(orig.take(orig.len() as int) =~= orig);
    }
    out
}

/// `s` lists the strings of `keys` in ascending order, each once.
pub open spec fn sorted_listing(s: Seq<Seq<char>>, keys: Set<Seq<char>>) -> bool {
    &&& sorted_by(s, str_order())
    &&& s.no_duplicates()
    &&& forall|k: Seq<char>| #[trigger] s.contains(k) <==> keys.contains(k)
}

/// The ascending listing of a set of strings (when it is finite).
pub open spec fn listing_of(keys: Set<Seq<char>>) -> Seq<Seq<char>> {
    choose|s: Seq<Seq<char>>| sorted_listing(s, keys)
}

proof fn lemma_sorted_listing_unique(a: Seq<Seq<char>>, b: Seq<Seq<char>>, keys: Set<Seq<char>>)
    requires
        sorted_listing(a, keys),
        sorted_listing(b, keys),
    ensures
        a == b,
    decreases a.len(),
{
    if a.len() == 0 {
        if b.len() > 0 {
            assert(b.contains(b[0]));
            assert(keys.contains(b[0]));
            assert(a.contains(b[0]));
            let m = choose|m: int| 0 <= m < a.len() && a[m] == b[0];
            assert(false);
        }
        assert(a =~= b);
    } else {
        assert(a.contains(a[0]));
        assert(b.contains(a[0]));
        let j = choose|j: int| 0 <= j < b.len() && b[j] == a[0];
        assert(b.contains(b[0]));
        assert(a.contains(b[0]));
        let i = choose|i: int| 0 <= i < a.len() && a[i] == b[0];
        if j > 0 {
            assert(i != 0);
            assert(!seq_lt(a[i], a[0]));
            assert(!seq_lt(b[j], b[0]));
            lemma_seq_lt_total(a[0], b[0]);
            assert(false);
        }
        assert(a[0] == b[0]);
        let k2 = keys.remove(a[0]);
        let a2 = a.drop_first();
        let b2 = b.drop_first();
        assert forall|k: Seq<char>| #[trigger] a2.contains(k) <==> k2.contains(k) by {
            if a2.contains(k) {
                let m = choose|m: int| 0 <= m < a2.len() && a2[m] == k;
                assert(a[m + 1] == k);
                assert(a.contains(k));
            }
            if k2.contains(k) {
                assert(a.contains(k));
                let m = choose|m: int| 0 <= m < a.len() && a[m] == k;
                assert(m != 0);
                assert(a2[m - 1] == k);
            }
        }
        assert forall|k: Seq<char>| #[trigger] b2.contains(k) <==> k2.contains(k) by {
            if b2.contains(k) {
                let m = choose|m: int| 0 <= m < b2.len() && b2[m] == k;
                assert(b[m + 1] == k);
                assert(b.contains(k));
            }
            if k2.contains(k) {
                assert(b.contains(k));
                let m = choose|m: int| 0 <= m < b.len() && b[m] == k;
                assert(m != 0);
                assert(b2[m - 1] == k);
            }
        }
        assert forall|x: int, y: int| 0 <= x < y < a2.len() implies !str_order()(#[trigger] a2[y], #[trigger] a2[x]) by {
            assert(a2[x] == a[x + 1] && a2[y] == a[y + 1]);
        }
        assert forall|x: int, y: int| 0 <= x < y < b2.len() implies !str_order()(#[trigger] b2[y], #[trigger] b2[x]) by {
            assert(b2[x] == b[x + 1] && b2[y] == b[y + 1]);
        }
        lemma_sorted_listing_unique(a2, b2, k2);
        assert(a =~= b) by {
            assert forall|m: int| 0 <= m < a.len() implies a[m] == b[m] by {
                if m > 0 {
                    assert(a[m] == a2[m - 1]);
                    assert(b[m] == b2[m - 1]);
                }
            }
        }
    }
}

/// Any ascending listing of a set is *the* listing of that set.
pub proof fn lemma_listing_of(s: Seq<Seq<char>>, keys: Set<Seq<char>>)
    requires
        sorted_listing(s, keys),
    ensures
        listing_of(keys) == s,
{
    let t = listing_of(keys);
    lemma_sorted_listing_unique(s, t, keys);
}

/// Sorting a sequence of distinct strings lists them in ascending order.
pub proof fn lemma_sorting_lists(v: Seq<Seq<char>>)
    requires
        v.no_duplicates(),
    ensures
        sorted_listing(stable_sorted(v, str_order()), v.to_set()),
{
    broadcast use vstd::seq_lib::group_to_multiset_ensures;
    lemma_str_order_strict();
    lemma_stable_sorted(v, str_order());
    let r = stable_sorted(v, str_order());
    v.lemma_multiset_has_no_duplicates();
    assert forall|x: Seq<char>| r.to_multiset().contains(x) implies r.to_multiset().count(x) == 1 by {
    }
    r.lemma_multiset_has_no_duplicates_conv();
    assert forall|k: Seq<char>| #[trigger] r.contains(k) <==> v.to_set().contains(k) by {
        assert(r.to_multiset().count(k) == v.to_multiset().count(k));
    }
}

} // verus!
