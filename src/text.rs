//! Text primitives: equality and lexicographic order on character sequences,
//! and an order-keeping insertion used by every sorted listing.
use vstd::prelude::*;
use vstd::string::*;

verus! {

/// Lexicographic order on character sequences, by code point; a prefix comes first.
/// For valid UTF-8 this is the order in which `str` compares its bytes.
pub open spec fn lex_le(a: Seq<char>, b: Seq<char>) -> bool
    decreases a.len(),
{
    if a.len() == 0 {
        true
    } else if b.len() == 0 {
        false
    } else if a[0] != b[0] {
        a[0] < b[0]
    } else {
        lex_le(a.drop_first(), b.drop_first())
    }
}

/// Every pair of positions appears in order.
pub open spec fn sorted(s: Seq<Seq<char>>) -> bool {
    forall|i: int, j: int| 0 <= i < j < s.len() ==> lex_le(#[trigger] s[i], #[trigger] s[j])
}

/// The character sequences that a list of strings holds.
pub open spec fn texts(v: Seq<String>) -> Seq<Seq<char>> {
    v.map_values(|s: String| s@)
}

pub proof fn lemma_lex_total(a: Seq<char>, b: Seq<char>)
    ensures
        lex_le(a, b) || lex_le(b, a),
    decreases a.len(),
{
    if a.len() > 0 && b.len() > 0 && a[0] == b[0] {
        lemma_lex_total(a.drop_first(), b.drop_first());
    }
}

pub proof fn lemma_lex_trans(a: Seq<char>, b: Seq<char>, c: Seq<char>)
    requires
        lex_le(a, b),
        lex_le(b, c),
    ensures
        lex_le(a, c),
    decreases a.len(),
{
    if a.len() > 0 && b.len() > 0 && c.len() > 0 && a[0] == b[0] && b[0] == c[0] {
        lemma_lex_trans(a.drop_first(), b.drop_first(), c.drop_first());
    }
}

pub proof fn lemma_lex_antisym(a: Seq<char>, b: Seq<char>)
    requires
        lex_le(a, b),
        lex_le(b, a),
    ensures
        a == b,
    decreases a.len(),
{
    if a.len() > 0 && b.len() > 0 {
        lemma_lex_antisym(a.drop_first(), b.drop_first());
        assert(a =~= seq![a[0]] + a.drop_first());
        assert(b =~= seq![b[0]] + b.drop_first());
    } else {
        assert(a =~= b);
    }
}

/// Two ordered lists that hold the same texts, as often each, are the same list:
/// the order of a sorted listing does not depend on the order its items came in.
pub proof fn lemma_sorted_unique(x: Seq<Seq<char>>, y: Seq<Seq<char>>)
    requires
        sorted(x),
        sorted(y),
        x.to_multiset() == y.to_multiset(),
    ensures
        x == y,
    decreases x.len(),
{
    x.to_multiset_ensures();
    y.to_multiset_ensures();
    if x.len() == 0 {
        assert(x =~= y);
    } else {
        vstd::seq_lib::to_multiset_contains(x, y[0]);
        vstd::seq_lib::to_multiset_contains(y, y[0]);
        vstd::seq_lib::to_multiset_contains(x, x[0]);
        vstd::seq_lib::to_multiset_contains(y, x[0]);
        let j = choose|j: int| 0 <= j < y.len() && y[j] == x[0];
        let k = choose|k: int| 0 <= k < x.len() && x[k] == y[0];
        if x[0] != y[0] {
            assert(j > 0 && lex_le(y[0], y[j]));
            assert(k > 0 && lex_le(x[0], x[k]));
            lemma_lex_antisym(x[0], y[0]);
        }
        vstd::seq_lib::to_multiset_remove(x, 0);
        vstd::seq_lib::to_multiset_remove(y, 0);
        let x1 = x.remove(0);
        let y1 = y.remove(0);
        assert(sorted(x1)) by {
            assert forall|a: int, b: int| 0 <= a < b < x1.len() implies lex_le(#[trigger] x1[a], #[trigger] x1[b]) by {
                assert(x1[a] == x[a + 1] && x1[b] == x[b + 1]);
            }
        }
        assert(sorted(y1)) by {
            assert forall|a: int, b: int| 0 <= a < b < y1.len() implies lex_le(#[trigger] y1[a], #[trigger] y1[b]) by {
                assert(y1[a] == y[a + 1] && y1[b] == y[b + 1]);
            }
        }
        lemma_sorted_unique(x1, y1);
        assert(x =~= y) by {
            assert forall|i: int| 0 <= i < x.len() implies x[i] == y[i] by {
                if i > 0 {
                    assert(x[i] == x1[i - 1] && y[i] == y1[i - 1]);
                }
            }
        }
    }
}

/// Whether two texts hold the same characters.
pub fn same_text(a: &str, b: &str) -> (r: bool)
    ensures
        r == (a@ == b@),
{
    let n = a.unicode_len();
    let m = b.unicode_len();
    if n != m {
        return false;
    }
    let mut i: usize = 0;
    while i < n
        invariant
            n == a@.len(),
            m == b@.len(),
            n == m,
            i <= n,
            a@.subrange(0, i as int) == b@.subrange(0, i as int),
        decreases n - i,
    {
        if a.get_char(i) != b.get_char(i) {
            return false;
        }
        assert(a@.subrange(0, i + 1) =~= a@.subrange(0, i as int).push(a@[i as int]));
        assert(b@.subrange(0, i + 1) =~= b@.subrange(0, i as int).push(b@[i as int]));
        i = i + 1;
    }
    assert(a@ =~= a@.subrange(0, n as int));
    assert(b@ =~= b@.subrange(0, n as int));
    true
}

/// Whether `a` comes no later than `b` in lexicographic order.
pub fn text_le(a: &str, b: &str) -> (r: bool)
    ensures
        r == lex_le(a@, b@),
{
    let n = a.unicode_len();
    let m = b.unicode_len();
    let mut i: usize = 0;
    assert(a@.skip(0) =~= a@);
    assert(b@.skip(0) =~= b@);
    while i < n && i < m
        invariant
            n == a@.len(),
            m == b@.len(),
            i <= n,
            i <= m,
            lex_le(a@, b@) == lex_le(a@.skip(i as int), b@.skip(i as int)),
        decreases n - i,
    {
        let x = a.get_char(i);
        let y = b.get_char(i);
        assert(a@.skip(i as int)[0] == x);
        assert(b@.skip(i as int)[0] == y);
        if x != y {
            return x < y;
        }
        assert(a@.skip(i as int).drop_first() =~= a@.skip(i + 1));
        assert(b@.skip(i as int).drop_first() =~= b@.skip(i + 1));
        i = i + 1;
    }
    assert(a@.skip(i as int).len() == n - i);
    assert(b@.skip(i as int).len() == m - i);
    i == n
}

/// Inserts `s` into an ordered list, keeping it ordered.
pub fn insert_sorted(v: &mut Vec<String>, s: String)
    requires
        sorted(texts(old(v)@)),
    ensures
        sorted(texts(final(v)@)),
        texts(final(v)@).to_multiset() == texts(old(v)@).to_multiset().insert(s@),
        texts(final(v)@).len() == old(v)@.len() + 1,
{
    let ghost t0 = texts(v@);
    let mut k: usize = 0;
    while k < v.len() && text_le(v[k].as_str(), s.as_str())
        invariant
            k <= v@.len(),
            v@ == old(v)@,
            t0 == texts(v@),
            sorted(t0),
            forall|j: int| 0 <= j < k ==> lex_le(#[trigger] t0[j], s@),
        decreases v@.len() - k,
    {
        k = k + 1;
    }
    proof {
        if k < v@.len() {
            lemma_lex_total(s@, t0[k as int]);
            assert forall|j: int| k <= j < t0.len() implies lex_le(s@, #[trigger] t0[j]) by {
                if j > k {
                    lemma_lex_trans(s@, t0[k as int], t0[j]);
                }
            }
        }
    }
    v.insert(k, s);
    proof {
        let t1 = texts(v@);
        assert(t1 =~= t0.insert(k as int, s@));
        vstd::seq_lib::to_multiset_insert(t0, k as int, s@);
        assert forall|i: int, j: int| 0 <= i < j < t1.len() implies lex_le(
            #[trigger] t1[i],
            #[trigger] t1[j],
        ) by {
            if j < k {
            } else if i < k && j == k {
            } else if i < k {
                assert(t1[j] == t0[j - 1]);
            } else if i == k {
                assert(t1[j] == t0[j - 1]);
            } else {
                assert(t1[i] == t0[i - 1]);
                assert(t1[j] == t0[j - 1]);
            }
        }
    }
}

/// The same strings, in lexicographic order.
pub fn sort_texts(v: Vec<String>) -> (r: Vec<String>)
    ensures
        sorted(texts(r@)),
        texts(r@).to_multiset() == texts(v@).to_multiset(),
        r@.len() == v@.len(),
{
    let mut out: Vec<String> = Vec::new();
    let mut i: usize = 0;
    assert(texts(v@.take(0)) =~= texts(out@));
    while i < v.len()
        invariant
            i <= v@.len(),
            sorted(texts(out@)),
            texts(out@).to_multiset() == texts(v@.take(i as int)).to_multiset(),
            out@.len() == i,
        decreases v@.len() - i,
    {
        let s = v[i].clone();
        insert_sorted(&mut out, s);
        proof {
            assert(texts(v@.take(i + 1)) =~= texts(v@.take(i as int)).push(v@[i as int]@));
            vstd::seq_lib::to_multiset_build(texts(v@.take(i as int)), v@[i as int]@);
        }
        i = i + 1;
    }
    assert(v@.take(i as int) =~= v@);
    out
}

/// `a` followed by `b`, as a new string.
pub fn joined(a: &str, b: &str) -> (r: String)
    ensures
        r@ == a@ + b@,
{
    let mut r = String::from_str(a);
    r.append(b);
    r
}

} // verus!
