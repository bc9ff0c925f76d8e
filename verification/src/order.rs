use vstd::prelude::*;

verus! {

/// Lexicographic comparison of integer sequences: -1, 0 or 1. A proper prefix comes first.
pub open spec fn lex_compare(a: Seq<int>, b: Seq<int>) -> int
    decreases a.len(),
{
    if a.len() == 0 {
        if b.len() == 0 { 0 } else { -1 }
    } else if b.len() == 0 {
        1
    } else if a[0] < b[0] {
        -1
    } else if a[0] > b[0] {
        1
    } else {
        lex_compare(a.drop_first(), b.drop_first())
    }
}

/// `lex_compare` is 0 exactly on equal sequences.
pub proof fn lemma_lex_eq(a: Seq<int>, b: Seq<int>)
    ensures
        (lex_compare(a, b) == 0) <==> (a == b),
        -1 <= lex_compare(a, b) <= 1,
    decreases a.len(),
{
    if a.len() == 0 && b.len() == 0 {
        assert(a =~= b);
    }
    if a.len() > 0 && b.len() > 0 && a[0] == b[0] {
        lemma_lex_eq(a.drop_first(), b.drop_first());
        if a.drop_first() == b.drop_first() {
            assert(a =~= seq![a[0]] + a.drop_first());
            assert(b =~= seq![b[0]] + b.drop_first());
        }
        if a == b {
            assert(a.drop_first() =~= b.drop_first());
        }
    }
}

/// Swapping the arguments negates `lex_compare`.
pub proof fn lemma_lex_antisymmetric(a: Seq<int>, b: Seq<int>)
    ensures
        lex_compare(a, b) == -lex_compare(b, a),
    decreases a.len(),
{
    if a.len() > 0 && b.len() > 0 && a[0] == b[0] {
        lemma_lex_antisymmetric(a.drop_first(), b.drop_first());
    }
}

/// `lex_compare` orders sequences transitively.
pub proof fn lemma_lex_transitive(a: Seq<int>, b: Seq<int>, c: Seq<int>)
    requires
        lex_compare(a, b) < 0,
        lex_compare(b, c) < 0,
    ensures
        lex_compare(a, c) < 0,
    decreases a.len(),
{
    if a.len() > 0 && b.len() > 0 && c.len() > 0 && a[0] == b[0] && b[0] == c[0] {
        lemma_lex_transitive(a.drop_first(), b.drop_first(), c.drop_first());
    }
}

/// `lex_compare` with an equal sequence on one side.
pub proof fn lemma_lex_transitive_le(a: Seq<int>, b: Seq<int>, c: Seq<int>)
    requires
        lex_compare(a, b) <= 0,
        lex_compare(b, c) <= 0,
    ensures
        lex_compare(a, c) <= 0,
        lex_compare(a, b) < 0 || lex_compare(b, c) < 0 ==> lex_compare(a, c) < 0,
{
    lemma_lex_eq(a, b);
    lemma_lex_eq(b, c);
    if lex_compare(a, b) < 0 && lex_compare(b, c) < 0 {
        lemma_lex_transitive(a, b, c);
    }
}

/// Lexicographic comparison of two keys: -1, 0 or 1.
pub fn compare_keys(a: &Vec<i64>, b: &Vec<i64>) -> (c: i8)
    ensures
        c as int == lex_compare(a@.map_values(|x: i64| x as int), b@.map_values(|x: i64| x as int)),
{
    let ghost sa = a@.map_values(|x: i64| x as int);
    let ghost sb = b@.map_values(|x: i64| x as int);
    let mut i: usize = 0;
    while i < a.len() && i < b.len()
        invariant
            i <= a.len(),
            i <= b.len(),
            sa == a@.map_values(|x: i64| x as int),
            sb == b@.map_values(|x: i64| x as int),
            forall|k: int| 0 <= k < i ==> a@[k] == b@[k],
        decreases a.len() - i,
    {
        if a[i] < b[i] {
            proof { lemma_lex_skip(sa, sb, i as int); }
            return -1;
        }
        if a[i] > b[i] {
            proof { lemma_lex_skip(sa, sb, i as int); }
            return 1;
        }
        i = i + 1;
    }
    proof { lemma_lex_skip(sa, sb, i as int); }
    if a.len() == b.len() {
        0
    } else if a.len() < b.len() {
        -1
    } else {
        1
    }
}

/// Comparing after a common prefix of length `n`.
pub proof fn lemma_lex_skip(a: Seq<int>, b: Seq<int>, n: int)
    requires
        0 <= n <= a.len(),
        n <= b.len(),
        forall|k: int| 0 <= k < n ==> a[k] == b[k],
    ensures
        lex_compare(a, b) == lex_compare(a.skip(n), b.skip(n)),
    decreases n,
{
    if n > 0 {
        assert(a.drop_first().skip(n - 1) =~= a.skip(n));
        assert(b.drop_first().skip(n - 1) =~= b.skip(n));
        lemma_lex_skip(a.drop_first(), b.drop_first(), n - 1);
    } else {
        assert(a.skip(0) =~= a);
        assert(b.skip(0) =~= b);
    }
}

/// `p` is a prefix of `q`.
pub open spec fn is_prefix(p: Seq<int>, q: Seq<int>) -> bool {
    p.len() <= q.len() && q.take(p.len() as int) == p
}

/// Neither of two different sequences is a prefix of the other, so that what follows them
/// cannot change how they compare.
pub open spec fn prefix_free(p: Seq<int>, q: Seq<int>) -> bool {
    p == q || (!is_prefix(p, q) && !is_prefix(q, p))
}

/// A common prefix does not change a comparison.
pub proof fn lemma_lex_common_prefix(p: Seq<int>, x: Seq<int>, y: Seq<int>)
    ensures
        lex_compare(p + x, p + y) == lex_compare(x, y),
{
    lemma_lex_skip(p + x, p + y, p.len() as int);
    assert((p + x).skip(p.len() as int) =~= x);
    assert((p + y).skip(p.len() as int) =~= y);
}

/// Sequences that differ before either ends compare the same whatever follows them.
pub proof fn lemma_lex_decided(p: Seq<int>, q: Seq<int>, x: Seq<int>, y: Seq<int>)
    requires
        p != q,
        !is_prefix(p, q),
        !is_prefix(q, p),
    ensures
        lex_compare(p + x, q + y) == lex_compare(p, q),
    decreases p.len(),
{
    if p.len() == 0 {
        assert(q.take(0) =~= p);
    } else if q.len() == 0 {
        assert(p.take(0) =~= q);
    } else if p[0] == q[0] {
        let p1 = p.drop_first();
        let q1 = q.drop_first();
        if p1 == q1 {
            assert(p =~= seq![p[0]] + p1);
            assert(q =~= seq![q[0]] + q1);
        }
        if is_prefix(p1, q1) {
            assert(q.take(p.len() as int) =~= seq![q[0]] + q1.take(p1.len() as int));
            assert(p =~= seq![p[0]] + p1);
        }
        if is_prefix(q1, p1) {
            assert(p.take(q.len() as int) =~= seq![p[0]] + p1.take(q1.len() as int));
            assert(q =~= seq![q[0]] + q1);
        }
        lemma_lex_decided(p1, q1, x, y);
        assert((p + x).drop_first() =~= p1 + x);
        assert((q + y).drop_first() =~= q1 + y);
    } else {
        assert((p + x)[0] == p[0]);
        assert((q + y)[0] == q[0]);
    }
}

} // verus!
