//! Small executable helpers on byte vectors.

use vstd::prelude::*;

verus! {

/// Append every byte of `src` to `dst`.
pub fn push_all(dst: &mut Vec<u8>, src: &[u8])
    ensures
        final(dst)@ == old(dst)@ + src@,
{
    let mut i: usize = 0;
    while i < src.len()
        invariant
            i <= src@.len(),
            dst@ =~= old(dst)@ + src@.subrange(0, i as int),
        decreases src@.len() - i,
    {
        dst.push(src[i]);
        proof {
            assert(dst@ =~= old(dst)@ + src@.subrange(0, i + 1));
        }
        i = i + 1;
    }
    proof {
        assert(src@.subrange(0, src@.len() as int) =~= src@);
    }
}

/// The views of a sequence of byte vectors.
pub open spec fn views_of(r: Seq<Vec<u8>>) -> Seq<Seq<u8>> {
    Seq::new(r.len(), |i: int| r[i]@)
}

/// Copy a byte string into a fresh vector.
pub fn to_vec(s: &[u8]) -> (r: Vec<u8>)
    ensures
        r@ == s@,
{
    let mut r: Vec<u8> = Vec::new();
    push_all(&mut r, s);
    proof {
        assert(r@ =~= s@);
    }
    r
}

/// Byte-for-byte equality of two byte strings.
pub fn bytes_eq(a: &[u8], b: &[u8]) -> (r: bool)
    ensures
        r == (a@ == b@),
{
    if a.len() != b.len() {
        proof {
            assert(a@ != b@);
        }
        return false;
    }
    let mut i: usize = 0;
    while i < a.len()
        invariant
            i <= a@.len(),
            a@.len() == b@.len(),
            forall|j: int| 0 <= j < i ==> a@[j] == b@[j],
        decreases a@.len() - i,
    {
        if a[i] != b[i] {
            return false;
        }
        i = i + 1;
    }
    proof {
        assert(a@ =~= b@);
    }
    true
}

/// Splitting a byte string on a separator byte: the list of pieces between
/// occurrences of the separator. An empty string yields one empty piece.
pub open spec fn split_bytes(s: Seq<u8>, c: u8) -> Seq<Seq<u8>>
    decreases s.len(),
{
    if s.len() == 0 {
        seq![Seq::<u8>::empty()]
    } else if s[0] == c {
        seq![Seq::<u8>::empty()] + split_bytes(s.skip(1), c)
    } else {
        let rest = split_bytes(s.skip(1), c);
        seq![seq![s[0]] + rest[0]] + rest.skip(1)
    }
}

pub proof fn lemma_split_bytes_nonempty(s: Seq<u8>, c: u8)
    ensures
        split_bytes(s, c).len() >= 1,
    decreases s.len(),
{
    if s.len() > 0 {
        lemma_split_bytes_nonempty(s.skip(1), c);
    }
}

/// Split a byte string on a separator byte.
pub fn split(s: &[u8], c: u8) -> (r: Vec<Vec<u8>>)
    ensures
        views_of(r@) == split_bytes(s@, c),
        r@.len() >= 1,
    decreases s@.len(),
{
    proof {
        lemma_split_bytes_nonempty(s@, c);
    }
    if s.len() == 0 {
        let mut r: Vec<Vec<u8>> = Vec::new();
        r.push(Vec::new());
        proof {
            assert(views_of(r@) =~= split_bytes(s@, c));
        }
        r
    } else {
        let tail = &s[1..s.len()];
        proof {
            assert(tail@ =~= s@.skip(1));
            lemma_split_bytes_nonempty(s@.skip(1), c);
        }
        let mut r = split(tail, c);
        if s[0] == c {
            r.insert(0, Vec::new());
            proof {
                assert(views_of(r@) =~= split_bytes(s@, c));
            }
            r
        } else {
            let mut first: Vec<u8> = Vec::new();
            first.push(s[0]);
            push_all(&mut first, r[0].as_slice());
            let _ = r.remove(0);
            r.insert(0, first);
            proof {
                let rest = split_bytes(s@.skip(1), c);
                assert(first@ =~= seq![s@[0]] + rest[0]);
                assert(views_of(r@) =~= split_bytes(s@, c));
            }
            r
        }
    }
}

/// Joining pieces with a separator byte undoes a split shape: the pieces in
/// order, the separator between each adjacent pair.
pub open spec fn join_bytes(parts: Seq<Seq<u8>>, c: u8) -> Seq<u8>
    decreases parts.len(),
{
    if parts.len() == 0 {
        Seq::<u8>::empty()
    } else if parts.len() == 1 {
        parts[0]
    } else {
        parts[0] + seq![c] + join_bytes(parts.skip(1), c)
    }
}

fn join_from(parts: &Vec<Vec<u8>>, i: usize, c: u8) -> (r: Vec<u8>)
    requires
        i <= parts@.len(),
    ensures
        r@ == join_bytes(views_of(parts@).skip(i as int), c),
    decreases parts@.len() - i,
{
    if i == parts.len() {
        let r: Vec<u8> = Vec::new();
        proof {
            assert(views_of(parts@).skip(i as int) =~= Seq::<Seq<u8>>::empty());
        }
        r
    } else if i + 1 == parts.len() {
        let r = to_vec(parts[i].as_slice());
        proof {
            assert(views_of(parts@).skip(i as int) =~= seq![parts@[i as int]@]);
        }
        r
    } else {
        let mut r = to_vec(parts[i].as_slice());
        r.push(c);
        let tail = join_from(parts, i + 1, c);
        push_all(&mut r, tail.as_slice());
        proof {
            let vs = views_of(parts@);
            assert(vs.skip(i as int).skip(1) =~= vs.skip(i + 1));
            assert(vs.skip(i as int)[0] == parts@[i as int]@);
            assert(r@ =~= join_bytes(vs.skip(i as int), c));
        }
        r
    }
}

/// Join pieces with a separator byte.
pub fn join(parts: &Vec<Vec<u8>>, c: u8) -> (r: Vec<u8>)
    ensures
        r@ == join_bytes(views_of(parts@), c),
{
    let r = join_from(parts, 0, c);
    proof {
        assert(views_of(parts@).skip(0) =~= views_of(parts@));
    }
    r
}

/// Lexicographic order on byte strings, a prefix coming before anything it
/// prefixes.
pub open spec fn lex_leq(a: Seq<u8>, b: Seq<u8>) -> bool
    decreases a.len(),
{
    if a.len() == 0 {
        true
    } else if b.len() == 0 {
        false
    } else if a[0] < b[0] {
        true
    } else if a[0] > b[0] {
        false
    } else {
        lex_leq(a.skip(1), b.skip(1))
    }
}

/// Decide the lexicographic order of two byte strings.
pub fn lex_leq_exec(a: &[u8], b: &[u8]) -> (r: bool)
    ensures
        r == lex_leq(a@, b@),
    decreases a@.len(),
{
    if a.len() == 0 {
        true
    } else if b.len() == 0 {
        false
    } else if a[0] < b[0] {
        true
    } else if a[0] > b[0] {
        false
    } else {
        let r = lex_leq_exec(&a[1..a.len()], &b[1..b.len()]);
        proof {
            assert(a@.subrange(1, a@.len() as int) =~= a@.skip(1));
            assert(b@.subrange(1, b@.len() as int) =~= b@.skip(1));
        }
        r
    }
}

/// Inserting a byte string into a list: before the first entry it does not
/// come after, keeping an ordered list ordered.
pub open spec fn insert_sorted(x: Seq<u8>, s: Seq<Seq<u8>>) -> Seq<Seq<u8>>
    decreases s.len(),
{
    if s.len() == 0 {
        seq![x]
    } else if lex_leq(x, s[0]) {
        seq![x] + s
    } else {
        seq![s[0]] + insert_sorted(x, s.skip(1))
    }
}

/// Sorting a list of byte strings by repeated ordered insertion.
pub open spec fn sort_lex_spec(s: Seq<Seq<u8>>) -> Seq<Seq<u8>>
    decreases s.len(),
{
    if s.len() == 0 {
        Seq::<Seq<u8>>::empty()
    } else {
        insert_sorted(s[0], sort_lex_spec(s.skip(1)))
    }
}

proof fn lemma_insert_sorted_at(x: Seq<u8>, s: Seq<Seq<u8>>, p: int)
    requires
        0 <= p <= s.len(),
        forall|j: int| 0 <= j < p ==> !lex_leq(x, s[j]),
        p < s.len() ==> lex_leq(x, s[p]),
    ensures
        insert_sorted(x, s) =~= s.subrange(0, p) + seq![x] + s.skip(p),
    decreases p,
{
    if p == 0 {
        assert(s.subrange(0, 0) =~= Seq::<Seq<u8>>::empty());
        assert(s.skip(0) =~= s);
    } else {
        lemma_insert_sorted_at(x, s.skip(1), p - 1);
        assert(s.skip(1).subrange(0, p - 1) =~= s.subrange(1, p));
        assert(s.skip(1).skip(p - 1) =~= s.skip(p));
        assert(seq![s[0]] + (s.subrange(1, p) + seq![x] + s.skip(p)) =~= s.subrange(0, p)
            + seq![x] + s.skip(p));
    }
}

fn insertion_point(s: &Vec<Vec<u8>>, x: &Vec<u8>) -> (p: usize)
    ensures
        p <= s@.len(),
        forall|j: int| 0 <= j < p ==> !lex_leq(x@, views_of(s@)[j]),
        p < s@.len() ==> lex_leq(x@, views_of(s@)[p as int]),
{
    let mut i: usize = 0;
    while i < s.len()
        invariant
            i <= s@.len(),
            forall|j: int| 0 <= j < i ==> !lex_leq(x@, views_of(s@)[j]),
        decreases s@.len() - i,
    {
        if lex_leq_exec(x.as_slice(), s[i].as_slice()) {
            return i;
        }
        i = i + 1;
    }
    i
}

fn insert_sorted_exec(s: &mut Vec<Vec<u8>>, x: Vec<u8>)
    ensures
        views_of(final(s)@) == insert_sorted(x@, views_of(old(s)@)),
{
    let p = insertion_point(s, &x);
    proof {
        lemma_insert_sorted_at(x@, views_of(s@), p as int);
    }
    s.insert(p, x);
    proof {
        let vs = views_of(old(s)@);
        assert(views_of(s@) =~= vs.subrange(0, p as int) + seq![x@] + vs.skip(p as int));
    }
}

/// Sort a list of byte strings lexicographically.
pub fn sort_lex(s: Vec<Vec<u8>>) -> (r: Vec<Vec<u8>>)
    ensures
        views_of(r@) == sort_lex_spec(views_of(s@)),
    decreases s@.len(),
{
    let mut s = s;
    if s.len() == 0 {
        proof {
            assert(views_of(s@) =~= Seq::<Seq<u8>>::empty());
        }
        s
    } else {
        let ghost orig = s@;
        let x = s.remove(0);
        proof {
            assert(views_of(s@) =~= views_of(orig).skip(1));
        }
        let mut rest = sort_lex(s);
        insert_sorted_exec(&mut rest, x);
        proof {
            assert(views_of(orig)[0] == x@);
        }
        rest
    }
}


/// An ordered list of byte strings: every earlier entry comes no later than
/// every later one.
pub open spec fn sorted_lex(s: Seq<Seq<u8>>) -> bool {
    forall|i: int, j: int| 0 <= i < j < s.len() ==> lex_leq(s[i], s[j])
}

/// The lexicographic order is total.
pub proof fn lemma_lex_total(a: Seq<u8>, b: Seq<u8>)
    ensures
        lex_leq(a, b) || lex_leq(b, a),
    decreases a.len(),
{
    if a.len() > 0 && b.len() > 0 && a[0] == b[0] {
        lemma_lex_total(a.skip(1), b.skip(1));
    }
}

/// The lexicographic order is transitive.
pub proof fn lemma_lex_trans(a: Seq<u8>, b: Seq<u8>, c: Seq<u8>)
    requires
        lex_leq(a, b),
        lex_leq(b, c),
    ensures
        lex_leq(a, c),
    decreases a.len(),
{
    if a.len() > 0 && b.len() > 0 && c.len() > 0 && a[0] == b[0] && b[0] == c[0] {
        lemma_lex_trans(a.skip(1), b.skip(1), c.skip(1));
    }
}

proof fn lemma_insert_sorted_elements(x: Seq<u8>, s: Seq<Seq<u8>>)
    ensures
        insert_sorted(x, s).len() == s.len() + 1,
        forall|k: int|
            0 <= k < insert_sorted(x, s).len() ==> (#[trigger] insert_sorted(x, s)[k] == x
                || s.contains(insert_sorted(x, s)[k])),
    decreases s.len(),
{
    if s.len() == 0 {
    } else if lex_leq(x, s[0]) {
    } else {
        lemma_insert_sorted_elements(x, s.skip(1));
        assert forall|k: int| 0 <= k < insert_sorted(x, s).len() implies (
            #[trigger] insert_sorted(x, s)[k] == x || s.contains(insert_sorted(x, s)[k])) by {
            let r = insert_sorted(x, s);
            if k == 0 {
                assert(r[0] == s[0]);
                assert(s.contains(s[0]));
            } else {
                let t = insert_sorted(x, s.skip(1));
                assert(r[k] == t[k - 1]);
                if t[k - 1] != x {
                    let m = choose|m: int| 0 <= m < s.skip(1).len() && s.skip(1)[m] == t[k - 1];
                    assert(s[m + 1] == t[k - 1]);
                    assert(s.contains(s[m + 1]));
                }
            }
        }
    }
}

proof fn lemma_insert_sorted_sorted(x: Seq<u8>, s: Seq<Seq<u8>>)
    requires
        sorted_lex(s),
    ensures
        sorted_lex(insert_sorted(x, s)),
    decreases s.len(),
{
    let r = insert_sorted(x, s);
    if s.len() == 0 {
    } else if lex_leq(x, s[0]) {
        assert forall|i: int, j: int| 0 <= i < j < r.len() implies lex_leq(r[i], r[j]) by {
            if i == 0 {
                if j > 1 {
                    lemma_lex_trans(x, s[0], s[j - 1]);
                }
            }
        }
    } else {
        lemma_lex_total(x, s[0]);
        assert(lex_leq(s[0], x));
        assert(sorted_lex(s.skip(1)));
        lemma_insert_sorted_sorted(x, s.skip(1));
        lemma_insert_sorted_elements(x, s.skip(1));
        let t = insert_sorted(x, s.skip(1));
        assert forall|i: int, j: int| 0 <= i < j < r.len() implies lex_leq(r[i], r[j]) by {
            if i == 0 {
                assert(r[j] == t[j - 1]);
                if t[j - 1] == x {
                } else {
                    let m = choose|m: int| 0 <= m < s.skip(1).len() && s.skip(1)[m] == t[j - 1];
                    assert(s[m + 1] == t[j - 1]);
                    assert(lex_leq(s[0], s[m + 1]));
                }
            } else {
                assert(r[i] == t[i - 1] && r[j] == t[j - 1]);
                assert(lex_leq(t[i - 1], t[j - 1]));
            }
        }
    }
}

proof fn lemma_insert_sorted_multiset(x: Seq<u8>, s: Seq<Seq<u8>>)
    ensures
        insert_sorted(x, s).to_multiset() =~= s.to_multiset().insert(x),
    decreases s.len(),
{
    broadcast use vstd::seq_lib::group_to_multiset_ensures;

    if s.len() == 0 {
        assert(insert_sorted(x, s) =~= Seq::<Seq<u8>>::empty().push(x));
    } else if lex_leq(x, s[0]) {
        vstd::seq_lib::lemma_multiset_commutative(seq![x], s);
        assert(seq![x] =~= Seq::<Seq<u8>>::empty().push(x));
    } else {
        lemma_insert_sorted_multiset(x, s.skip(1));
        vstd::seq_lib::lemma_multiset_commutative(seq![s[0]], insert_sorted(x, s.skip(1)));
        vstd::seq_lib::lemma_multiset_commutative(seq![s[0]], s.skip(1));
        assert(s =~= seq![s[0]] + s.skip(1));
        assert(seq![s[0]] =~= Seq::<Seq<u8>>::empty().push(s[0]));
    }
}

/// Sorting leaves an ordered list.
pub proof fn lemma_sort_lex_sorted(s: Seq<Seq<u8>>)
    ensures
        sorted_lex(sort_lex_spec(s)),
    decreases s.len(),
{
    if s.len() > 0 {
        lemma_sort_lex_sorted(s.skip(1));
        lemma_insert_sorted_sorted(s[0], sort_lex_spec(s.skip(1)));
    }
}

/// Sorting permutes: the sorted list holds exactly the entries of the
/// unsorted one, multiplicities included.
pub proof fn lemma_sort_lex_permutes(s: Seq<Seq<u8>>)
    ensures
        sort_lex_spec(s).to_multiset() =~= s.to_multiset(),
    decreases s.len(),
{
    broadcast use vstd::seq_lib::group_to_multiset_ensures;

    if s.len() > 0 {
        lemma_sort_lex_permutes(s.skip(1));
        lemma_insert_sorted_multiset(s[0], sort_lex_spec(s.skip(1)));
        vstd::seq_lib::lemma_multiset_commutative(seq![s[0]], s.skip(1));
        assert(s =~= seq![s[0]] + s.skip(1));
        assert(seq![s[0]] =~= Seq::<Seq<u8>>::empty().push(s[0]));
    }
}

} // verus!
