use vstd::prelude::*;
use vstd::utf8::encode_utf8;

verus! {

/// Strict lexicographic order on byte sequences: a proper prefix sorts first,
/// otherwise the first differing byte decides.
pub open spec fn bytes_lt(a: Seq<u8>, b: Seq<u8>) -> bool
    decreases a.len(),
{
    if b.len() == 0 {
        false
    } else if a.len() == 0 {
        true
    } else if a[0] != b[0] {
        a[0] < b[0]
    } else {
        bytes_lt(a.drop_first(), b.drop_first())
    }
}

/// Ascending key order of the ledgers: lexicographic order of the UTF-8
/// encodings, the order in which a byte-keyed store walks its keys.
pub open spec fn key_lt(a: Seq<char>, b: Seq<char>) -> bool {
    bytes_lt(encode_utf8(a), encode_utf8(b))
}

/// The views of a sequence of strings.
pub open spec fn str_views(s: Seq<String>) -> Seq<Seq<char>> {
    s.map_values(|t: String| t@)
}

/// `x` inserted into `s` in front of the first element it precedes.
/// On a sorted sequence the result is sorted.
pub open spec fn insert_sorted(s: Seq<Seq<char>>, x: Seq<char>) -> Seq<Seq<char>>
    decreases s.len(),
{
    if s.len() == 0 {
        seq![x]
    } else if key_lt(x, s.first()) {
        seq![x] + s
    } else {
        seq![s.first()] + insert_sorted(s.drop_first(), x)
    }
}

/// Insertion sort of `s` into ascending key order.
pub open spec fn sort_keys(s: Seq<Seq<char>>) -> Seq<Seq<char>>
    decreases s.len(),
{
    if s.len() == 0 {
        s
    } else {
        insert_sorted(sort_keys(s.drop_last()), s.last())
    }
}

/// No later element of `s` precedes an earlier one.
pub open spec fn sorted_asc(s: Seq<Seq<char>>) -> bool {
    forall|i: int, j: int| 0 <= i < j < s.len() ==> !key_lt(s[j], s[i])
}

/// The byte order never holds in both directions.
proof fn lemma_bytes_lt_asym(a: Seq<u8>, b: Seq<u8>)
    ensures
        !(bytes_lt(a, b) && bytes_lt(b, a)),
    decreases a.len(),
{
    if a.len() > 0 && b.len() > 0 && a[0] == b[0] {
        lemma_bytes_lt_asym(a.drop_first(), b.drop_first());
    }
}

/// The byte order is transitive.
proof fn lemma_bytes_lt_trans(a: Seq<u8>, b: Seq<u8>, c: Seq<u8>)
    requires
        bytes_lt(a, b),
        bytes_lt(b, c),
    ensures
        bytes_lt(a, c),
    decreases a.len(),
{
    if a.len() > 0 && b.len() > 0 && c.len() > 0 && a[0] == b[0] && b[0] == c[0] {
        lemma_bytes_lt_trans(a.drop_first(), b.drop_first(), c.drop_first());
    }
}

/// Every element of `insert_sorted(s, x)` is `x` or an element of `s`, and
/// exactly one element is added.
proof fn lemma_insert_sorted_elems(s: Seq<Seq<char>>, x: Seq<char>)
    ensures
        insert_sorted(s, x).len() == s.len() + 1,
        forall|k: int| 0 <= k < insert_sorted(s, x).len()
            ==> insert_sorted(s, x)[k] == x || s.contains(#[trigger] insert_sorted(s, x)[k]),
    decreases s.len(),
{
    if s.len() == 0 {
    } else if key_lt(x, s.first()) {
        assert forall|k: int| 0 <= k < insert_sorted(s, x).len()
            implies insert_sorted(s, x)[k] == x
                || s.contains(#[trigger] insert_sorted(s, x)[k]) by {
            if k > 0 {
                assert(insert_sorted(s, x)[k] == s[k - 1]);
            }
        }
    } else {
        lemma_insert_sorted_elems(s.drop_first(), x);
        let r = insert_sorted(s, x);
        let r2 = insert_sorted(s.drop_first(), x);
        assert forall|k: int| 0 <= k < r.len()
            implies r[k] == x || s.contains(#[trigger] r[k]) by {
            if k == 0 {
                assert(r[0] == s[0]);
                assert(s.contains(s[0]));
            } else {
                assert(r[k] == r2[k - 1]);
                if r2[k - 1] != x {
                    let m = choose|m: int|
                        0 <= m < s.drop_first().len() && s.drop_first()[m] == r2[k - 1];
                    assert(s[m + 1] == r2[k - 1]);
                }
            }
        }
    }
}

/// Inserting into an ascending sequence keeps it ascending.
proof fn lemma_insert_sorted_sorted(s: Seq<Seq<char>>, x: Seq<char>)
    requires
        sorted_asc(s),
    ensures
        sorted_asc(insert_sorted(s, x)),
    decreases s.len(),
{
    let r = insert_sorted(s, x);
    if s.len() == 0 {
    } else if key_lt(x, s.first()) {
        assert forall|i: int, j: int| 0 <= i < j < r.len() implies !key_lt(r[j], r[i]) by {
            if i == 0 {
                assert(r[0] == x);
                assert(r[j] == s[j - 1]);
                if key_lt(s[j - 1], x) {
                    if j == 1 {
                        lemma_bytes_lt_asym(
                            encode_utf8(x),
                            encode_utf8(s[0]),
                        );
                        assert(false);
                    } else {
                        lemma_bytes_lt_trans(
                            encode_utf8(s[j - 1]),
                            encode_utf8(x),
                            encode_utf8(s[0]),
                        );
                        assert(key_lt(s[j - 1], s[0]));
                        assert(false);
                    }
                }
            } else {
                assert(r[i] == s[i - 1] && r[j] == s[j - 1]);
            }
        }
    } else {
        assert(sorted_asc(s.drop_first()));
        lemma_insert_sorted_sorted(s.drop_first(), x);
        lemma_insert_sorted_elems(s.drop_first(), x);
        let r2 = insert_sorted(s.drop_first(), x);
        assert forall|i: int, j: int| 0 <= i < j < r.len() implies !key_lt(r[j], r[i]) by {
            if i == 0 {
                assert(r[j] == r2[j - 1]);
                if r2[j - 1] == x {
                    assert(!key_lt(x, s[0]));
                } else {
                    let m = choose|m: int|
                        0 <= m < s.drop_first().len() && s.drop_first()[m] == r2[j - 1];
                    assert(s[m + 1] == r2[j - 1]);
                    assert(!key_lt(s[m + 1], s[0]));
                }
            } else {
                assert(r[i] == r2[i - 1] && r[j] == r2[j - 1]);
            }
        }
    }
}

/// Insertion sort yields an ascending sequence: the order in which the
/// subscription projection lists a user's hub identities.
pub proof fn lemma_sort_keys_sorted(s: Seq<Seq<char>>)
    ensures
        sorted_asc(sort_keys(s)),
    decreases s.len(),
{
    if s.len() > 0 {
        lemma_sort_keys_sorted(s.drop_last());
        lemma_insert_sorted_sorted(sort_keys(s.drop_last()), s.last());
    }
}

/// Dropping an equal prefix of both sequences does not change their order.
proof fn lemma_bytes_lt_skip(a: Seq<u8>, b: Seq<u8>, i: int)
    requires
        0 <= i <= a.len(),
        i <= b.len(),
        forall|j: int| 0 <= j < i ==> a[j] == b[j],
    ensures
        bytes_lt(a, b) == bytes_lt(a.skip(i), b.skip(i)),
    decreases i,
{
    if i == 0 {
        assert(a.skip(0) =~= a);
        assert(b.skip(0) =~= b);
    } else {
        assert(a[0] == b[0]);
        assert(a.drop_first().skip(i - 1) =~= a.skip(i));
        assert(b.drop_first().skip(i - 1) =~= b.skip(i));
        lemma_bytes_lt_skip(a.drop_first(), b.drop_first(), i - 1);
    }
}

/// Compares two byte slices in the order of `bytes_lt`.
fn bytes_lt_exec(a: &[u8], b: &[u8]) -> (r: bool)
    ensures
        r == bytes_lt(a@, b@),
{
    let mut i: usize = 0;
    while i < a.len() && i < b.len()
        invariant
            i <= a.len(),
            i <= b.len(),
            forall|j: int| 0 <= j < i ==> a@[j] == b@[j],
        decreases a.len() - i,
    {
        let x = a[i];
        let y = b[i];
        if x != y {
            proof {
                lemma_bytes_lt_skip(a@, b@, i as int);
                assert(a@.skip(i as int)[0] == a@[i as int]);
                assert(b@.skip(i as int)[0] == b@[i as int]);
            }
            return x < y;
        }
        i = i + 1;
    }
    proof {
        lemma_bytes_lt_skip(a@, b@, i as int);
    }
    a.len() < b.len()
}

/// Compares two strings in ascending key order.
pub fn key_lt_exec(a: &String, b: &String) -> (r: bool)
    ensures
        r == key_lt(a@, b@),
{
    bytes_lt_exec(a.as_str().as_bytes(), b.as_str().as_bytes())
}

/// Inserting at the position the loop in `insert_sorted_exec` finds gives
/// exactly `insert_sorted`.
proof fn lemma_insert_sorted_at(s: Seq<Seq<char>>, x: Seq<char>, i: int)
    requires
        0 <= i <= s.len(),
        forall|j: int| 0 <= j < i ==> !key_lt(x, s[j]),
        i < s.len() ==> key_lt(x, s[i]),
    ensures
        insert_sorted(s, x) == s.insert(i, x),
    decreases i,
{
    if s.len() == 0 {
        assert(insert_sorted(s, x) =~= s.insert(0, x));
    } else if i == 0 {
        assert(key_lt(x, s.first()));
        assert(seq![x] + s =~= s.insert(0, x));
    } else {
        assert(!key_lt(x, s.first()));
        lemma_insert_sorted_at(s.drop_first(), x, i - 1);
        assert(seq![s.first()] + s.drop_first().insert(i - 1, x) =~= s.insert(i, x));
    }
}

/// Index of the first element of `v` that `x` precedes, or `v.len()`.
fn lower_bound(v: &Vec<String>, x: &String) -> (i: usize)
    ensures
        i <= v.len(),
        forall|j: int| 0 <= j < i ==> !key_lt(x@, v@[j]@),
        i < v.len() ==> key_lt(x@, v@[i as int]@),
{
    let mut i: usize = 0;
    while i < v.len()
        invariant
            i <= v.len(),
            forall|j: int| 0 <= j < i ==> !key_lt(x@, v@[j]@),
        decreases v.len() - i,
    {
        if key_lt_exec(x, &v[i]) {
            return i;
        }
        i = i + 1;
    }
    i
}

/// Inserts `x` into `v` at its place in ascending key order.
fn insert_sorted_exec(v: &mut Vec<String>, x: String)
    ensures
        str_views(final(v)@) == insert_sorted(str_views(old(v)@), x@),
{
    let i = lower_bound(v, &x);
    proof {
        lemma_insert_sorted_at(str_views(v@), x@, i as int);
    }
    let ghost pre = v@;
    v.insert(i, x);
    proof {
        assert(str_views(v@) =~= insert_sorted(str_views(pre), x@)) by {
            assert(str_views(pre).insert(i as int, x@) =~= str_views(pre.insert(i as int, x)));
        }
    }
}

/// Sorts the strings of `v` into ascending key order.
pub fn sort_strings(v: &Vec<String>) -> (r: Vec<String>)
    ensures
        str_views(r@) == sort_keys(str_views(v@)),
{
    let mut r: Vec<String> = Vec::new();
    let mut i: usize = 0;
    proof {
        assert(str_views(r@) =~= sort_keys(str_views(v@.take(0))));
    }
    while i < v.len()
        invariant
            i <= v.len(),
            str_views(r@) == sort_keys(str_views(v@.take(i as int))),
        decreases v.len() - i,
    {
        let x = v[i].clone();
        insert_sorted_exec(&mut r, x);
        proof {
            let t1 = v@.take(i as int + 1);
            assert(t1.drop_last() =~= v@.take(i as int));
            assert(str_views(t1).drop_last() =~= str_views(t1.drop_last()));
            assert(str_views(t1).last() == v@[i as int]@);
        }
        i = i + 1;
    }
    proof {
        assert(v@.take(v@.len() as int) =~= v@);
    }
    r
}

} // verus!
