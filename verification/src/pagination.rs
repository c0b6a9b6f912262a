use vstd::prelude::*;
use crate::state::Post;

verus! {

/// Index window selected by a 1-indexed `(page, size)` pair over a list of
/// length `len`: pages are `size` elements long and page 1 starts at element
/// 0. A page or size of zero, or a page whose window starts at or past the
/// end, selects the empty window.
pub open spec fn window(len: int, page: u64, size: u64) -> (int, int) {
    if page == 0 || size == 0 {
        (0int, 0int)
    } else {
        let start = (page as int - 1) * (size as int);
        if start >= len {
            (0int, 0int)
        } else if start + size as int <= len {
            (start, start + size as int)
        } else {
            (start, len)
        }
    }
}

/// The contiguous slice of `s` selected by the 1-indexed `(page, size)`
/// window; empty when the window is out of range or zero-sized.
pub open spec fn page_slice<T>(s: Seq<T>, page: u64, size: u64) -> Seq<T> {
    let (start, end) = window(s.len() as int, page, size);
    s.subrange(start, end)
}

/// Computes `window(len, page, size)` executably, without overflow.
pub fn window_exec(len: usize, page: u64, size: u64) -> (r: (usize, usize))
    ensures
        (r.0 as int, r.1 as int) == window(len as int, page, size),
        r.0 <= r.1 <= len,
{
    if page == 0 || size == 0 {
        (0, 0)
    } else {
        proof {
            assert((page as int - 1) * (size as int) <= (u64::MAX as int) * (u64::MAX as int))
                by (nonlinear_arith)
                requires 1 <= page <= u64::MAX && 1 <= size <= u64::MAX;
        }
        let start: u128 = (page as u128 - 1) * (size as u128);
        if start >= len as u128 {
            (0, 0)
        } else {
            let end: u128 = start + size as u128;
            if end <= len as u128 {
                (start as usize, end as usize)
            } else {
                (start as usize, len)
            }
        }
    }
}

/// The `(page, size)` window of a list of strings.
pub fn paginate_strings(v: &Vec<String>, page: u64, size: u64) -> (r: Vec<String>)
    ensures
        r@ == page_slice(v@, page, size),
{
    let (start, end) = window_exec(v.len(), page, size);
    let mut r: Vec<String> = Vec::new();
    let mut i: usize = start;
    while i < end
        invariant
            start <= i <= end <= v.len(),
            r@ == v@.subrange(start as int, i as int),
        decreases end - i,
    {
        r.push(v[i].clone());
        proof {
            assert(v@.subrange(start as int, i as int).push(v@[i as int])
                =~= v@.subrange(start as int, i as int + 1));
        }
        i = i + 1;
    }
    proof {
        assert(r@ =~= page_slice(v@, page, size));
    }
    r
}

/// The `(page, size)` window of a list of posts.
pub fn paginate_posts(v: &Vec<Post>, page: u64, size: u64) -> (r: Vec<Post>)
    ensures
        r@ == page_slice(v@, page, size),
{
    let (start, end) = window_exec(v.len(), page, size);
    let mut r: Vec<Post> = Vec::new();
    let mut i: usize = start;
    while i < end
        invariant
            start <= i <= end <= v.len(),
            r@ == v@.subrange(start as int, i as int),
        decreases end - i,
    {
        r.push(v[i].duplicate());
        proof {
            assert(v@.subrange(start as int, i as int).push(v@[i as int])
                =~= v@.subrange(start as int, i as int + 1));
        }
        i = i + 1;
    }
    proof {
        assert(r@ =~= page_slice(v@, page, size));
    }
    r
}

} // verus!
