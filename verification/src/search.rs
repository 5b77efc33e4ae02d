//! Searches that stop at the first path a file test accepts. The file test
//! is handed in by the caller, and the contracts speak of what it answered.
use vstd::prelude::*;
use crate::text::strs;

verus! {

/// The file test `is_file` answered `b` for the path `p` on some call.
pub open spec fn answered<F: Fn(&str) -> bool>(is_file: F, p: Seq<char>, b: bool) -> bool {
    exists|s: &str| s@ == p && #[trigger] call_ensures(is_file, (s,), b)
}

/// `is_file` may be called on any path.
pub open spec fn callable<F: Fn(&str) -> bool>(is_file: F) -> bool {
    forall|s: &str| #[trigger] call_requires(is_file, (s,))
}

/// `r` is what a search over `paths`, in order, reports where it stops at
/// the first path `is_file` accepts: that path, after each path before it
/// was refused; `None` only after every path was refused.
pub open spec fn searched<F: Fn(&str) -> bool>(
    is_file: F,
    paths: Seq<Seq<char>>,
    r: Option<Seq<char>>,
) -> bool {
    match r {
        Some(p) => exists|k: int|
            0 <= k < paths.len() && paths[k] == p && answered(is_file, paths[k], true) && forall|j: int|
                0 <= j < k ==> answered(is_file, #[trigger] paths[j], false),
        None => forall|j: int| 0 <= j < paths.len() ==> answered(is_file, #[trigger] paths[j], false),
    }
}

/// The first of `paths` that `is_file` accepts, trying them in order.
pub fn first_file<F: Fn(&str) -> bool>(paths: &Vec<String>, is_file: &F) -> (r: Option<String>)
    requires
        callable(*is_file),
    ensures
        searched(*is_file, strs(paths@), match r { Some(p) => Some(p@), None => None }),
{
    let ghost ps = strs(paths@);
    for i in 0..paths.len()
        invariant
            ps == strs(paths@),
            callable(*is_file),
            forall|j: int| 0 <= j < i ==> answered(*is_file, #[trigger] ps[j], false),
    {
        let s = paths[i].as_str();
        let hit = is_file(s);
        assert(answered(*is_file, ps[i as int], hit));
        if hit {
            return Some(paths[i].clone());
        }
    }
    None
}

/// Where the file test cannot have refused the `k`th path, a search
/// reports that path or one before it.
pub proof fn lemma_searched_stops_by<F: Fn(&str) -> bool>(
    is_file: F,
    paths: Seq<Seq<char>>,
    r: Option<Seq<char>>,
    k: int,
)
    requires
        searched(is_file, paths, r),
        0 <= k < paths.len(),
        !answered(is_file, paths[k], false),
    ensures
        r matches Some(p) && exists|i: int| 0 <= i <= k && #[trigger] paths[i] == p,
{
    if r is Some {
        let p = r->0;
        let k0 = choose|k0: int|
            0 <= k0 < paths.len() && paths[k0] == p && answered(is_file, paths[k0], true) && forall|j: int|
                0 <= j < k0 ==> answered(is_file, #[trigger] paths[j], false);
        if k0 > k {
            assert(answered(is_file, paths[k], false));
        }
        assert(paths[k0] == p);
    } else {
        assert(answered(is_file, paths[k], false));
    }
}

/// Searching `xs` then `ys` reports a path of `xs` as searching `xs` alone
/// would; only where every path of `xs` was refused does it go on, and then
/// it reports what searching `ys` alone would.
pub proof fn law_search_concat<F: Fn(&str) -> bool>(
    is_file: F,
    xs: Seq<Seq<char>>,
    ys: Seq<Seq<char>>,
    r: Option<Seq<char>>,
)
    requires
        searched(is_file, xs + ys, r),
    ensures
        (r is Some && searched(is_file, xs, r)) || (searched(is_file, xs, None) && searched(
            is_file,
            ys,
            r,
        )),
{
    let zs = xs + ys;
    match r {
        Some(p) => {
            let k = choose|k: int|
                0 <= k < zs.len() && zs[k] == p && answered(is_file, zs[k], true) && forall|j: int|
                    0 <= j < k ==> answered(is_file, #[trigger] zs[j], false);
            if k < xs.len() {
                assert(xs[k] == zs[k]);
                assert forall|j: int| 0 <= j < k implies answered(is_file, #[trigger] xs[j], false) by {
                    assert(xs[j] == zs[j]);
                }
            } else {
                assert forall|j: int| 0 <= j < xs.len() implies answered(is_file, #[trigger] xs[j], false) by {
                    assert(xs[j] == zs[j]);
                }
                let k2 = k - xs.len();
                assert(ys[k2] == zs[k]);
                assert forall|j: int| 0 <= j < k2 implies answered(is_file, #[trigger] ys[j], false) by {
                    assert(ys[j] == zs[j + xs.len()]);
                }
            }
        },
        None => {
            assert forall|j: int| 0 <= j < xs.len() implies answered(is_file, #[trigger] xs[j], false) by {
                assert(xs[j] == zs[j]);
            }
            assert forall|j: int| 0 <= j < ys.len() implies answered(is_file, #[trigger] ys[j], false) by {
                assert(ys[j] == zs[j + xs.len()]);
            }
        },
    }
}

} // verus!
