use vstd::prelude::*;

verus! {

/// The items mirrored around the first one: the items after the first in
/// reverse order, each passed through `f`, followed by all the items.
pub fn reflect_iter_map<T: Copy, F: Fn(T) -> T>(items: Vec<T>, f: F) -> (r: Vec<T>)
    requires
        forall|i: int| 0 <= i < items@.len() ==> f.requires((items@[i],)),
    ensures
        items@.len() == 0 ==> r@.len() == 0,
        items@.len() > 0 ==> r@.len() == 2 * items@.len() - 1,
        forall|k: int| 0 <= k < items@.len() - 1 ==> f.ensures((items@[items@.len() - 1 - k],), #[trigger] r@[k]),
        forall|k: int| 0 <= k < items@.len() ==> r@[r@.len() - items@.len() + k] == #[trigger] items@[k],
{
    let n = items.len();
    let mut out: Vec<T> = Vec::new();
    let mut i: usize = n;
    while i > 1
        invariant
            n == items@.len(),
            1 <= i <= n || (n == 0 && i == 0),
            forall|j: int| 0 <= j < items@.len() ==> f.requires((items@[j],)),
            out@.len() == n - i,
            forall|k: int| 0 <= k < out@.len() ==> f.ensures((items@[n - 1 - k],), #[trigger] out@[k]),
        decreases i,
    {
        i = i - 1;
        let v = f(items[i]);
        out.push(v);
    }
    let prefix = out.len();
    let mut k: usize = 0;
    while k < n
        invariant
            n == items@.len(),
            prefix == if n == 0 { 0 } else { n - 1 },
            out@.len() == prefix + k,
            k <= n,
            forall|m: int| 0 <= m < prefix ==> f.ensures((items@[n - 1 - m],), #[trigger] out@[m]),
            forall|m: int| 0 <= m < k ==> out@[prefix + m] == #[trigger] items@[m],
        decreases n - k,
    {
        out.push(items[k]);
        k = k + 1;
    }
    out
}

} // verus!
