use vstd::prelude::*;

verus! {

/// The most ids that one request to the metadata service may carry.
pub const BATCH_CAP: usize = 100;

/// The ids of sub-request `k` when `n` ids are split into requests of at
/// most `BATCH_CAP`.
pub open spec fn chunk_bounds(n: int, k: int) -> (int, int) {
    let lo = k * BATCH_CAP as int;
    let hi = if lo + BATCH_CAP as int <= n {
        lo + BATCH_CAP as int
    } else {
        n
    };
    (lo, hi)
}

/// How many requests `n` ids take.
pub open spec fn chunk_count(n: int) -> int {
    (n + BATCH_CAP as int - 1) / BATCH_CAP as int
}

/// Splits `ids` into consecutive requests of `BATCH_CAP` ids, the last one
/// holding what is left; no ids give no requests.
pub fn chunk_ids(ids: &Vec<String>) -> (r: Vec<Vec<String>>)
    ensures
        r@.len() == chunk_count(ids@.len() as int),
        forall|k: int| #![trigger r@[k]] 0 <= k < r@.len() ==> {
            &&& r@[k]@ == ids@.subrange(chunk_bounds(ids@.len() as int, k).0, chunk_bounds(ids@.len() as int, k).1)
            &&& 0 < r@[k]@.len() <= BATCH_CAP
        },
{
    let n = ids.len();
    let mut out: Vec<Vec<String>> = Vec::new();
    let mut start: usize = 0;
    while start < n
        invariant
            n == ids@.len(),
            start <= n,
            start < n ==> start == out@.len() * BATCH_CAP,
            out@.len() <= chunk_count(n as int),
            start < n ==> out@.len() < chunk_count(n as int),
            start >= n ==> out@.len() == chunk_count(n as int),
            forall|k: int| #![trigger out@[k]] 0 <= k < out@.len() ==> {
                &&& out@[k]@ == ids@.subrange(chunk_bounds(n as int, k).0, chunk_bounds(n as int, k).1)
                &&& 0 < out@[k]@.len() <= BATCH_CAP
            },
        decreases n - start,
    {
        let end: usize = if n - start >= BATCH_CAP {
            start + BATCH_CAP
        } else {
            n
        };
        let mut chunk: Vec<String> = Vec::new();
        let mut i: usize = start;
        while i < end
            invariant
                start <= i <= end <= n,
                n == ids@.len(),
                chunk@ == ids@.subrange(start as int, i as int),
            decreases end - i,
        {
            chunk.push(ids[i].clone());
            i = i + 1;
            assert(chunk@ =~= ids@.subrange(start as int, i as int));
        }
        proof {
            let k = out@.len() as int;
            assert(chunk_bounds(n as int, k) == (start as int, end as int));
        }
        out.push(chunk);
        start = end;
    }
    out
}

/// The sequences of `parts`, one after another.
pub open spec fn concat_all<T>(parts: Seq<Seq<T>>) -> Seq<T>
    decreases parts.len(),
{
    if parts.len() == 0 {
        Seq::empty()
    } else {
        concat_all(parts.drop_last()) + parts.last()
    }
}

/// The results of the sub-requests of one batch, as one list.
pub fn merge_results<T>(parts: Vec<Vec<T>>) -> (r: Vec<T>)
    ensures
        r@ == concat_all(parts@.map_values(|p: Vec<T>| p@)),
{
    let ghost views = parts@.map_values(|p: Vec<T>| p@);
    let mut parts = parts;
    let mut out: Vec<T> = Vec::new();
    let total = parts.len();
    while parts.len() > 0
        invariant
            total == views.len(),
            parts@.len() <= total,
            forall|k: int| 0 <= k < parts@.len() ==> (#[trigger] parts@[k])@ == views[total - parts@.len() + k],
            out@ == concat_all(views.subrange(0, total - parts@.len())),
        decreases parts@.len(),
    {
        let ghost i = total - parts@.len();
        let mut part = parts.remove(0);
        proof {
            let s = views.subrange(0, i + 1);
            assert(s.drop_last() =~= views.subrange(0, i));
            assert(s.last() == views[i]);
        }
        out.append(&mut part);
    }
    assert(views.subrange(0, total as int) =~= views);
    out
}

} // verus!
