//! The credential space and its partition into chunks.

use vstd::prelude::*;
use crate::types::{CredentialPair, PairView};

verus! {

/// The pair that stands at position `k` of the product of `users` and
/// `passwords`, the username varying slowest.
pub open spec fn product_at(users: Seq<Seq<char>>, passwords: Seq<Seq<char>>, k: int) -> PairView {
    PairView {
        username: users[k / passwords.len() as int],
        password: passwords[k % passwords.len() as int],
    }
}

/// The ordered cartesian product of `users` and `passwords`.
pub open spec fn product(users: Seq<Seq<char>>, passwords: Seq<Seq<char>>) -> Seq<PairView> {
    Seq::new(users.len() * passwords.len(), |k: int| product_at(users, passwords, k))
}

/// The views of a list of strings.
pub open spec fn texts(list: Seq<String>) -> Seq<Seq<char>> {
    list.map_values(|s: String| s@)
}

/// The views of a list of credential pairs.
pub open spec fn pairs(list: Seq<CredentialPair>) -> Seq<PairView> {
    list.map_values(|p: CredentialPair| p@)
}

/// Builds the credential space: every username with every password, the
/// outer loop over usernames. Duplicate lines give duplicate pairs.
pub fn build_credential_space(users: &Vec<String>, passwords: &Vec<String>) -> (space: Vec<
    CredentialPair,
>)
    ensures
        pairs(space@) == product(texts(users@), texts(passwords@)),
        space@.len() == users@.len() * passwords@.len(),
        forall|i: int, j: int|
            0 <= i < users@.len() && 0 <= j < passwords@.len() ==> {
                &&& (#[trigger] space@[i * passwords@.len() + j]).username@ == users@[i]@
                &&& space@[i * passwords@.len() + j].password@ == passwords@[j]@
            },
{
    let mut space: Vec<CredentialPair> = Vec::new();
    let ghost width = passwords@.len() as int;
    let mut i: usize = 0;
    while i < users.len()
        invariant
            0 <= i <= users@.len(),
            width == passwords@.len(),
            space@.len() == i * width,
            forall|k: int|
                0 <= k < space@.len() ==> (#[trigger] space@[k])@ == product_at(
                    texts(users@),
                    texts(passwords@),
                    k,
                ),
        decreases users@.len() - i,
    {
        let mut j: usize = 0;
        while j < passwords.len()
            invariant
                0 <= i < users@.len(),
                0 <= j <= passwords@.len(),
                width == passwords@.len(),
                space@.len() == i * width + j,
                forall|k: int|
                    0 <= k < space@.len() ==> (#[trigger] space@[k])@ == product_at(
                        texts(users@),
                        texts(passwords@),
                        k,
                    ),
            decreases passwords@.len() - j,
        {
            let pair = CredentialPair {
                username: users[i].clone(),
                password: passwords[j].clone(),
            };
            proof {
                let k = i * width + j;
                assert(k / width == i && k % width == j) by (nonlinear_arith)
                    requires
                        k == i * width + j,
                        0 <= j < width,
                        0 <= i,
                ;
            }
            space.push(pair);
            j += 1;
        }
        proof {
            assert((i + 1) * width == i * width + width) by (nonlinear_arith);
        }
        i += 1;
    }
    proof {
        let us = texts(users@);
        let ps = texts(passwords@);
        assert(pairs(space@) =~= product(us, ps));
        assert forall|a: int, b: int|
            0 <= a < users@.len() && 0 <= b < passwords@.len() implies {
                &&& (#[trigger] space@[a * passwords@.len() + b]).username@ == users@[a]@
                &&& space@[a * passwords@.len() + b].password@ == passwords@[b]@
            } by {
            let k = a * width + b;
            assert(k / width == a && k % width == b && 0 <= k < users@.len() * width)
                by (nonlinear_arith)
                requires
                    k == a * width + b,
                    0 <= b < width,
                    0 <= a < users@.len(),
            ;
            assert(space@[k]@ == product_at(us, ps, k));
        }
    }
    space
}

/// Where chunk `i` of `threads` begins in a sequence of `n` items.
pub open spec fn chunk_start(n: nat, threads: nat, i: int) -> int {
    i * (n / threads)
}

/// Where chunk `i` of `threads` ends in a sequence of `n` items: every chunk
/// holds `n / threads` items, and the last one takes the remainder as well.
pub open spec fn chunk_end(n: nat, threads: nat, i: int) -> int {
    if i + 1 == threads {
        n as int
    } else {
        (i + 1) * (n / threads)
    }
}

/// Chunk `i` of the partition of `items` among `threads` workers.
pub open spec fn chunk_of<T>(items: Seq<T>, threads: nat, i: int) -> Seq<T> {
    items.subrange(chunk_start(items.len(), threads, i), chunk_end(items.len(), threads, i))
}

/// The partition of `items` among `threads` workers.
pub open spec fn chunks_of<T>(items: Seq<T>, threads: nat) -> Seq<Seq<T>> {
    Seq::new(threads, |i: int| chunk_of(items, threads, i))
}

/// Chunk `i` lies inside the index range, and the next chunk begins where it
/// ends.
pub proof fn lemma_chunk_bounds(n: nat, threads: nat, i: int)
    requires
        0 <= i < threads,
    ensures
        0 <= chunk_start(n, threads, i) <= chunk_end(n, threads, i) <= n,
        chunk_end(n, threads, i) - chunk_start(n, threads, i) == if i + 1 == threads {
            n / threads + n % threads
        } else {
            n / threads
        },
        i + 1 < threads ==> chunk_end(n, threads, i) == chunk_start(n, threads, i + 1),
        i + 1 == threads ==> chunk_end(n, threads, i) == n,
        i == 0 ==> chunk_start(n, threads, i) == 0,
{
    let size = (n / threads) as int;
    let t = threads as int;
    assert(size * t + n % threads == n && 0 <= size) by (nonlinear_arith)
        requires
            size == n / threads,
            t == threads,
            threads >= 1,
    ;
    assert(0 <= i * size && (i + 1) * size == i * size + size && (i + 1) * size <= size * t
        && (i + 1 == t ==> i * size + size == size * t)) by (nonlinear_arith)
        requires
            0 <= i < t,
            0 <= size,
    ;
}

/// The chunks tile the index range: the first begins at zero, each begins
/// where its predecessor ends, and the last ends at `n`. So no index is
/// dropped and none belongs to two chunks, whatever `n mod threads` is.
pub proof fn lemma_chunks_tile(n: nat, threads: nat)
    requires
        threads >= 1,
    ensures
        chunk_start(n, threads, 0) == 0,
        chunk_end(n, threads, threads - 1) == n,
        forall|i: int|
            0 <= i < threads ==> 0 <= #[trigger] chunk_start(n, threads, i) <= chunk_end(
                n,
                threads,
                i,
            ) <= n,
        forall|i: int|
            0 <= i < threads - 1 ==> #[trigger] chunk_end(n, threads, i) == chunk_start(
                n,
                threads,
                i + 1,
            ),
{
    lemma_chunk_bounds(n, threads, 0);
    lemma_chunk_bounds(n, threads, threads - 1);
    assert forall|i: int| 0 <= i < threads implies 0 <= #[trigger] chunk_start(n, threads, i)
        <= chunk_end(n, threads, i) <= n by {
        lemma_chunk_bounds(n, threads, i);
    }
    assert forall|i: int| 0 <= i < threads - 1 implies #[trigger] chunk_end(n, threads, i)
        == chunk_start(n, threads, i + 1) by {
        lemma_chunk_bounds(n, threads, i);
    }
}

/// Searches the chunks from `i` on for the one that holds index `k`.
proof fn lemma_find_chunk(n: nat, threads: nat, k: int, i: int) -> (found: int)
    requires
        0 <= i < threads,
        chunk_start(n, threads, i) <= k < n,
    ensures
        i <= found < threads,
        chunk_start(n, threads, found) <= k < chunk_end(n, threads, found),
    decreases threads - i,
{
    lemma_chunk_bounds(n, threads, i);
    if k < chunk_end(n, threads, i) {
        i
    } else {
        lemma_find_chunk(n, threads, k, i + 1)
    }
}

/// Every index belongs to a chunk: for each of the `n` positions there is a
/// chunk whose range holds it.
pub proof fn lemma_index_has_chunk(n: nat, threads: nat, k: int) -> (i: int)
    requires
        threads >= 1,
        0 <= k < n,
    ensures
        0 <= i < threads,
        chunk_start(n, threads, i) <= k < chunk_end(n, threads, i),
{
    lemma_chunk_bounds(n, threads, 0);
    lemma_find_chunk(n, threads, k, 0)
}

/// No index belongs to two chunks: the ranges of different chunks do not
/// overlap.
pub proof fn lemma_chunks_disjoint(n: nat, threads: nat, i: int, j: int)
    requires
        0 <= i < j < threads,
    ensures
        chunk_end(n, threads, i) <= chunk_start(n, threads, j),
    decreases j - i,
{
    lemma_chunk_bounds(n, threads, i);
    if i + 1 < j {
        lemma_chunk_bounds(n, threads, i + 1);
        lemma_chunks_disjoint(n, threads, i + 1, j);
    }
}

/// Where the first `k` chunks end.
spec fn prefix_end(n: nat, threads: nat, k: int) -> int {
    if k == 0 {
        0
    } else {
        chunk_end(n, threads, k - 1)
    }
}

/// Concatenating the first `k` chunks gives the items before chunk `k`.
proof fn lemma_chunks_prefix<T>(items: Seq<T>, threads: nat, k: int)
    requires
        0 <= k <= threads,
    ensures
        chunks_of(items, threads).take(k).flatten() == items.take(
            prefix_end(items.len(), threads, k),
        ),
    decreases k,
{
    let all = chunks_of(items, threads);
    if k == 0 {
        assert(all.take(0).flatten() =~= items.take(0));
    } else {
        lemma_chunks_prefix(items, threads, k - 1);
        lemma_chunk_bounds(items.len(), threads, k - 1);
        if k >= 2 {
            lemma_chunk_bounds(items.len(), threads, k - 2);
        }
        let before = all.take(k - 1);
        let cut = prefix_end(items.len(), threads, k - 1);
        let end = prefix_end(items.len(), threads, k);
        assert(cut == chunk_start(items.len(), threads, k - 1));
        assert(all[k - 1] == items.subrange(cut, end));
        assert(all.take(k) =~= before.push(all[k - 1]));
        before.lemma_flatten_push(all[k - 1]);
        assert(items.take(cut) + items.subrange(cut, end) =~= items.take(end));
    }
}

/// The chunks, concatenated in order, are the sequence itself: nothing is
/// dropped, duplicated or reordered, also when `threads` does not divide the
/// number of items.
pub proof fn lemma_chunks_concat<T>(items: Seq<T>, threads: nat)
    requires
        threads >= 1,
    ensures
        chunks_of(items, threads).flatten() == items,
{
    let all = chunks_of(items, threads);
    lemma_chunks_prefix(items, threads, threads as int);
    lemma_chunk_bounds(items.len(), threads, threads - 1);
    assert(all.take(threads as int) =~= all);
    assert(items.take(items.len() as int) =~= items);
}

/// The credential pairs of `space` from `start` up to `end`, copied.
fn copy_range(space: &Vec<CredentialPair>, start: usize, end: usize) -> (chunk: Vec<
    CredentialPair,
>)
    requires
        start <= end <= space@.len(),
    ensures
        chunk@ == space@.subrange(start as int, end as int),
{
    let mut chunk: Vec<CredentialPair> = Vec::new();
    let mut k: usize = start;
    while k < end
        invariant
            start <= k <= end <= space@.len(),
            chunk@ == space@.subrange(start as int, k as int),
        decreases end - k,
    {
        chunk.push(space[k].clone());
        assert(chunk@ =~= space@.subrange(start as int, k + 1));
        k += 1;
    }
    chunk
}

/// Divides the credential space among `threads` workers: `threads`
/// contiguous chunks of `len / threads` pairs each, in the order of the space,
/// the last chunk taking the `len mod threads` pairs that are left over.
pub fn partition(space: &Vec<CredentialPair>, threads: usize) -> (chunks: Vec<Vec<CredentialPair>>)
    requires
        threads >= 1,
    ensures
        chunks@.len() == threads,
        forall|i: int|
            0 <= i < threads ==> (#[trigger] chunks@[i])@ == chunk_of(space@, threads as nat, i),
        chunks@.map_values(|c: Vec<CredentialPair>| c@) == chunks_of(space@, threads as nat),
        chunks@.map_values(|c: Vec<CredentialPair>| c@).flatten() == space@,
{
    let n = space.len();
    let size = n / threads;
    let mut chunks: Vec<Vec<CredentialPair>> = Vec::new();
    let mut i: usize = 0;
    let mut start: usize = 0;
    while i < threads
        invariant
            threads >= 1,
            n == space@.len(),
            size == n / threads,
            0 <= i <= threads,
            i < threads ==> start == chunk_start(n as nat, threads as nat, i as int),
            chunks@.len() == i,
            forall|k: int|
                0 <= k < i ==> (#[trigger] chunks@[k])@ == chunk_of(space@, threads as nat, k),
        decreases threads - i,
    {
        proof {
            lemma_chunk_bounds(n as nat, threads as nat, i as int);
        }
        let end = if i + 1 == threads {
            n
        } else {
            start + size
        };
        let chunk = copy_range(space, start, end);
        chunks.push(chunk);
        i += 1;
        start = end;
    }
    proof {
        let views = chunks@.map_values(|c: Vec<CredentialPair>| c@);
        assert(views =~= chunks_of(space@, threads as nat));
        lemma_chunks_concat(space@, threads as nat);
    }
    chunks
}

} // verus!
