//! Work for threads to share: a test for primes, and a way to deal a list
//! of candidates out to them.

use vstd::arithmetic::div_mod::lemma_div_pos_is_pos;
use vstd::arithmetic::div_mod::lemma_fundamental_div_mod;
use vstd::arithmetic::div_mod::lemma_fundamental_div_mod_converse_div;
use vstd::arithmetic::div_mod::lemma_mod_bound;
use vstd::prelude::*;

verus! {

/// Whether `n` is prime: above one, and divisible by nothing between two
/// and itself.
pub open spec fn prime(n: nat) -> bool {
    n > 1 && forall|d: nat| 2 <= d < n ==> #[trigger] (n % d) != 0
}

/// The items of `data` whose place, counted from zero, leaves `chunk` when
/// divided by `chunks`, in the order in which they stand in `data`.
pub open spec fn dealt(data: Seq<usize>, chunks: int, chunk: int) -> Seq<usize>
    decreases data.len(),
{
    if data.len() == 0 {
        Seq::empty()
    } else {
        let earlier = dealt(data.drop_last(), chunks, chunk);
        if chunks > 0 && (data.len() - 1) % chunks == chunk {
            earlier.push(data.last())
        } else {
            earlier
        }
    }
}

/// How many of the places below `len` leave `chunk` when divided by
/// `chunks`.
pub open spec fn share(len: int, chunks: int, chunk: int) -> int {
    (len + chunks - 1 - chunk) / chunks
}

/// One more place adds one to the share of the chunk it falls to, and
/// nothing to the others.
proof fn share_grows(len: int, chunks: int, chunk: int)
    requires
        0 <= len,
        0 <= chunk < chunks,
    ensures
        share(len + 1, chunks, chunk) == share(len, chunks, chunk) + if len % chunks == chunk {
            1int
        } else {
            0int
        },
        len % chunks == chunk ==> share(len, chunks, chunk) == len / chunks,
{
    let q = len / chunks;
    let r = len % chunks;
    lemma_fundamental_div_mod(len, chunks);
    lemma_mod_bound(len, chunks);
    assert(chunks * q == q * chunks) by (nonlinear_arith);
    assert((q + 1) * chunks == q * chunks + chunks) by (nonlinear_arith);
    if r > chunk {
        lemma_fundamental_div_mod_converse_div(len + chunks - 1 - chunk, chunks, q + 1, r - 1 - chunk);
        lemma_fundamental_div_mod_converse_div(len + chunks - chunk, chunks, q + 1, r - chunk);
    } else if r == chunk {
        lemma_fundamental_div_mod_converse_div(len + chunks - 1 - chunk, chunks, q, chunks - 1);
        lemma_fundamental_div_mod_converse_div(len + chunks - chunk, chunks, q + 1, 0);
    } else {
        lemma_fundamental_div_mod_converse_div(
            len + chunks - 1 - chunk,
            chunks,
            q,
            r + chunks - 1 - chunk,
        );
        lemma_fundamental_div_mod_converse_div(len + chunks - chunk, chunks, q, r + chunks - chunk);
    }
}

/// Each chunk gets its share: as many items as there are places that fall
/// to it.
pub proof fn dealt_len(data: Seq<usize>, chunks: int, chunk: int)
    requires
        0 <= chunk < chunks,
    ensures
        dealt(data, chunks, chunk).len() == share(data.len() as int, chunks, chunk),
    decreases data.len(),
{
    if data.len() == 0 {
        lemma_fundamental_div_mod_converse_div(chunks - 1 - chunk, chunks, 0, chunks - 1 - chunk);
    } else {
        dealt_len(data.drop_last(), chunks, chunk);
        share_grows(data.len() - 1, chunks, chunk);
    }
}

/// Dealing in turn: the item at place `i` of `data` is item `i / chunks` of
/// chunk `i % chunks`.
pub proof fn dealt_item(data: Seq<usize>, chunks: int, i: int)
    requires
        0 < chunks,
        0 <= i < data.len(),
    ensures
        0 <= i % chunks < chunks,
        0 <= i / chunks < dealt(data, chunks, i % chunks).len(),
        dealt(data, chunks, i % chunks)[i / chunks] == data[i],
    decreases data.len(),
{
    let last = data.len() - 1;
    let chunk = i % chunks;
    lemma_mod_bound(i, chunks);
    lemma_div_pos_is_pos(i, chunks);
    if i == last {
        dealt_len(data.drop_last(), chunks, chunk);
        share_grows(last, chunks, chunk);
    } else {
        dealt_item(data.drop_last(), chunks, i);
    }
}

/// Tests `n` for primality by trial division.
pub fn is_prime(n: usize) -> (yes: bool)
    ensures
        yes == prime(n as nat),
{
    if n <= 1 {
        false
    } else {
        for div in 2..n
            invariant
                forall|d: nat| 2 <= d < div ==> #[trigger] (n as nat % d) != 0,
        {
            if n % div == 0 {
                assert((n as nat % div as nat) == 0);
                return false;
            }
        }
        true
    }
}

/// Deals `data` out into `num_chunks` lists, item by item in turn.
///
/// With no list to deal to, only empty `data` can be dealt.
pub fn interleave_move(data: Vec<usize>, num_chunks: usize) -> (chunks: Vec<Vec<usize>>)
    requires
        num_chunks > 0 || data.len() == 0,
        data.len() < usize::MAX,
    ensures
        chunks.len() == num_chunks,
        forall|chunk: int|
            0 <= chunk < num_chunks ==> (#[trigger] chunks[chunk])@ == dealt(
                data@,
                num_chunks as int,
                chunk,
            ),
{
    let mut chunks: Vec<Vec<usize>> = Vec::with_capacity(num_chunks);
    for made in 0..num_chunks
        invariant
            data.len() < usize::MAX,
            chunks.len() == made,
            forall|chunk: int| 0 <= chunk < made ==> (#[trigger] chunks[chunk])@ == Seq::<usize>::empty(),
    {
        chunks.push(Vec::with_capacity(data.len() / num_chunks + 1));
    }
    for i in 0..data.len()
        invariant
            num_chunks > 0 || data.len() == 0,
            chunks.len() == num_chunks,
            forall|chunk: int|
                0 <= chunk < num_chunks ==> (#[trigger] chunks[chunk])@ == dealt(
                    data@.take(i as int),
                    num_chunks as int,
                    chunk,
                ),
    {
        let turn: usize = i % num_chunks;
        let item: usize = data[i];
        let ghost before = chunks@;
        chunks[turn].push(item);
        proof {
            let longer = data@.take(i + 1);
            assert(longer.drop_last() =~= data@.take(i as int));
            assert(longer.last() == item);
            assert forall|chunk: int| 0 <= chunk < num_chunks implies (#[trigger] chunks[chunk])@
                == dealt(longer, num_chunks as int, chunk) by {
                assert(before[chunk]@ == dealt(data@.take(i as int), num_chunks as int, chunk));
            }
        }
    }
    assert(data@.take(data.len() as int) =~= data@);
    chunks
}

} // verus!
