//! Content-defined chunking of an in-memory buffer.

use vstd::prelude::*;

verus! {

/// Smallest length of a chunk that is not the last one (2 MiB).
pub const MIN_CHUNK_SIZE: usize = 2097152;

/// Length the rolling hash aims for (4 MiB).
pub const AVG_CHUNK_SIZE: usize = 4194304;

/// Largest length of any chunk (8 MiB).
pub const MAX_CHUNK_SIZE: usize = 8388608;

/// The chunk lengths that FastCDC picks for `data` with the given sizes.
pub uninterp spec fn cdc_lengths(data: Seq<u8>, min_size: usize, avg_size: usize, max_size: usize) -> Seq<usize>;

/// Sum of a sequence of lengths.
pub open spec fn total(lens: Seq<usize>) -> nat
    decreases lens.len(),
{
    if lens.len() == 0 {
        0
    } else {
        total(lens.drop_last()) + lens.last() as nat
    }
}

/// Concatenation of a sequence of chunks, in order.
pub open spec fn concat(chunks: Seq<Seq<u8>>) -> Seq<u8>
    decreases chunks.len(),
{
    if chunks.len() == 0 {
        Seq::empty()
    } else {
        concat(chunks.drop_last()) + chunks.last()
    }
}

/// Sizes that the chunker accepts: within FastCDC's ranges, `min <= avg <= max`.
pub open spec fn valid_sizes(min_size: usize, avg_size: usize, max_size: usize) -> bool {
    &&& 64 <= min_size <= 67108864
    &&& 256 <= avg_size <= 268435456
    &&& 1024 <= max_size <= 1073741824
    &&& min_size <= avg_size <= max_size
}

/// Every length is positive and at most `max_size`; all but the last are at
/// least `min_size`.
pub open spec fn lengths_in_bounds(lens: Seq<usize>, min_size: nat, max_size: nat) -> bool {
    forall|i: int|
        0 <= i < lens.len() ==> {
            &&& 0 < lens[i] <= max_size
            &&& (i + 1 < lens.len() ==> min_size <= lens[i])
        }
}

/// `data` cut into consecutive pieces of the given lengths.
pub open spec fn split_by(data: Seq<u8>, lens: Seq<usize>) -> Seq<Seq<u8>> {
    Seq::new(
        lens.len(),
        |i: int| data.subrange(total(lens.take(i)) as int, total(lens.take(i + 1)) as int),
    )
}

/// The chunks of `data` under the default sizes.
pub open spec fn chunks_of(data: Seq<u8>) -> Seq<Seq<u8>> {
    split_by(data, cdc_lengths(data, MIN_CHUNK_SIZE, AVG_CHUNK_SIZE, MAX_CHUNK_SIZE))
}

/// Relies on fastcdc::ronomon::FastCDC: over a final buffer its chunks run back
/// to back from offset 0 to the end, each is at most `max_size` long, and each
/// but the last is longer than `min_size`. It panics on sizes out of its ranges.
#[verifier::external_body]
fn cdc_chunk_lengths(data: &[u8], min_size: usize, avg_size: usize, max_size: usize) -> (r: Vec<usize>)
    requires
        valid_sizes(min_size, avg_size, max_size),
    ensures
        r@ == cdc_lengths(data@, min_size, avg_size, max_size),
        total(r@) == data@.len(),
        lengths_in_bounds(r@, min_size as nat, max_size as nat),
{
    fastcdc::ronomon::FastCDC::new(data, min_size, avg_size, max_size).map(|c| c.length).collect()
}

proof fn lemma_take_last(lens: Seq<usize>, i: int)
    requires
        0 <= i < lens.len(),
    ensures
        total(lens.take(i + 1)) == total(lens.take(i)) + lens[i],
{
    assert(lens.take(i + 1).drop_last() =~= lens.take(i));
}

proof fn lemma_total_prefix(lens: Seq<usize>, i: int)
    requires
        0 <= i <= lens.len(),
    ensures
        total(lens.take(i)) <= total(lens),
    decreases lens.len() - i,
{
    if i == lens.len() {
        assert(lens.take(i) =~= lens);
    } else {
        lemma_take_last(lens, i);
        lemma_total_prefix(lens, i + 1);
    }
}

/// The first `i` pieces of a split put back together give the first
/// `total(lens.take(i))` bytes.
proof fn lemma_concat_split_prefix(data: Seq<u8>, lens: Seq<usize>, i: int)
    requires
        total(lens) <= data.len(),
        0 <= i <= lens.len(),
    ensures
        concat(split_by(data, lens).take(i)) == data.take(total(lens.take(i)) as int),
    decreases i,
{
    let parts = split_by(data, lens);
    if i == 0 {
        assert(parts.take(0) =~= Seq::<Seq<u8>>::empty());
        assert(data.take(0) =~= Seq::<u8>::empty());
        assert(lens.take(0) =~= Seq::<usize>::empty());
    } else {
        lemma_concat_split_prefix(data, lens, i - 1);
        lemma_take_last(lens, i - 1);
        lemma_total_prefix(lens, i);
        assert(parts.take(i).drop_last() =~= parts.take(i - 1));
        let a = total(lens.take(i - 1)) as int;
        let b = total(lens.take(i)) as int;
        assert(data.take(a) + data.subrange(a, b) =~= data.take(b));
    }
}

/// Putting the pieces of a split back together gives the data it covers.
pub proof fn lemma_concat_split(data: Seq<u8>, lens: Seq<usize>)
    requires
        total(lens) == data.len(),
    ensures
        concat(split_by(data, lens)) == data,
{
    lemma_concat_split_prefix(data, lens, lens.len() as int);
    assert(split_by(data, lens).take(lens.len() as int) =~= split_by(data, lens));
    assert(lens.take(lens.len() as int) =~= lens);
    assert(data.take(data.len() as int) =~= data);
}

/// Cuts `data` into consecutive chunks of the lengths `lens`, in order.
pub fn split_chunks(data: &[u8], lens: &Vec<usize>) -> (r: Vec<Vec<u8>>)
    requires
        total(lens@) == data@.len(),
    ensures
        r.deep_view() == split_by(data@, lens@),
        concat(r.deep_view()) == data@,
{
    let n: usize = data.len();
    let mut chunks: Vec<Vec<u8>> = Vec::new();
    let mut start: usize = 0;
    let mut i: usize = 0;
    while i < lens.len()
        invariant
            total(lens@) == data@.len(),
            n == data@.len(),
            i <= lens@.len(),
            start == total(lens@.take(i as int)),
            chunks@.len() == i,
            forall|j: int| 0 <= j < i ==> #[trigger] chunks@[j]@ == split_by(data@, lens@)[j],
        decreases lens@.len() - i,
    {
        proof {
            lemma_take_last(lens@, i as int);
            lemma_total_prefix(lens@, i as int + 1);
        }
        let end: usize = start + lens[i];
        let mut piece: Vec<u8> = Vec::new();
        let mut k: usize = start;
        while k < end
            invariant
                start <= k <= end <= data@.len(),
                piece@ == data@.subrange(start as int, k as int),
            decreases end - k,
        {
            piece.push(data[k]);
            k = k + 1;
            proof {
                assert(piece@ =~= data@.subrange(start as int, k as int));
            }
        }
        chunks.push(piece);
        start = end;
        i = i + 1;
    }
    proof {
        assert forall|j: int| 0 <= j < chunks@.len() implies chunks.deep_view()[j] == split_by(
            data@,
            lens@,
        )[j] by {
            assert(chunks.deep_view()[j] == chunks@[j]@);
        }
        assert(chunks.deep_view() =~= split_by(data@, lens@));
        lemma_concat_split(data@, lens@);
    }
    chunks
}

/// Cuts `data` into content-defined chunks with the default sizes. The same
/// bytes always give the same chunks; put back together they give `data`.
pub fn chunk_bytes(data: &[u8]) -> (r: Vec<Vec<u8>>)
    ensures
        r.deep_view() == chunks_of(data@),
        concat(r.deep_view()) == data@,
        forall|i: int|
            0 <= i < r@.len() ==> {
                &&& 0 < (#[trigger] r@[i])@.len() <= MAX_CHUNK_SIZE
                &&& (i + 1 < r@.len() ==> MIN_CHUNK_SIZE <= r@[i]@.len())
            },
{
    let lens = cdc_chunk_lengths(data, MIN_CHUNK_SIZE, AVG_CHUNK_SIZE, MAX_CHUNK_SIZE);
    let r = split_chunks(data, &lens);
    proof {
        assert forall|i: int| 0 <= i < r@.len() implies {
            &&& 0 < (#[trigger] r@[i])@.len() <= MAX_CHUNK_SIZE
            &&& (i + 1 < r@.len() ==> MIN_CHUNK_SIZE <= r@[i]@.len())
        } by {
            lemma_take_last(lens@, i);
            lemma_total_prefix(lens@, i + 1);
            assert(r.deep_view()[i] == r@[i]@);
            assert(r@[i]@.len() == lens@[i]);
        }
    }
    r
}

/// Chunking is deterministic: byte-identical inputs are cut at the same
/// boundaries, so `chunk_bytes` returns equal chunks for them.
pub proof fn lemma_chunking_deterministic(a: Seq<u8>, b: Seq<u8>)
    requires
        a == b,
    ensures
        chunks_of(a) == chunks_of(b),
        cdc_lengths(a, MIN_CHUNK_SIZE, AVG_CHUNK_SIZE, MAX_CHUNK_SIZE) == cdc_lengths(
            b,
            MIN_CHUNK_SIZE,
            AVG_CHUNK_SIZE,
            MAX_CHUNK_SIZE,
        ),
{
}

} // verus!
