//! Cutting an ordered list of entries into contiguous chunks of a fixed size.

use vstd::prelude::*;

verus! {

/// Number of chunks of `size` entries needed for `len` entries: `ceil(len / size)`.
pub open spec fn chunk_count_spec(len: nat, size: nat) -> nat
    recommends
        size > 0,
{
    if len == 0 {
        0
    } else {
        ((len - 1) as nat / size + 1) as nat
    }
}

/// Start of chunk `k` (inclusive).
pub open spec fn chunk_start(k: nat, size: nat) -> nat {
    k * size
}

/// End of chunk `k` (exclusive): the chunk stops at `size` entries or at the end of the list.
pub open spec fn chunk_end(k: nat, size: nat, len: nat) -> nat {
    if (k + 1) * size <= len {
        (k + 1) * size
    } else {
        len
    }
}

/// The chunks of `s`, in order: all of `size` entries but possibly the last.
pub open spec fn chunks_of<T>(s: Seq<T>, size: nat) -> Seq<Seq<T>>
    recommends
        size > 0,
    decreases s.len(),
{
    if s.len() == 0 || size == 0 {
        Seq::empty()
    } else if s.len() <= size {
        seq![s]
    } else {
        seq![s.take(size as int)] + chunks_of(s.skip(size as int), size)
    }
}

/// Concatenation of a sequence of chunks.
pub open spec fn concat_chunks<T>(cs: Seq<Seq<T>>) -> Seq<T>
    decreases cs.len(),
{
    if cs.len() == 0 {
        Seq::empty()
    } else {
        cs[0] + concat_chunks(cs.drop_first())
    }
}

/// Chunking a list of length `len` with chunk size `size > 0` gives `ceil(len / size)`
/// chunks; each has exactly `size` entries except the last, which has between one
/// and `size`; chunk `k` is the slice `[k * size, min((k + 1) * size, len))`; and the
/// chunks concatenated in order give back the list exactly.
pub proof fn lemma_chunks_partition<T>(s: Seq<T>, size: nat)
    requires
        size > 0,
    ensures
        chunks_of(s, size).len() == chunk_count_spec(s.len(), size),
        forall|k: int|
            0 <= k < chunks_of(s, size).len() ==> #[trigger] chunks_of(s, size)[k] == s.subrange(
                chunk_start(k as nat, size) as int,
                chunk_end(k as nat, size, s.len()) as int,
            ),
        forall|k: int|
            0 <= k < chunks_of(s, size).len() - 1 ==> #[trigger] chunks_of(s, size)[k].len()
                == size,
        chunks_of(s, size).len() > 0 ==> 0 < chunks_of(s, size).last().len() <= size,
        concat_chunks(chunks_of(s, size)) == s,
    decreases s.len(),
{
    if s.len() == 0 {
        assert(concat_chunks(chunks_of(s, size)) =~= s);
    } else if s.len() <= size {
        let cs = chunks_of(s, size);
        assert(cs.drop_first() =~= Seq::<Seq<T>>::empty());
        assert(cs[0] == s);
        assert(concat_chunks(cs.drop_first()) == Seq::<T>::empty());
        assert(concat_chunks(cs) =~= s);
        assert((s.len() - 1) as nat / size == 0) by (nonlinear_arith)
            requires
                0 < s.len() <= size,
        ;
        assert(s.subrange(0, s.len() as int) =~= s);
        assert(chunk_end(0, size, s.len()) == s.len()) by (nonlinear_arith)
            requires
                0 < s.len() <= size,
        ;
    } else {
        let rest = s.skip(size as int);
        lemma_chunks_partition(rest, size);
        let cs = chunks_of(s, size);
        let rs = chunks_of(rest, size);
        assert(cs == seq![s.take(size as int)] + rs);
        assert(cs.drop_first() =~= rs);
        assert(s.take(size as int) + rest =~= s);
        assert(((s.len() - 1) as nat / size + 1) == ((rest.len() - 1) as nat / size + 1) + 1)
            by (nonlinear_arith)
            requires
                rest.len() == s.len() - size,
                s.len() > size,
                size > 0,
        {
            assert((s.len() - 1) as nat == (rest.len() - 1) as nat + size);
            vstd::arithmetic::div_mod::lemma_div_plus_one(((rest.len() - 1) as nat) as int, size as int);
        }
        assert forall|k: int| 0 <= k < cs.len() implies #[trigger] cs[k] == s.subrange(
            chunk_start(k as nat, size) as int,
            chunk_end(k as nat, size, s.len()) as int,
        ) by {
            if k == 0 {
                assert((0 + 1) * size == size) by (nonlinear_arith);
                assert(chunk_end(0, size, s.len()) == size);
                assert(cs[0] =~= s.subrange(0, size as int));
            } else {
                let j = k - 1;
                assert(cs[k] == rs[j]);
                assert(k * size == j * size + size) by (nonlinear_arith)
                    requires
                        j == k - 1,
                ;
                assert((k + 1) * size == (j + 1) * size + size) by (nonlinear_arith)
                    requires
                        j == k - 1,
                ;
                assert(chunk_start(k as nat, size) == chunk_start(j as nat, size) + size);
                assert(chunk_end(k as nat, size, s.len()) == chunk_end(j as nat, size, rest.len())
                    + size);
                let a = chunk_start(j as nat, size) as int;
                let b = chunk_end(j as nat, size, rest.len()) as int;
                assert(rs[j] == rest.subrange(a, b));
                assert(j * size <= (rest.len() - 1) as int) by (nonlinear_arith)
                    requires
                        0 <= j < (rest.len() - 1) as nat / size + 1,
                        rest.len() > 0,
                        size > 0,
                {
                    vstd::arithmetic::div_mod::lemma_fundamental_div_mod(
                        (rest.len() - 1) as int,
                        size as int,
                    );
                }
                assert(rest.subrange(a, b) =~= s.subrange(a + size, b + size));
                assert(rs[j] =~= s.subrange(
                    chunk_start(k as nat, size) as int,
                    chunk_end(k as nat, size, s.len()) as int,
                ));
            }
        }
        assert forall|k: int| 0 <= k < cs.len() - 1 implies #[trigger] cs[k].len() == size by {
            if k > 0 {
                assert(cs[k] == rs[k - 1]);
            }
        }
        assert(cs.last() == rs.last());
    }
}

/// How many chunks of `size` entries cover `len` entries.
pub fn chunk_count(len: usize, size: usize) -> (r: usize)
    requires
        size > 0,
    ensures
        r == chunk_count_spec(len as nat, size as nat),
{
    if len == 0 {
        0
    } else {
        (len - 1) / size + 1
    }
}

/// The `[start, end)` bounds of each chunk of a list of `len` entries, in order.
pub fn chunk_bounds(len: usize, size: usize) -> (r: Vec<(usize, usize)>)
    requires
        size > 0,
    ensures
        r@.len() == chunk_count_spec(len as nat, size as nat),
        forall|k: int|
            0 <= k < r@.len() ==> #[trigger] r@[k].0 == chunk_start(k as nat, size as nat)
                && r@[k].1 == chunk_end(k as nat, size as nat, len as nat),
{
    let mut r: Vec<(usize, usize)> = Vec::new();
    let mut start: usize = 0;
    assert(r@.len() * size == 0) by (nonlinear_arith)
        requires
            r@.len() == 0,
    ;
    while start < len
        invariant
            size > 0,
            start <= len,
            start < len ==> start == r@.len() * size,
            start == len ==> r@.len() * size >= len,
            r@.len() * size < len + size,
            forall|k: int|
                0 <= k < r@.len() ==> #[trigger] r@[k].0 == chunk_start(k as nat, size as nat)
                    && r@[k].1 == chunk_end(k as nat, size as nat, len as nat),
        decreases len - start,
    {
        let k = Ghost(r@.len());
        let ghost old_r = r@;
        let end: usize = if len - start <= size {
            len
        } else {
            start + size
        };
        assert((k@ + 1) * size == k@ * size + size) by (nonlinear_arith);
        r.push((start, end));
        assert(r@[k@ as int].0 == chunk_start(k@, size as nat));
        assert(r@[k@ as int].1 == chunk_end(k@, size as nat, len as nat));
        assert forall|i: int| 0 <= i < r@.len() implies #[trigger] r@[i].0 == chunk_start(
            i as nat,
            size as nat,
        ) && r@[i].1 == chunk_end(i as nat, size as nat, len as nat) by {
            if i < k@ {
                assert(r@[i] == old_r[i]);
            }
        }
        start = end;
    }
    proof {
        let n = r@.len();
        assert(n * size >= len);
        if len == 0 {
            assert(n == 0) by (nonlinear_arith)
                requires
                    n * size < len + size,
                    len == 0,
                    size > 0,
            ;
        } else {
            assert(n == (len - 1) as nat / size as nat + 1) by (nonlinear_arith)
                requires
                    n * size >= len,
                    n * size < len + size,
                    len > 0,
                    size > 0,
            {
                vstd::arithmetic::div_mod::lemma_fundamental_div_mod((len - 1) as int, size as int);
            }
        }
    }
    r
}

} // verus!
