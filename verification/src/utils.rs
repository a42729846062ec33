//! Small request-handling helpers: shortening long text, masking secrets
//! in log output, and splitting work into fixed-size batches.

use vstd::prelude::*;

verus! {

/// What truncation owes: the text itself when it fits, else its first
/// `max_length - 3` characters with a three-dot ellipsis.
pub open spec fn truncated(s: Seq<char>, max_length: int) -> Seq<char> {
    if s.len() <= max_length {
        s
    } else {
        s.take(max_length - 3) + "..."@
    }
}

/// Shortens text to at most `max_length` characters, marking the cut
/// with an ellipsis.
pub fn truncate_string(s: &str, max_length: usize) -> (r: String)
    requires
        max_length >= 3,
    ensures
        r@ == truncated(s@, max_length as int),
{
    let n = s.unicode_len();
    if n <= max_length {
        String::from_str(s)
    } else {
        let head = s.substring_char(0, max_length - 3);
        let mut out = String::from_str(head);
        out.append("...");
        proof {
            assert(s@.subrange(0, max_length - 3) =~= s@.take(max_length - 3));
        }
        out
    }
}

/// A run of `n` mask characters.
pub open spec fn stars(n: int) -> Seq<char>
    decreases n,
{
    if n <= 0 {
        Seq::empty()
    } else {
        stars(n - 1).push('*')
    }
}

/// What masking owes: empty text stays empty; short text is fully
/// masked; longer text keeps its first and last four characters around a
/// fully masked middle.
pub open spec fn masked(s: Seq<char>) -> Seq<char> {
    if s.len() == 0 {
        Seq::empty()
    } else if s.len() <= 8 {
        stars(s.len() as int)
    } else {
        s.take(4) + stars(s.len() - 8) + s.skip(s.len() - 4)
    }
}

fn push_stars(out: &mut String, n: usize)
    ensures
        final(out)@ == old(out)@ + stars(n as int),
    decreases n,
{
    if n > 0 {
        push_stars(out, n - 1);
        crate::strutil::push_char(out, '*');
    } else {
        proof {
            assert(final(out)@ =~= old(out)@ + stars(0));
        }
    }
}

/// Masks a sensitive value for log output, keeping at most the outermost
/// four characters on each side visible.
pub fn mask_sensitive_data(data: &str) -> (r: String)
    ensures
        r@ == masked(data@),
{
    let n = data.unicode_len();
    if n == 0 {
        return String::new();
    }
    if n <= 8 {
        let mut out = String::new();
        push_stars(&mut out, n);
        proof {
            assert(out@ =~= masked(data@));
        }
        return out;
    }
    let head = data.substring_char(0, 4);
    let tail = data.substring_char(n - 4, n);
    let mut out = String::from_str(head);
    push_stars(&mut out, n - 8);
    out.append(tail);
    proof {
        assert(data@.subrange(0, 4) =~= data@.take(4));
        assert(data@.subrange(n - 4, n as int) =~= data@.skip(n - 4));
    }
    out
}

/// The batches of `s` in order: full batches of `size` elements, with
/// whatever remains as the final shorter batch.
pub open spec fn chunks_of<T>(s: Seq<T>, size: int) -> Seq<Seq<T>>
    decreases s.len(),
        when size >= 1
{
    if s.len() == 0 {
        Seq::empty()
    } else if s.len() <= size {
        seq![s]
    } else {
        seq![s.take(size)] + chunks_of(s.skip(size), size)
    }
}

/// Splits a slice into batches of at most `chunk_size` elements, in
/// order.
pub fn chunk_vec<T: Copy>(vec: &[T], chunk_size: usize) -> (r: Vec<Vec<T>>)
    requires
        chunk_size >= 1,
    ensures
        r@.len() == chunks_of(vec@, chunk_size as int).len(),
        forall|k: int|
            0 <= k < r@.len() ==> #[trigger] r@[k]@ == chunks_of(vec@, chunk_size as int)[k],
{
    let mut out: Vec<Vec<T>> = Vec::new();
    let n = vec.len();
    let mut i: usize = 0;
    proof {
        assert(out@ =~= Seq::<Vec<T>>::empty());
        assert(vec@.skip(0) =~= vec@);
        assert(out@.map_values(|c: Vec<T>| c@) + chunks_of(vec@, chunk_size as int) =~= chunks_of(
            vec@,
            chunk_size as int,
        ));
    }
    while i < n
        invariant
            n == vec@.len(),
            i <= n,
            chunk_size >= 1,
            chunks_of(vec@, chunk_size as int) == out@.map_values(|c: Vec<T>| c@) + chunks_of(
                vec@.skip(i as int),
                chunk_size as int,
            ),
        decreases n - i,
    {
        let end = if n - i < chunk_size {
            n
        } else {
            i + chunk_size
        };
        let mut chunk: Vec<T> = Vec::new();
        let mut j = i;
        while j < end
            invariant
                i <= j <= end <= n,
                n == vec@.len(),
                chunk@ == vec@.subrange(i as int, j as int),
            decreases end - j,
        {
            chunk.push(vec[j]);
            proof {
                assert(vec@.subrange(i as int, j + 1) =~= vec@.subrange(i as int, j as int).push(
                    vec@[j as int],
                ));
            }
            j = j + 1;
        }
        let ghost rest = vec@.skip(i as int);
        proof {
            if rest.len() <= chunk_size {
                assert(chunk@ =~= rest);
                assert(chunks_of(rest, chunk_size as int) =~= seq![rest]);
            } else {
                assert(chunk@ =~= rest.take(chunk_size as int));
                assert(vec@.skip(i + chunk_size as int) =~= rest.skip(chunk_size as int));
            }
        }
        let ghost pre_out = out@;
        out.push(chunk);
        proof {
            broadcast use vstd::prelude::Seq::lemma_push_map_commute;

            assert(out@.map_values(|c: Vec<T>| c@) =~= pre_out.map_values(|c: Vec<T>| c@).push(
                chunk@,
            ));
            assert(chunks_of(vec@, chunk_size as int) =~= out@.map_values(|c: Vec<T>| c@)
                + chunks_of(vec@.skip(end as int), chunk_size as int));
        }
        i = end;
    }
    proof {
        assert(chunks_of(vec@.skip(n as int), chunk_size as int) =~= Seq::<Seq<T>>::empty());
        assert(chunks_of(vec@, chunk_size as int) =~= out@.map_values(|c: Vec<T>| c@));
        assert forall|k: int| 0 <= k < out@.len() implies #[trigger] out@[k]@ == chunks_of(
            vec@,
            chunk_size as int,
        )[k] by {
            assert(out@.map_values(|c: Vec<T>| c@)[k] == out@[k]@);
        }
    }
    out
}

} // verus!
