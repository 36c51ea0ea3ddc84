//! Small facts about concatenation and subranges of sequences, used when
//! walking a byte stream that was built by concatenating encodings.

use vstd::prelude::*;

verus! {

/// Concatenation is associative.
pub proof fn lemma_concat_assoc<T>(a: Seq<T>, b: Seq<T>, c: Seq<T>)
    ensures
        (a + b) + c == a + (b + c),
{
    assert((a + b) + c =~= a + (b + c));
}

/// Dropping exactly the first operand of a concatenation leaves the second.
pub proof fn lemma_drop_concat<T>(a: Seq<T>, rest: Seq<T>)
    ensures
        (a + rest).subrange(a.len() as int, (a + rest).len() as int) == rest,
{
    assert((a + rest).subrange(a.len() as int, (a + rest).len() as int) =~= rest);
}

/// One step of walking a sequence suffix by suffix.
pub proof fn lemma_subrange_step<T>(s: Seq<T>, i: int)
    requires
        0 <= i < s.len(),
    ensures
        s.subrange(i, s.len() as int)[0] == s[i],
        s.subrange(i, s.len() as int).subrange(1, s.len() - i) == s.subrange(i + 1, s.len() as int),
{
    assert(s.subrange(i, s.len() as int).subrange(1, s.len() - i) =~= s.subrange(
        i + 1,
        s.len() as int,
    ));
}

} // verus!
