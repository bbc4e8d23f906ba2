//! Helpers for vectors of strings, specified over sequences of character
//! sequences.

use vstd::prelude::*;

verus! {

/// Appends a copy of `item` to `dst`.
pub fn push_text(dst: &mut Vec<String>, item: &String)
    ensures
        final(dst).deep_view() == old(dst).deep_view().push(item@),
{
    dst.push(item.clone());
    assert(dst.deep_view() =~= old(dst).deep_view().push(item@));
}

/// Appends a copy of every string of `src` to `dst`, in order.
pub fn extend_texts(dst: &mut Vec<String>, src: &Vec<String>)
    ensures
        final(dst).deep_view() == old(dst).deep_view() + src.deep_view(),
{
    let mut i: usize = 0;
    while i < src.len()
        invariant
            i <= src.len(),
            dst.deep_view() == old(dst).deep_view() + src.deep_view().take(i as int),
        decreases src.len() - i,
    {
        let ghost before = dst.deep_view();
        push_text(dst, &src[i]);
        assert(src.deep_view().take(i as int + 1) =~= src.deep_view().take(i as int).push(
            src[i as int]@,
        ));
        assert(dst.deep_view() =~= old(dst).deep_view() + src.deep_view().take(i as int + 1));
        i += 1;
    }
    assert(src.deep_view().take(src.len() as int) =~= src.deep_view());
}

/// A copy of `src`.
pub fn clone_texts(src: &Vec<String>) -> (copy: Vec<String>)
    ensures
        copy.deep_view() == src.deep_view(),
{
    let mut copy: Vec<String> = Vec::with_capacity(src.len());
    assert(copy.deep_view() =~= Seq::<Seq<char>>::empty());
    extend_texts(&mut copy, src);
    assert(copy.deep_view() =~= src.deep_view());
    copy
}

} // verus!
