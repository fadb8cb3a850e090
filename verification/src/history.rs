//! Bounded histories: append-only logs that forget their oldest entry once
//! they grow past a maximum length.

use vstd::prelude::*;

verus! {

/// The history after recording `item`: the item is appended, and if the
/// history is then longer than `max_len`, its oldest entry is dropped.
pub open spec fn bounded_push<T>(history: Seq<T>, item: T, max_len: nat) -> Seq<T> {
    let grown = history.push(item);
    if grown.len() > max_len {
        grown.drop_first()
    } else {
        grown
    }
}

/// Record `item` in `history`, keeping at most `max_len` entries when the
/// history was within that bound before.
pub fn push_bounded<T>(history: &mut Vec<T>, item: T, max_len: usize)
    ensures
        final(history)@ == bounded_push(old(history)@, item, max_len as nat),
        old(history)@.len() <= max_len ==> final(history)@.len() <= max_len,
        max_len > 0 ==> final(history)@.last() == item,
{
    history.push(item);
    if history.len() > max_len {
        let _oldest = history.remove(0);
        assert(history@ =~= old(history)@.push(item).drop_first());
    }
}

} // verus!
