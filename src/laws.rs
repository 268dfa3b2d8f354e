//! Properties of the registry that hold across several operations.

use vstd::prelude::*;
use crate::registry::{
    after_clone, after_move, after_push, after_release, entry_wf, live_borrows, read_error,
    write_error, BindingState, Entry, OwnershipError, Registry,
};

verus! {

/// Once the value of binding `b` has been moved away, every further use of
/// `b` is rejected as a use after move: reading, cloning, mutating, moving
/// again and borrowing either way. Releasing `b` at the end of its scope
/// leaves everything as it is, and the new binding owns the text that `b`
/// held.
pub proof fn moved_binding_is_unusable(s: Seq<Entry>, b: int)
    requires
        0 <= b < s.len(),
        write_error(s[b].1) is None,
    ensures
        ({
            let t = after_move(s, b);
            &&& read_error(t[b].1) == Some(OwnershipError::UseAfterMove)
            &&& write_error(t[b].1) == Some(OwnershipError::UseAfterMove)
            &&& after_release(t, b) == t
            &&& t[s.len() as int] == (s[b].0, BindingState::Owned)
        }),
{
}

/// A clone is independent of its source: appending to the clone leaves the
/// source as it was, and appending to the source leaves the clone as it was.
pub proof fn clone_is_independent(s: Seq<Entry>, b: int, text: Seq<char>)
    requires
        0 <= b < s.len(),
        read_error(s[b].1) is None,
    ensures
        ({
            let c = after_clone(s, b);
            let n = s.len() as int;
            &&& c[n] == (s[b].0, BindingState::Owned)
            &&& c[b] == s[b]
            &&& after_push(c, n, text)[b] == s[b]
            &&& after_push(c, n, text)[n].0 == s[b].0 + text
            &&& after_push(c, b, text)[n] == c[n]
            &&& after_push(c, b, text)[b].0 == s[b].0 + text
        }),
{
}

/// In every well-formed registry, which each operation keeps so, the live
/// borrows of a binding are none, some shared ones only, or exactly one
/// exclusive one. A shared borrow is granted only where no exclusive borrow
/// is live, and an exclusive borrow only where no borrow at all is live.
pub proof fn borrows_never_mix(r: Registry, b: int)
    requires
        r.wf(),
        0 <= b < r@.len(),
    ensures
        ({
            let (shared, exclusive) = live_borrows(r@[b].1);
            ||| shared == 0 && exclusive == 0
            ||| shared >= 1 && exclusive == 0
            ||| shared == 0 && exclusive == 1
        }),
        read_error(r@[b].1) is None ==> live_borrows(r@[b].1).1 == 0,
        write_error(r@[b].1) is None ==> live_borrows(r@[b].1) == (0nat, 0nat),
{
    assert(entry_wf(r@[b]));
}

} // verus!
