//! A run-time registry of owned text values that enforces single ownership
//! and the shared/exclusive borrow rule, rejecting each violating operation
//! with an error instead of performing it.

use vstd::prelude::*;
use vstd::string::*;

verus! {

/// Where a binding stands.
#[derive(Clone, Copy, Debug, PartialEq, Eq, Structural)]
pub enum BindingState {
    /// The binding owns its value and no borrow of it is live.
    Owned,
    /// The binding owns its value and this many shared borrows of it are live.
    Shared(usize),
    /// The binding owns its value and one exclusive borrow of it is live.
    Exclusive,
    /// The value was moved to another binding.
    MovedOut,
    /// The binding's scope ended and its value was released.
    Released,
}

/// Why an operation was rejected.
#[derive(Clone, Copy, Debug, PartialEq, Eq, Structural)]
pub enum OwnershipError {
    /// The binding no longer holds a value: it was moved away or released.
    UseAfterMove,
    /// The operation would break the rule that an exclusive borrow excludes
    /// every other access.
    BorrowConflict,
}

/// One binding as the contracts see it: its text and its state.
pub type Entry = (Seq<char>, BindingState);

/// The error that reading a binding in state `st` meets, if any. Reading is
/// allowed to the owner and beside shared borrows.
pub open spec fn read_error(st: BindingState) -> Option<OwnershipError> {
    match st {
        BindingState::Owned => None,
        BindingState::Shared(_) => None,
        BindingState::Exclusive => Some(OwnershipError::BorrowConflict),
        BindingState::MovedOut => Some(OwnershipError::UseAfterMove),
        BindingState::Released => Some(OwnershipError::UseAfterMove),
    }
}

/// The error that an exclusive use of a binding in state `st` meets, if any:
/// mutating it, moving it, or borrowing it exclusively needs an owner with
/// no live borrow.
pub open spec fn write_error(st: BindingState) -> Option<OwnershipError> {
    match st {
        BindingState::Owned => None,
        BindingState::Shared(_) => Some(OwnershipError::BorrowConflict),
        BindingState::Exclusive => Some(OwnershipError::BorrowConflict),
        BindingState::MovedOut => Some(OwnershipError::UseAfterMove),
        BindingState::Released => Some(OwnershipError::UseAfterMove),
    }
}

/// The error that releasing a binding in state `st` meets, if any: a value
/// cannot be released while a borrow of it is live.
pub open spec fn release_error(st: BindingState) -> Option<OwnershipError> {
    match st {
        BindingState::Shared(_) => Some(OwnershipError::BorrowConflict),
        BindingState::Exclusive => Some(OwnershipError::BorrowConflict),
        _ => None,
    }
}

/// The number of live shared borrows and of live exclusive borrows that a
/// binding in state `st` has.
pub open spec fn live_borrows(st: BindingState) -> (nat, nat) {
    match st {
        BindingState::Shared(n) => (n as nat, 0),
        BindingState::Exclusive => (0, 1),
        _ => (0, 0),
    }
}

/// A binding's state is consistent: a shared state counts at least one
/// borrow, and a binding that lost its value holds no text.
pub open spec fn entry_wf(e: Entry) -> bool {
    &&& e.1 is Shared ==> e.1->0 >= 1
    &&& (e.1 is MovedOut || e.1 is Released) ==> e.0.len() == 0
}

/// The bindings after moving the value of binding `b` to a new binding at
/// the end.
pub open spec fn after_move(s: Seq<Entry>, b: int) -> Seq<Entry> {
    s.update(b, (Seq::empty(), BindingState::MovedOut)).push((s[b].0, BindingState::Owned))
}

/// The bindings after a deep copy of binding `b` is added as a new binding
/// at the end.
pub open spec fn after_clone(s: Seq<Entry>, b: int) -> Seq<Entry> {
    s.push((s[b].0, BindingState::Owned))
}

/// The bindings after `t` is appended to the text of binding `b`.
pub open spec fn after_push(s: Seq<Entry>, b: int, t: Seq<char>) -> Seq<Entry> {
    s.update(b, (s[b].0 + t, s[b].1))
}

/// The bindings after binding `b` takes the state `st`.
pub open spec fn with_state(s: Seq<Entry>, b: int, st: BindingState) -> Seq<Entry> {
    s.update(b, (s[b].0, st))
}

/// The state after one more shared borrow is taken.
pub open spec fn one_more_shared(st: BindingState) -> BindingState {
    match st {
        BindingState::Shared(n) => BindingState::Shared((n + 1) as usize),
        _ => BindingState::Shared(1),
    }
}

/// The state after one shared borrow ends.
pub open spec fn one_less_shared(st: BindingState) -> BindingState {
    match st {
        BindingState::Shared(n) => if n <= 1 {
            BindingState::Owned
        } else {
            BindingState::Shared((n - 1) as usize)
        },
        _ => st,
    }
}

/// The bindings after binding `b` is released at the end of its scope. A
/// binding whose value already left is not released again.
pub open spec fn after_release(s: Seq<Entry>, b: int) -> Seq<Entry> {
    if s[b].1 is Owned {
        s.update(b, (Seq::empty(), BindingState::Released))
    } else {
        s
    }
}

/// Every binding in `s` is consistent.
pub open spec fn all_wf(s: Seq<Entry>) -> bool {
    forall|i: int| 0 <= i < s.len() ==> #[trigger] entry_wf(s[i])
}

proof fn lemma_wf_update(s: Seq<Entry>, b: int, e: Entry)
    requires
        all_wf(s),
        0 <= b < s.len(),
        entry_wf(e),
    ensures
        all_wf(s.update(b, e)),
{
    assert forall|i: int| 0 <= i < s.len() implies #[trigger] entry_wf(s.update(b, e)[i]) by {
        if i != b {
            assert(s.update(b, e)[i] == s[i]);
        }
    }
}

proof fn lemma_wf_push(s: Seq<Entry>, e: Entry)
    requires
        all_wf(s),
        entry_wf(e),
    ensures
        all_wf(s.push(e)),
{
    assert forall|i: int| 0 <= i < s.len() + 1 implies #[trigger] entry_wf(s.push(e)[i]) by {
        if i < s.len() {
            assert(s.push(e)[i] == s[i]);
        }
    }
}

struct Binding {
    content: String,
    state: BindingState,
}

/// Owned text values, each held by one binding, addressed by index.
pub struct Registry {
    bindings: Vec<Binding>,
}

impl View for Registry {
    type V = Seq<Entry>;

    closed spec fn view(&self) -> Seq<Entry> {
        self.bindings@.map_values(|x: Binding| (x.content@, x.state))
    }
}

impl Registry {
    /// Every binding is consistent.
    pub open spec fn wf(&self) -> bool {
        all_wf(self@)
    }

    /// An empty registry.
    pub fn new() -> (r: Registry)
        ensures
            r@ == Seq::<Entry>::empty(),
            r.wf(),
    {
        Registry { bindings: Vec::new() }
    }

    /// The number of bindings made so far.
    pub fn len(&self) -> (r: usize)
        ensures
            r == self@.len(),
    {
        self.bindings.len()
    }

    /// The state of binding `b`.
    pub fn state(&self, b: usize) -> (r: BindingState)
        requires
            b < self@.len(),
        ensures
            r == self@[b as int].1,
    {
        self.bindings[b].state
    }

    /// Makes a new binding that owns `content`, and returns its index.
    pub fn create(&mut self, content: String) -> (r: usize)
        requires
            old(self).wf(),
        ensures
            r == old(self)@.len(),
            final(self)@ == old(self)@.push((content@, BindingState::Owned)),
            final(self).wf(),
    {
        let r = self.bindings.len();
        self.bindings.push(Binding { content, state: BindingState::Owned });
        assert(self@ =~= old(self)@.push((content@, BindingState::Owned)));
        proof {
            lemma_wf_push(old(self)@, (content@, BindingState::Owned));
        }
        r
    }

    /// Puts `entry` in place of binding `b` and returns what stood there.
    fn swap_binding(&mut self, b: usize, entry: Binding) -> (r: Binding)
        requires
            b < old(self)@.len(),
        ensures
            final(self)@ == old(self)@.update(b as int, (entry.content@, entry.state)),
            (r.content@, r.state) == old(self)@[b as int],
    {
        let mut entry = entry;
        self.bindings.set_and_swap(b, &mut entry);
        entry
    }

    /// A copy of the text of binding `b`, read by its owner.
    pub fn content(&self, b: usize) -> (r: Result<String, OwnershipError>)
        requires
            b < self@.len(),
        ensures
            match r {
                Ok(v) => read_error(self@[b as int].1) is None && v@ == self@[b as int].0,
                Err(e) => read_error(self@[b as int].1) == Some(e),
            },
    {
        match self.bindings[b].state {
            BindingState::Exclusive => Err(OwnershipError::BorrowConflict),
            BindingState::MovedOut | BindingState::Released => Err(OwnershipError::UseAfterMove),
            _ => Ok(self.bindings[b].content.clone()),
        }
    }

    /// Moves the value of binding `b` to a new binding, whose index is
    /// returned; `b` is left without a value.
    pub fn move_value(&mut self, b: usize) -> (r: Result<usize, OwnershipError>)
        requires
            old(self).wf(),
            b < old(self)@.len(),
        ensures
            final(self).wf(),
            match r {
                Ok(n) => {
                    &&& write_error(old(self)@[b as int].1) is None
                    &&& n == old(self)@.len()
                    &&& final(self)@ == after_move(old(self)@, b as int)
                },
                Err(e) => {
                    &&& write_error(old(self)@[b as int].1) == Some(e)
                    &&& final(self)@ == old(self)@
                },
            },
    {
        match self.bindings[b].state {
            BindingState::Owned => {},
            BindingState::MovedOut | BindingState::Released => {
                return Err(OwnershipError::UseAfterMove);
            },
            _ => {
                return Err(OwnershipError::BorrowConflict);
            },
        }
        let moved = self.swap_binding(
            b,
            Binding { content: String::new(), state: BindingState::MovedOut },
        );
        let n = self.bindings.len();
        self.bindings.push(moved);
        assert(self@ =~= after_move(old(self)@, b as int));
        proof {
            let e = (Seq::<char>::empty(), BindingState::MovedOut);
            lemma_wf_update(old(self)@, b as int, e);
            lemma_wf_push(old(self)@.update(b as int, e), old(self)@[b as int]);
        }
        Ok(n)
    }

    /// Gives binding `b` the state `st`, keeping its text.
    fn set_state(&mut self, b: usize, st: BindingState)
        requires
            b < old(self)@.len(),
        ensures
            final(self)@ == with_state(old(self)@, b as int, st),
    {
        let mut entry = self.swap_binding(
            b,
            Binding { content: String::new(), state: BindingState::Released },
        );
        entry.state = st;
        let _ = self.swap_binding(b, entry);
        assert(self@ =~= with_state(old(self)@, b as int, st));
    }

    /// Appends `text` to the text of binding `b`, keeping its state.
    fn append_text(&mut self, b: usize, text: &str)
        requires
            b < old(self)@.len(),
        ensures
            final(self)@ == after_push(old(self)@, b as int, text@),
    {
        let mut entry = self.swap_binding(
            b,
            Binding { content: String::new(), state: BindingState::Released },
        );
        entry.content.append(text);
        let _ = self.swap_binding(b, entry);
        assert(self@ =~= after_push(old(self)@, b as int, text@));
    }

    /// Makes a new binding that owns a deep copy of the text of binding `b`,
    /// and returns its index; `b` keeps its value.
    pub fn clone_value(&mut self, b: usize) -> (r: Result<usize, OwnershipError>)
        requires
            old(self).wf(),
            b < old(self)@.len(),
        ensures
            final(self).wf(),
            match r {
                Ok(n) => {
                    &&& read_error(old(self)@[b as int].1) is None
                    &&& n == old(self)@.len()
                    &&& final(self)@ == after_clone(old(self)@, b as int)
                },
                Err(e) => {
                    &&& read_error(old(self)@[b as int].1) == Some(e)
                    &&& final(self)@ == old(self)@
                },
            },
    {
        match self.content(b) {
            Ok(copy) => {
                let n = self.create(copy);
                Ok(n)
            },
            Err(e) => Err(e),
        }
    }

    /// The owner of binding `b` appends `text` to its value.
    pub fn push_str(&mut self, b: usize, text: &str) -> (r: Result<(), OwnershipError>)
        requires
            old(self).wf(),
            b < old(self)@.len(),
        ensures
            final(self).wf(),
            match r {
                Ok(_) => {
                    &&& write_error(old(self)@[b as int].1) is None
                    &&& final(self)@ == after_push(old(self)@, b as int, text@)
                },
                Err(e) => {
                    &&& write_error(old(self)@[b as int].1) == Some(e)
                    &&& final(self)@ == old(self)@
                },
            },
    {
        match self.bindings[b].state {
            BindingState::Owned => {},
            BindingState::MovedOut | BindingState::Released => {
                return Err(OwnershipError::UseAfterMove);
            },
            _ => {
                return Err(OwnershipError::BorrowConflict);
            },
        }
        self.append_text(b, text);
        proof {
            let e = old(self)@[b as int];
            lemma_wf_update(old(self)@, b as int, (e.0 + text@, e.1));
        }
        Ok(())
    }

    /// Takes one more shared borrow of binding `b`.
    pub fn borrow_shared(&mut self, b: usize) -> (r: Result<(), OwnershipError>)
        requires
            old(self).wf(),
            b < old(self)@.len(),
            old(self)@[b as int].1 != BindingState::Shared(usize::MAX),
        ensures
            final(self).wf(),
            match r {
                Ok(_) => {
                    &&& read_error(old(self)@[b as int].1) is None
                    &&& final(self)@ == with_state(
                        old(self)@,
                        b as int,
                        one_more_shared(old(self)@[b as int].1),
                    )
                },
                Err(e) => {
                    &&& read_error(old(self)@[b as int].1) == Some(e)
                    &&& final(self)@ == old(self)@
                },
            },
    {
        let next = match self.bindings[b].state {
            BindingState::Owned => BindingState::Shared(1),
            BindingState::Shared(n) => BindingState::Shared(n + 1),
            BindingState::Exclusive => {
                return Err(OwnershipError::BorrowConflict);
            },
            _ => {
                return Err(OwnershipError::UseAfterMove);
            },
        };
        self.set_state(b, next);
        proof {
            lemma_wf_update(old(self)@, b as int, (old(self)@[b as int].0, next));
        }
        Ok(())
    }

    /// Ends one shared borrow of binding `b`.
    pub fn end_shared(&mut self, b: usize)
        requires
            old(self).wf(),
            b < old(self)@.len(),
            old(self)@[b as int].1 is Shared,
        ensures
            final(self).wf(),
            final(self)@ == with_state(old(self)@, b as int, one_less_shared(old(self)@[b as int].1)),
    {
        let next = match self.bindings[b].state {
            BindingState::Shared(n) => if n <= 1 {
                BindingState::Owned
            } else {
                BindingState::Shared(n - 1)
            },
            other => other,
        };
        self.set_state(b, next);
        proof {
            lemma_wf_update(old(self)@, b as int, (old(self)@[b as int].0, next));
        }
    }

    /// Takes an exclusive borrow of binding `b`.
    pub fn borrow_exclusive(&mut self, b: usize) -> (r: Result<(), OwnershipError>)
        requires
            old(self).wf(),
            b < old(self)@.len(),
        ensures
            final(self).wf(),
            match r {
                Ok(_) => {
                    &&& write_error(old(self)@[b as int].1) is None
                    &&& final(self)@ == with_state(old(self)@, b as int, BindingState::Exclusive)
                },
                Err(e) => {
                    &&& write_error(old(self)@[b as int].1) == Some(e)
                    &&& final(self)@ == old(self)@
                },
            },
    {
        match self.bindings[b].state {
            BindingState::Owned => {},
            BindingState::MovedOut | BindingState::Released => {
                return Err(OwnershipError::UseAfterMove);
            },
            _ => {
                return Err(OwnershipError::BorrowConflict);
            },
        }
        self.set_state(b, BindingState::Exclusive);
        proof {
            let e = (old(self)@[b as int].0, BindingState::Exclusive);
            lemma_wf_update(old(self)@, b as int, e);
        }
        Ok(())
    }

    /// Ends the exclusive borrow of binding `b`.
    pub fn end_exclusive(&mut self, b: usize)
        requires
            old(self).wf(),
            b < old(self)@.len(),
            old(self)@[b as int].1 is Exclusive,
        ensures
            final(self).wf(),
            final(self)@ == with_state(old(self)@, b as int, BindingState::Owned),
    {
        self.set_state(b, BindingState::Owned);
        proof {
            lemma_wf_update(old(self)@, b as int, (old(self)@[b as int].0, BindingState::Owned));
        }
    }

    /// A copy of the text of binding `b`, read through a live borrow of it.
    pub fn content_through_borrow(&self, b: usize) -> (r: String)
        requires
            b < self@.len(),
            self@[b as int].1 is Shared || self@[b as int].1 is Exclusive,
        ensures
            r@ == self@[b as int].0,
    {
        self.bindings[b].content.clone()
    }

    /// Appends `text` to binding `b` through its live exclusive borrow.
    pub fn push_str_through_borrow(&mut self, b: usize, text: &str)
        requires
            old(self).wf(),
            b < old(self)@.len(),
            old(self)@[b as int].1 is Exclusive,
        ensures
            final(self).wf(),
            final(self)@ == after_push(old(self)@, b as int, text@),
    {
        self.append_text(b, text);
        proof {
            let e = old(self)@[b as int];
            lemma_wf_update(old(self)@, b as int, (e.0 + text@, e.1));
        }
    }

    /// Releases the value of binding `b` as its scope ends. A binding whose
    /// value was moved away, or was already released, is left as it is.
    pub fn release(&mut self, b: usize) -> (r: Result<(), OwnershipError>)
        requires
            old(self).wf(),
            b < old(self)@.len(),
        ensures
            final(self).wf(),
            match r {
                Ok(_) => {
                    &&& release_error(old(self)@[b as int].1) is None
                    &&& final(self)@ == after_release(old(self)@, b as int)
                },
                Err(e) => {
                    &&& release_error(old(self)@[b as int].1) == Some(e)
                    &&& final(self)@ == old(self)@
                },
            },
    {
        match self.bindings[b].state {
            BindingState::Owned => {},
            BindingState::MovedOut | BindingState::Released => {
                return Ok(());
            },
            _ => {
                return Err(OwnershipError::BorrowConflict);
            },
        }
        let _ = self.swap_binding(
            b,
            Binding { content: String::new(), state: BindingState::Released },
        );
        proof {
            let e = (Seq::<char>::empty(), BindingState::Released);
            lemma_wf_update(old(self)@, b as int, e);
        }
        Ok(())
    }
}

} // verus!
