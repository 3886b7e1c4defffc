//! A `ChangeList` is a stack of state changes.
//!
//! Between any two states there is a list of changes that, carried out in
//! order, turns the one into the other. The changes are atomic, they enter
//! the list at its tail, and the one that entered last leaves first.
use crate::state::{AddNew, Get};
use std::fmt::Debug;
use std::marker::PhantomData;
use vstd::prelude::*;

verus! {

/// A change that can carry itself out on a state, in place, and says which
/// index of the state it touched.
///
/// What the change does is a function of the state it meets: `applied_to`
/// gives the state afterwards and `index_in` the index touched, both over
/// the state's view.
pub trait ApplyTo<SomeState: View, Index>: Debug {
    /// Whether the change can be carried out on `state`.
    spec fn applies_to(&self, state: SomeState::V) -> bool;

    /// The state that the change leaves behind.
    spec fn applied_to(&self, state: SomeState::V) -> SomeState::V;

    /// The index that the change touches.
    spec fn index_in(&self, state: SomeState::V) -> Index;

    fn apply_to(&self, state: &mut SomeState) -> (idx: Index)
        requires
            <Self as ApplyTo<SomeState, Index>>::applies_to(self, old(state)@),
        ensures
            final(state)@ == <Self as ApplyTo<SomeState, Index>>::applied_to(self, old(state)@),
            idx == <Self as ApplyTo<SomeState, Index>>::index_in(self, old(state)@),
    ;
}

/// A state that can take in a change of one kind.
pub trait Apply<Change, Index>: View + Sized {
    /// Whether `state` can take in `change`.
    spec fn accepts(state: Self::V, change: Change) -> bool;

    /// The state after it took in `change`.
    spec fn changed_by(state: Self::V, change: Change) -> Self::V;

    /// The index that `change` touches in `state`.
    spec fn index_of(state: Self::V, change: Change) -> Index;

    fn apply(&mut self, change: &Change) -> (idx: Index)
        requires
            <Self as Apply<Change, Index>>::accepts(old(self)@, *change),
        ensures
            final(self)@ == <Self as Apply<Change, Index>>::changed_by(old(self)@, *change),
            idx == <Self as Apply<Change, Index>>::index_of(old(self)@, *change),
    ;
}

/// Whatever a state can take in is a change to that state.
impl<S, I, C> ApplyTo<S, I> for C where S: Apply<C, I>, C: Debug {
    open spec fn applies_to(&self, state: S::V) -> bool {
        <S as Apply<C, I>>::accepts(state, *self)
    }

    open spec fn applied_to(&self, state: S::V) -> S::V {
        <S as Apply<C, I>>::changed_by(state, *self)
    }

    open spec fn index_in(&self, state: S::V) -> I {
        <S as Apply<C, I>>::index_of(state, *self)
    }

    fn apply_to(&self, state: &mut S) -> (idx: I) {
        state.apply(self)
    }
}

/// The changes made to a state, oldest first.
#[derive(Debug)]
pub struct ChangeList<SomeState: Clone, Index, Change> {
    changes: Vec<Change>,
    state: PhantomData<(SomeState, Index)>,
}

impl<SomeState: Clone, Index, Change> View for ChangeList<SomeState, Index, Change> {
    type V = Seq<Change>;

    /// The changes, oldest first.
    closed spec fn view(&self) -> Seq<Change> {
        self.changes@
    }
}

impl<SomeState: View + Clone, Index, Change: ApplyTo<SomeState, Index>> ChangeList<
    SomeState,
    Index,
    Change,
> {
    /// Whether `changes` can be carried out on `state` one after the other:
    /// each of them applies to what those before it left behind.
    pub open spec fn replayable(changes: Seq<Change>, state: SomeState::V) -> bool
        decreases changes.len(),
    {
        changes.len() > 0 ==> {
            &&& Self::replayable(changes.drop_last(), state)
            &&& changes.last().applies_to(Self::replay(changes.drop_last(), state))
        }
    }

    /// The state that `changes`, carried out in order on `state`, leave
    /// behind.
    pub open spec fn replay(changes: Seq<Change>, state: SomeState::V) -> SomeState::V
        decreases changes.len(),
    {
        if changes.len() == 0 {
            state
        } else {
            changes.last().applied_to(Self::replay(changes.drop_last(), state))
        }
    }

    /// The indices that `changes`, carried out in order on `state`, touch.
    pub open spec fn touched(changes: Seq<Change>, state: SomeState::V) -> Seq<Index>
        decreases changes.len(),
    {
        if changes.len() == 0 {
            Seq::empty()
        } else {
            Self::touched(changes.drop_last(), state).push(
                changes.last().index_in(Self::replay(changes.drop_last(), state)),
            )
        }
    }

    /// An empty list.
    pub fn new() -> (list: Self)
        ensures
            list@ == Seq::<Change>::empty(),
    {
        Self { changes: Vec::new(), state: PhantomData }
    }

    /// The number of changes in the list.
    pub fn len(&self) -> (n: usize)
        ensures
            n == self@.len(),
    {
        self.changes.len()
    }

    /// The change at position `at`, counted from the oldest, if the list
    /// is that long.
    pub fn get(&self, at: usize) -> (change: Option<&Change>)
        ensures
            at < self@.len() ==> change == Some(&self@[at as int]),
            at >= self@.len() ==> change is None,
    {
        if at < self.changes.len() {
            Some(&self.changes[at])
        } else {
            None
        }
    }

    /// Puts `change` at the tail of the list.
    pub fn push(&mut self, change: Change)
        ensures
            final(self)@ == old(self)@.push(change),
    {
        self.changes.push(change)
    }

    /// Moves the change at the tail of this list to the tail of `other`.
    /// An empty list gives nothing, and `other` stays as it is.
    pub fn pop_into(&mut self, other: &mut ChangeList<SomeState, Index, Change>)
        ensures
            old(self)@.len() == 0 ==> final(self)@ == old(self)@ && final(other)@ == old(other)@,
            old(self)@.len() > 0 ==> final(self)@ == old(self)@.drop_last() && final(other)@
                == old(other)@.push(old(self)@.last()),
    {
        if let Some(change) = self.changes.pop() {
            other.changes.push(change)
        }
    }

    /// Carries out every change of the list on `state`, oldest first, and
    /// returns the indices touched, in that order.
    pub fn apply_all(&self, state: &mut SomeState) -> (res: Vec<Index>)
        requires
            Self::replayable(self@, old(state)@),
        ensures
            final(state)@ == Self::replay(self@, old(state)@),
            res@ == Self::touched(self@, old(state)@),
    {
        assert(self@.subrange(0, self@.len() as int) == self@);
        self.apply_all_from(state, 0)
    }

    /// Carries out the changes from position `start` on, oldest first, and
    /// returns the indices touched, in that order.
    pub fn apply_all_from(&self, state: &mut SomeState, start: usize) -> (res: Vec<Index>)
        requires
            start <= self@.len(),
            Self::replayable(self@.subrange(start as int, self@.len() as int), old(state)@),
        ensures
            final(state)@ == Self::replay(
                self@.subrange(start as int, self@.len() as int),
                old(state)@,
            ),
            res@ == Self::touched(self@.subrange(start as int, self@.len() as int), old(state)@),
    {
        let ghost before = state@;
        let ghost todo = self@.subrange(start as int, self@.len() as int);
        let mut res = Vec::new();
        let mut i: usize = start;
        while i < self.changes.len()
            invariant
                start <= i <= self@.len(),
                self@ == self.changes@,
                todo == self@.subrange(start as int, self@.len() as int),
                Self::replayable(todo, before),
                state@ == Self::replay(todo.take(i - start), before),
                res@ == Self::touched(todo.take(i - start), before),
            decreases self@.len() - i,
        {
            proof {
                Self::lemma_replayable_prefix(todo, before, i - start + 1);
                assert(todo.take(i - start + 1).drop_last() == todo.take(i - start));
                assert(todo.take(i - start + 1).last() == self@[i as int]);
            }
            let idx = self.changes[i].apply_to(state);
            res.push(idx);
            i += 1;
        }
        assert(todo.take(i - start) == todo);
        res
    }

    /// A change that enters the list is carried out after all the others:
    /// replaying the longer list gives what the change makes of the replay
    /// of the shorter one, and touches one index more.
    pub proof fn lemma_replay_push(changes: Seq<Change>, change: Change, state: SomeState::V)
        ensures
            Self::replay(changes.push(change), state) == change.applied_to(
                Self::replay(changes, state),
            ),
            Self::touched(changes.push(change), state) == Self::touched(changes, state).push(
                change.index_in(Self::replay(changes, state)),
            ),
            Self::replayable(changes.push(change), state) <==> Self::replayable(changes, state)
                && change.applies_to(Self::replay(changes, state)),
    {
        assert(changes.push(change).drop_last() == changes);
    }

    /// A replay can stop anywhere and go on from there: the changes from
    /// position `n` on, carried out on what the first `n` left behind, give
    /// what the whole list gives, and touch the rest of its indices.
    pub proof fn lemma_replay_split(changes: Seq<Change>, state: SomeState::V, n: int)
        requires
            0 <= n <= changes.len(),
        ensures
            Self::replay(changes, state) == Self::replay(
                changes.skip(n),
                Self::replay(changes.take(n), state),
            ),
            Self::touched(changes, state) == Self::touched(changes.take(n), state)
                + Self::touched(changes.skip(n), Self::replay(changes.take(n), state)),
            Self::replayable(changes, state) <==> Self::replayable(changes.take(n), state)
                && Self::replayable(changes.skip(n), Self::replay(changes.take(n), state)),
        decreases changes.len(),
    {
        if n == changes.len() {
            assert(changes.take(n) == changes);
            assert(changes.skip(n) == Seq::<Change>::empty());
            assert(Self::touched(changes, state) + Seq::<Index>::empty() == Self::touched(
                changes,
                state,
            ));
        } else {
            let front = changes.drop_last();
            Self::lemma_replay_split(front, state, n);
            assert(front.take(n) == changes.take(n));
            assert(front.skip(n) == changes.skip(n).drop_last());
            assert(changes.skip(n).last() == changes.last());
            let middle = Self::replay(changes.take(n), state);
            assert(Self::touched(changes, state) == Self::touched(changes.take(n), state)
                + Self::touched(changes.skip(n), middle)) by {
                let last = changes.last().index_in(Self::replay(front, state));
                assert((Self::touched(front.take(n), state) + Self::touched(
                    front.skip(n),
                    middle,
                )).push(last) == Self::touched(front.take(n), state) + Self::touched(
                    front.skip(n),
                    middle,
                ).push(last));
            }
        }
    }

    /// Undo and redo: when the last change of a list has moved to another
    /// list, the first list replays to the state before that change, and
    /// the change, now the last of the other list, carried out on that
    /// state brings back the state from before the move.
    pub proof fn lemma_moved_change_redoes(
        from: Seq<Change>,
        to: Seq<Change>,
        state: SomeState::V,
    )
        requires
            from.len() > 0,
        ensures
            to.push(from.last()).last().applied_to(Self::replay(from.drop_last(), state))
                == Self::replay(from, state),
            Self::replayable(from, state) ==> Self::replayable(from.drop_last(), state)
                && to.push(from.last()).last().applies_to(Self::replay(from.drop_last(), state)),
    {
    }

    /// Where a list can be replayed, so can each of its beginnings.
    pub proof fn lemma_replayable_prefix(changes: Seq<Change>, state: SomeState::V, n: int)
        requires
            Self::replayable(changes, state),
            0 <= n <= changes.len(),
        ensures
            Self::replayable(changes.take(n), state),
        decreases changes.len(),
    {
        if n == changes.len() {
            assert(changes.take(n) == changes);
        } else {
            Self::lemma_replayable_prefix(changes.drop_last(), state, n);
            assert(changes.drop_last().take(n) == changes.take(n));
        }
    }
}

/// What a list of strings holds, by position.
pub open spec fn by_position(list: Seq<String>) -> Map<usize, String> {
    Map::new(|i: usize| i < list.len(), |i: usize| list[i as int])
}

/// A list of strings is the plainest state there is: a new value goes to
/// the end, and its index is its position.
impl AddNew<String, usize> for Vec<String> {
    open spec fn held(&self) -> Map<usize, String> {
        by_position(self@)
    }

    open spec fn next_index(&self) -> usize {
        self@.len() as usize
    }

    open spec fn has_room(&self) -> bool {
        true
    }

    fn add_new(&mut self, value: String) -> (idx: usize)
        ensures
            final(self)@ == old(self)@.push(value),
    {
        self.push(value);
        let len = self.len();
        assert(by_position(self@) =~= by_position(old(self)@).insert(
            old(self)@.len() as usize,
            value,
        ));
        len - 1
    }
}

impl Get<String, usize> for Vec<String> {
    open spec fn found(&self, key: usize) -> Option<String> {
        if key < self@.len() {
            Some(self@[key as int])
        } else {
            None
        }
    }

    fn get(&self, key: &usize) -> (r: Option<&String>) {
        if *key < self.len() {
            Some(&self[*key])
        } else {
            None
        }
    }
}

/// A string, as a change to a list of strings, adds itself at the end.
impl ApplyTo<Vec<String>, usize> for String {
    open spec fn applies_to(&self, state: Seq<String>) -> bool {
        true
    }

    open spec fn applied_to(&self, state: Seq<String>) -> Seq<String> {
        state.push(*self)
    }

    open spec fn index_in(&self, state: Seq<String>) -> usize {
        state.len() as usize
    }

    fn apply_to(&self, state: &mut Vec<String>) -> (idx: usize) {
        state.push(self.clone());
        state.len() - 1
    }
}

/// A position and a string, as a change to a list of strings, put the
/// string in place of the one at that position, which has to exist.
impl ApplyTo<Vec<String>, usize> for (usize, String) {
    open spec fn applies_to(&self, state: Seq<String>) -> bool {
        self.0 < state.len()
    }

    open spec fn applied_to(&self, state: Seq<String>) -> Seq<String> {
        state.update(self.0 as int, self.1)
    }

    open spec fn index_in(&self, state: Seq<String>) -> usize {
        self.0
    }

    fn apply_to(&self, state: &mut Vec<String>) -> (idx: usize) {
        state[self.0] = self.1.clone();
        self.0
    }
}

} // verus!
