//! A tiny two-tuple list: any number of values, each of its own type,
//! nested pair in pair.
use std::any::Any;
use std::fmt::Debug;
use std::marker::PhantomData;
use std::ops::Add;
use vstd::prelude::*;
use vstd::std_specs::ops::{AddSpec, AddSpecImpl};

verus! {

/// What every list can do.
pub trait HList: Sized + Debug + Eq {
    /// The number of values in the list.
    spec fn spec_len(&self) -> nat;

    /// A list knows its length (and says `usize::MAX`, should it ever be
    /// longer than that).
    fn len(&self) -> (n: usize)
        ensures
            n == if self.spec_len() <= usize::MAX {
                self.spec_len()
            } else {
                usize::MAX as nat
            },
    ;

    /// A list can take one more value in front.
    fn prepend<H: Sized>(self, h: H) -> (list: Ttuple<H, Self>)
        ensures
            list == Ttuple(h, self),
    {
        Ttuple(h, self)
    }
}

/// Nil marks the end of a list.
#[derive(Clone, Copy, Debug, Eq, Hash, Ord, PartialEq, PartialOrd)]
pub struct Nil();

impl HList for Nil {
    open spec fn spec_len(&self) -> nat {
        0
    }

    fn len(&self) -> (n: usize) {
        0
    }
}

/// All lists are built of nested `Ttuple`s: a first value, and the list of
/// the others.
#[derive(Clone, Copy, Debug, Eq, Hash, Ord, PartialEq, PartialOrd)]
pub struct Ttuple<H: Sized, T = Nil>(pub H, pub T);

impl<H: Sized> Ttuple<H> {
    /// The list of one value.
    pub fn new(head: H) -> (list: Self)
        ensures
            list == Ttuple(head, Nil()),
    {
        Ttuple(head, Nil())
    }
}

impl<H: Sized + Debug + Eq, T: HList> HList for Ttuple<H, T> {
    open spec fn spec_len(&self) -> nat {
        1 + self.1.spec_len()
    }

    fn len(&self) -> (n: usize) {
        match self.1.len().checked_add(1) {
            Some(n) => n,
            None => usize::MAX,
        }
    }
}

/// Says that the value asked for is the first of the list.
pub struct Here {
    _priv: (),
}

/// Says that the value asked for is among the others, at `T`.
pub struct There<T> {
    _priv: PhantomData<T>,
}

/// Borrow the value of a given type from a list. `Index` says where in the
/// list the value is; it is found from the types alone.
pub trait Get<Select, Index>: Sized {
    /// The value that is borrowed.
    spec fn selected(&self) -> Select;

    /// The list with `value` in the place of the borrowed one.
    spec fn replaced(&self, value: Select) -> Self;

    fn get(&self) -> (r: &Select)
        ensures
            *r == <Self as Get<Select, Index>>::selected(self),
    ;

    fn get_mut(&mut self) -> (r: &mut Select)
        ensures
            *r == <Self as Get<Select, Index>>::selected(old(self)),
            *final(self) == <Self as Get<Select, Index>>::replaced(old(self), *final(r)),
    ;
}

impl<FromHead: Sized, Tail> Get<FromHead, Here> for Ttuple<FromHead, Tail> {
    open spec fn selected(&self) -> FromHead {
        self.0
    }

    open spec fn replaced(&self, value: FromHead) -> Self {
        Ttuple(value, self.1)
    }

    fn get(&self) -> (r: &FromHead) {
        &self.0
    }

    fn get_mut(&mut self) -> (r: &mut FromHead) {
        &mut self.0
    }
}

impl<Head, Tail, FromTail, Index> Get<FromTail, There<Index>> for Ttuple<Head, Tail> where
    Head: Sized,
    Tail: Get<FromTail, Index>,
 {
    open spec fn selected(&self) -> FromTail {
        <Tail as Get<FromTail, Index>>::selected(&self.1)
    }

    open spec fn replaced(&self, value: FromTail) -> Self {
        Ttuple(self.0, <Tail as Get<FromTail, Index>>::replaced(&self.1, value))
    }

    fn get(&self) -> (r: &FromTail) {
        self.1.get()
    }

    fn get_mut(&mut self) -> (r: &mut FromTail) {
        self.1.get_mut()
    }
}

/// Borrow the first value of a given type from a list, if the list has a
/// value of that type at all.
pub trait GetSome<Select>: Sized {
    /// Whether `found` is what a lookup in this list gives.
    spec fn gives(&self, found: Option<&Select>) -> bool;

    /// Whether `found` is what a lookup to write gives in the list
    /// `before`, where the list is `after` once the borrow has ended.
    spec fn gives_mut(before: Self, after: Self, found: Option<&mut Select>) -> bool;

    fn get_some(&self) -> (r: Option<&Select>)
        ensures
            <Self as GetSome<Select>>::gives(self, r),
    ;

    fn get_some_mut(&mut self) -> (r: Option<&mut Select>)
        ensures
            <Self as GetSome<Select>>::gives_mut(*old(self), *final(self), r),
    ;
}

/// The empty list has nothing of any type, and stays as it is.
impl<Nonexistant> GetSome<Nonexistant> for Nil {
    open spec fn gives(&self, found: Option<&Nonexistant>) -> bool {
        found is None
    }

    open spec fn gives_mut(before: Self, after: Self, found: Option<&mut Nonexistant>) -> bool {
        found is None && after == before
    }

    fn get_some(&self) -> (r: Option<&Nonexistant>) {
        None
    }

    fn get_some_mut(&mut self) -> (r: Option<&mut Nonexistant>) {
        None
    }
}

/// `head` as a value of type `Select`, where that is its type: the answer
/// of `downcast_ref` of `std::any::Any`. Nothing is claimed of the answer.
#[verifier::external_body]
fn head_as<Head: 'static, Select: 'static>(head: &Head) -> (r: Option<&Select>) {
    (head as &dyn Any).downcast_ref::<Select>()
}

/// `head` as a value of type `Select` that can be written to, where that
/// is its type: the answer of `downcast_mut` of `std::any::Any`. Nothing is
/// claimed of the answer.
#[verifier::external_body]
fn head_as_mut<Head: 'static, Select: 'static>(head: &mut Head) -> (r: Option<&mut Select>) {
    (head as &mut dyn Any).downcast_mut::<Select>()
}

/// Whether `found` is what `downcast_ref` answered when `head` was asked
/// for a value of type `Select`.
pub closed spec fn head_answers<Head: 'static, Select: 'static>(
    head: &Head,
    found: Option<&Select>,
) -> bool {
    call_ensures(head_as::<Head, Select>, (head,), found)
}

/// Whether `found` is what `downcast_mut` answered when a first value that
/// was `before` was asked for a value of type `Select` to write to.
pub closed spec fn head_answers_mut<Head: 'static, Select: 'static>(
    before: Head,
    found: Option<&mut Select>,
) -> bool {
    exists|head: &mut Head|
        #![trigger call_ensures(head_as_mut::<Head, Select>, (head,), found)]
        mut_ref_current(head) == before && call_ensures(
            head_as_mut::<Head, Select>,
            (head,),
            found,
        )
}

impl<Select, Head, Tail> GetSome<Select> for Ttuple<Head, Tail> where
    Select: 'static,
    Head: 'static,
    Tail: HList + GetSome<Select>,
 {
    /// What the first value answers where that is a value, else what the
    /// others give.
    open spec fn gives(&self, found: Option<&Select>) -> bool {
        exists|first: Option<&Select>|
            #![trigger head_answers(&self.0, first)]
            head_answers(&self.0, first) && match first {
                Some(selected) => found == Some(selected),
                None => <Tail as GetSome<Select>>::gives(&self.1, found),
            }
    }

    /// What the first value answers where that is a value, and the others
    /// stay as they are; else what the others give.
    open spec fn gives_mut(before: Self, after: Self, found: Option<&mut Select>) -> bool {
        exists|first: Option<&mut Select>|
            #![trigger head_answers_mut(before.0, first)]
            head_answers_mut(before.0, first) && match first {
                Some(selected) => found == Some(selected) && after.1 == before.1,
                None => <Tail as GetSome<Select>>::gives_mut(before.1, after.1, found),
            }
    }

    /// The first value if it is of the type asked for, else what the others
    /// give.
    fn get_some(&self) -> (r: Option<&Select>) {
        let first = head_as::<Head, Select>(&self.0);
        assert(head_answers(&self.0, first));
        match first {
            Some(selected) => Some(selected),
            None => self.1.get_some(),
        }
    }

    /// The first value, to write to, if it is of the type asked for, else
    /// what the others give.
    fn get_some_mut(&mut self) -> (r: Option<&mut Select>) {
        let first = head_as_mut::<Head, Select>(&mut self.0);
        assert(head_answers_mut(old(self).0, first));
        if first.is_some() {
            first
        } else {
            self.1.get_some_mut()
        }
    }
}

/// Take a list apart: its first value, and the list of the others.
pub trait Pop<H, T> {
    spec fn popped(self) -> (H, T);

    fn pop(self) -> (r: (H, T))
        ensures
            r == self.popped(),
    ;
}

impl<H, T: HList> Pop<H, T> for Ttuple<H, T> {
    open spec fn popped(self) -> (H, T) {
        (self.0, self.1)
    }

    fn pop(self) -> (r: (H, T)) {
        (self.0, self.1)
    }
}

/// Look at the first value of a list and leave the list as it is.
pub trait Peek<H> {
    spec fn first(&self) -> H;

    fn peek(&self) -> (r: &H)
        ensures
            *r == self.first(),
    ;
}

impl<H, T> Peek<H> for Ttuple<H, T> {
    open spec fn first(&self) -> H {
        self.0
    }

    fn peek(&self) -> (r: &H) {
        &self.0
    }
}


/// Lists can be joined with `+`: the empty list gives the other list.
impl<RHS> Add<RHS> for Nil where RHS: HList {
    type Output = RHS;

    fn add(self, rhs: RHS) -> (joined: RHS) {
        rhs
    }
}

impl<RHS> AddSpecImpl<RHS> for Nil where RHS: HList {
    open spec fn obeys_add_spec() -> bool {
        true
    }

    open spec fn add_req(self, rhs: RHS) -> bool {
        true
    }

    open spec fn add_spec(self, rhs: RHS) -> RHS {
        rhs
    }
}

/// A list with a first value gives that value, then the others joined with
/// the other list.
impl<H, T, RHS> Add<RHS> for Ttuple<H, T> where T: Add<RHS>, RHS: HList {
    type Output = Ttuple<H, <T as Add<RHS>>::Output>;

    fn add(self, rhs: RHS) -> (joined: Self::Output) {
        Ttuple(self.0, self.1 + rhs)
    }
}

impl<H, T, RHS> AddSpecImpl<RHS> for Ttuple<H, T> where T: Add<RHS>, RHS: HList {
    open spec fn obeys_add_spec() -> bool {
        <T as AddSpec<RHS>>::obeys_add_spec()
    }

    open spec fn add_req(self, rhs: RHS) -> bool {
        self.1.add_req(rhs)
    }

    open spec fn add_spec(self, rhs: RHS) -> Ttuple<H, <T as Add<RHS>>::Output> {
        Ttuple(self.0, self.1.add_spec(rhs))
    }
}

} // verus!
