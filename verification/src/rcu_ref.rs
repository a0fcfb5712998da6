//! Snapshots: a handle that keeps a payload alive and shows a part of it.
use vstd::prelude::*;
use std::marker::PhantomData;
use std::ops::Deref;
use std::sync::Arc;
use crate::publication::compared;
use crate::publication::share_allocation;

verus! {

/// A way from a value to a part of it that is always there, such as a field.
pub trait Projection<M, N> {
    /// The part that the projection shows of `from`.
    spec fn image(&self, from: M) -> N;

    /// Borrows the part from the whole.
    fn project<'a>(&self, from: &'a M) -> (part: &'a N)
        ensures
            *part == self.image(*from),
    ;
}

/// A way from a value to a part of it that may be missing, such as the
/// content of an option.
pub trait PartialProjection<M, N> {
    /// The part that the projection shows of `from`, if it is there.
    spec fn try_image(&self, from: M) -> Option<N>;

    /// Borrows the part from the whole, if it is there.
    fn try_project<'a>(&self, from: &'a M) -> (part: Option<&'a N>)
        ensures
            match part {
                Some(part) => self.try_image(*from) == Some(*part),
                None => self.try_image(*from) is None,
            },
    ;
}

/// The projection of a value to the whole of itself.
pub struct Whole;

impl<T> Projection<T, T> for Whole {
    open spec fn image(&self, from: T) -> T {
        from
    }

    fn project<'a>(&self, from: &'a T) -> (part: &'a T) {
        from
    }
}

impl<T> PartialProjection<T, T> for Whole {
    open spec fn try_image(&self, from: T) -> Option<T> {
        Some(from)
    }

    fn try_project<'a>(&self, from: &'a T) -> (part: Option<&'a T>) {
        Some(from)
    }
}

/// A projection whose part is always there, taken as one whose part may be
/// missing.
pub struct Total<F>(pub F);

impl<M, N, F: Projection<M, N>> PartialProjection<M, N> for Total<F> {
    open spec fn try_image(&self, from: M) -> Option<N> {
        Some(self.0.image(from))
    }

    fn try_project<'a>(&self, from: &'a M) -> (part: Option<&'a N>) {
        Some(self.0.project(from))
    }
}

/// Two projections in a row: from the whole to a part by `first`, which may
/// be shared, and from that part to a part of it by `second`.
pub struct Then<P, Q, M> {
    pub first: Arc<P>,
    pub second: Q,
    pub via: PhantomData<M>,
}

impl<T, M: 'static, N, P: PartialProjection<T, M>, Q: PartialProjection<M, N>> PartialProjection<
    T,
    N,
> for Then<P, Q, M> {
    open spec fn try_image(&self, from: T) -> Option<N> {
        match self.first.try_image(from) {
            Some(middle) => self.second.try_image(middle),
            None => None,
        }
    }

    fn try_project<'a>(&self, from: &'a T) -> (part: Option<&'a N>) {
        match self.first.try_project(from) {
            Some(middle) => self.second.try_project(middle),
            None => None,
        }
    }
}

/// Whether two references point to the same place, by `std::ptr::eq`. What
/// lies at one place is one value, unless the type takes no room: values of
/// such a type may share a place. Equal values may lie at different places.
#[verifier::external_body]
fn same_place<M>(left: &M, right: &M) -> (same: bool)
    ensures
        same && vstd::layout::size_of::<M>() > 0 ==> *left == *right,
{
    std::ptr::eq(left, right)
}

/// Whether two references hold the same address, by `std::ptr::addr_eq`. What
/// lies at one address, read at one type, is one value, unless the type takes
/// no room.
#[verifier::external_body]
fn same_address<M>(left: &M, right: &M) -> (same: bool)
    ensures
        same && vstd::layout::size_of::<M>() > 0 ==> *left == *right,
{
    std::ptr::addr_eq(left, right)
}

/// `std::ptr::eq` said `same` of references to the two parts.
pub closed spec fn placed<M>(left: M, right: M, same: bool) -> bool {
    call_ensures(same_place::<M>, (&left, &right), same)
}

/// `std::ptr::addr_eq` said `same` of references to the two parts.
pub closed spec fn addressed<M>(left: M, right: M, same: bool) -> bool {
    call_ensures(same_address::<M>, (&left, &right), same)
}

/// A snapshot of a slot: a strong handle to the payload that was read, the
/// root, and the way from the root to the part that the snapshot shows.
///
/// The handle keeps the root alive for as long as the snapshot lives, whatever
/// becomes of the slot, and the part is always there to be borrowed.
#[verifier::reject_recursive_types(T)]
#[verifier::reject_recursive_types(M)]
pub struct RcuRef<T, M, P: PartialProjection<T, M>> {
    arc: Arc<T>,
    path: Arc<P>,
    part: PhantomData<M>,
}

impl<T> RcuRef<T, T, Whole> {
    /// A snapshot that shows the whole of the payload.
    pub fn new(arc: Arc<T>) -> (snapshot: Self)
        ensures
            snapshot.root_handle() == arc,
            snapshot.root() == *arc,
            snapshot.target() == *arc,
    {
        RcuRef { arc, path: Arc::new(Whole), part: PhantomData }
    }
}

impl<T, M, P: PartialProjection<T, M>> RcuRef<T, M, P> {
    #[verifier::type_invariant]
    spec fn part_is_there(self) -> bool {
        self.path.try_image(*self.arc) is Some
    }

    /// The strong handle by which the snapshot keeps its root alive.
    pub closed spec fn root_handle(&self) -> Arc<T> {
        self.arc
    }

    /// The payload that the snapshot keeps alive: the one behind its root
    /// handle.
    pub open spec fn root(&self) -> T {
        *self.root_handle()
    }

    /// The way from the root to the part that the snapshot shows.
    pub closed spec fn path(&self) -> P {
        *self.path
    }

    /// The part of the root that the snapshot shows.
    pub open spec fn target(&self) -> M {
        self.path().try_image(self.root())->0
    }

    /// Borrows the part that the snapshot shows.
    pub fn get(this: &Self) -> (part: &M)
        ensures
            *part == this.target(),
    {
        proof {
            use_type_invariant(this);
        }
        match this.path.try_project(&this.arc) {
            Some(part) => part,
            None => vstd::pervasive::unreached(),
        }
    }

    /// Narrows the snapshot to the part that `f` shows of its present part.
    /// The root stays the same.
    pub fn map<N, F: Projection<M, N>>(reference: Self, f: F) -> (mapped: RcuRef<
        T,
        N,
        Then<P, Total<F>, M>,
    >) where M: 'static
        ensures
            mapped.root_handle() == reference.root_handle(),
            mapped.root() == reference.root(),
            mapped.target() == f.image(reference.target()),
    {
        proof {
            use_type_invariant(&reference);
        }
        let path = Then { first: reference.path, second: Total(f), via: PhantomData };
        RcuRef { arc: reference.arc, path: Arc::new(path), part: PhantomData }
    }

    /// Narrows the snapshot to the part that `f` shows of its present part, if
    /// that part is there; gives the snapshot up otherwise.
    pub fn try_map<N, F: PartialProjection<M, N>>(reference: Self, f: F) -> (mapped: Option<
        RcuRef<T, N, Then<P, F, M>>,
    >) where M: 'static
        ensures
            match mapped {
                Some(mapped) => {
                    &&& mapped.root_handle() == reference.root_handle()
                    &&& mapped.root() == reference.root()
                    &&& f.try_image(reference.target()) == Some(mapped.target())
                },
                None => f.try_image(reference.target()) is None,
            },
    {
        proof {
            use_type_invariant(&reference);
        }
        let there = f.try_project(Self::get(&reference)).is_some();
        if there {
            let path = Then { first: reference.path, second: f, via: PhantomData };
            Some(RcuRef { arc: reference.arc, path: Arc::new(path), part: PhantomData })
        } else {
            None
        }
    }

    /// Whether both snapshots keep the same payload alive: what
    /// `Arc::ptr_eq` says of their two root handles. It says so only of
    /// snapshots of one root.
    pub fn same_epoch<M2, Q: PartialProjection<T, M2>>(
        this: &Self,
        other: &RcuRef<T, M2, Q>,
    ) -> (same: bool)
        ensures
            compared(this.root_handle(), other.root_handle(), same),
            same ==> this.root() == other.root(),
    {
        share_allocation(&this.arc, &other.arc)
    }

    /// Whether both snapshots show the same place: what `std::ptr::eq` says
    /// of references to their two parts. Parts at one place are one part,
    /// unless their type takes no room.
    pub fn ptr_eq<Q: PartialProjection<T, M>>(this: &Self, other: &RcuRef<T, M, Q>) -> (same: bool)
        ensures
            placed(this.target(), other.target(), same),
            same && vstd::layout::size_of::<M>() > 0 ==> this.target() == other.target(),
    {
        same_place(Self::get(this), RcuRef::<T, M, Q>::get(other))
    }

    /// Whether both snapshots show the same address: what
    /// `std::ptr::addr_eq` says of references to their two parts. Parts at
    /// one address are one part, unless their type takes no room.
    pub fn ptr_addr_eq<Q: PartialProjection<T, M>>(this: &Self, other: &RcuRef<T, M, Q>) -> (same:
        bool)
        ensures
            addressed(this.target(), other.target(), same),
            same && vstd::layout::size_of::<M>() > 0 ==> this.target() == other.target(),
    {
        same_address(Self::get(this), RcuRef::<T, M, Q>::get(other))
    }

    /// Another snapshot of the same root that shows the same part.
    pub fn clone(this: &Self) -> (copy: Self)
        ensures
            copy.root_handle() == this.root_handle(),
            copy.root() == this.root(),
            copy.path() == this.path(),
            copy.target() == this.target(),
    {
        proof {
            use_type_invariant(this);
        }
        RcuRef { arc: this.arc.clone(), path: this.path.clone(), part: PhantomData }
    }

    /// Borrows the root: the payload as it was read from the slot, before any
    /// narrowing.
    pub fn get_root(this: &Self) -> (root: &T)
        ensures
            *root == this.root(),
            *root == *this.root_handle(),
    {
        &*this.arc
    }
}

impl<T, M, P: PartialProjection<T, M>> Deref for RcuRef<T, M, P> {
    type Target = M;

    fn deref(&self) -> (part: &M)
        ensures
            *part == self.target(),
    {
        Self::get(self)
    }
}

} // verus!
