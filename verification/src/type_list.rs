//! Lists of resource types, built one type at a time.

use std::marker::PhantomData;
use vstd::prelude::*;

verus! {

/// A resource type that the panel can show, known by its name.
pub trait ResourceName {
    /// The name of the resource; it identifies the resource in the panel.
    const NAME: &'static str;
}

/// The empty list of resource types.
#[derive(Clone, Copy, Debug, Default)]
pub struct Nil;

/// The list `rest` with the resource type `T` added at its end.
#[derive(Debug, Default)]
pub struct Cons<T, R> {
    pub t: PhantomData<T>,
    pub rest: R,
}

impl<T, R: Clone> Clone for Cons<T, R> {
    /// The same list: the clone's rest is a clone of this list's rest.
    fn clone(&self) -> (r: Self)
        ensures
            cloned::<R>(self.rest, r.rest),
    {
        Cons { t: PhantomData, rest: self.rest.clone() }
    }
}

/// A list of resource types.
pub trait HList: Sized {
    /// The names of the types in the list, in the order they were added.
    spec fn spec_names(&self) -> Seq<Seq<char>>;

    /// The list with the resource type `T` added at its end.
    fn push<T: ResourceName>(self) -> (r: Cons<T, Self>)
        ensures
            r.rest == self,
    {
        Cons { t: PhantomData, rest: self }
    }

    /// The names of the types in the list, in the order they were added.
    fn names(&self) -> (r: Vec<&'static str>)
        ensures
            r@.map_values(|s: &'static str| s@) == self.spec_names(),
    ;
}

impl HList for Nil {
    open spec fn spec_names(&self) -> Seq<Seq<char>> {
        Seq::empty()
    }

    fn names(&self) -> (r: Vec<&'static str>) {
        let r: Vec<&'static str> = Vec::new();
        assert(r@.map_values(|s: &'static str| s@) =~= Seq::<Seq<char>>::empty());
        r
    }
}

impl<T: ResourceName, R: HList> HList for Cons<T, R> {
    open spec fn spec_names(&self) -> Seq<Seq<char>> {
        self.rest.spec_names().push(T::NAME@)
    }

    fn names(&self) -> (r: Vec<&'static str>) {
        let mut n = self.rest.names();
        n.push(T::NAME);
        assert(n@.map_values(|s: &'static str| s@) =~= self.rest.spec_names().push(T::NAME@));
        n
    }
}

/// Adding a type to a list adds its name after the names already there.
pub proof fn lemma_push_names<T: ResourceName, L: HList>(l: L, r: Cons<T, L>)
    requires
        r.rest == l,
    ensures
        r.spec_names() == l.spec_names().push(T::NAME@),
        r.spec_names().len() == l.spec_names().len() + 1,
{
}

} // verus!
