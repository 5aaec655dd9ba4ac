use vstd::prelude::*;

verus! {

/// The entrants of a tournament, in seeding order.
pub struct Entrants<T> {
    pub entrants: Vec<T>,
}

impl<T> Entrants<T> {
    pub open spec fn view(&self) -> Seq<T> {
        self.entrants@
    }

    pub fn new() -> (r: Entrants<T>)
        ensures
            r.view() == Seq::<T>::empty(),
    {
        Entrants { entrants: Vec::new() }
    }

    pub fn from_vec(entrants: Vec<T>) -> (r: Entrants<T>)
        ensures
            r.view() == entrants@,
    {
        Entrants { entrants }
    }

    pub fn len(&self) -> (r: usize)
        ensures
            r == self.view().len(),
    {
        self.entrants.len()
    }

    pub fn is_empty(&self) -> (r: bool)
        ensures
            r == (self.view().len() == 0),
    {
        self.entrants.len() == 0
    }

    /// Adds an entrant after the others.
    pub fn push(&mut self, entrant: T)
        ensures
            final(self).view() == old(self).view().push(entrant),
    {
        self.entrants.push(entrant);
    }

    /// Adds entrants after the others, in the order given.
    pub fn extend(&mut self, entrants: Vec<T>)
        ensures
            final(self).view() == old(self).view() + entrants@,
    {
        let mut more = entrants;
        self.entrants.append(&mut more);
    }

    pub fn into_vec(self) -> (r: Vec<T>)
        ensures
            r@ == self.view(),
    {
        self.entrants
    }
}

} // verus!
