//! A thin growable-sequence wrapper used by the builder for its stacks.

use vstd::prelude::*;

verus! {

/// A growable stack of values; the builder keeps its expression and
/// merge-block stacks in one of these.
pub struct VecCell<T>(Vec<T>);

impl<T> VecCell<T> {
    /// The held values, bottom of the stack first.
    pub closed spec fn view(self) -> Seq<T> {
        self.0@
    }

    /// An empty cell.
    pub fn new() -> (r: Self)
        ensures
            r@ =~= Seq::<T>::empty(),
    {
        VecCell(Vec::new())
    }

    /// An empty cell with room already reserved.
    pub fn with_capacity(capacity: usize) -> (r: Self)
        ensures
            r@ =~= Seq::<T>::empty(),
    {
        VecCell(Vec::with_capacity(capacity))
    }

    /// Exclusive access to the underlying storage.
    pub fn get_mut(&mut self) -> (r: &mut Vec<T>)
        ensures
            r@ == old(self)@,
            final(self)@ == final(r)@,
    {
        &mut self.0
    }

    /// Pushes a value on top.
    pub fn push(&mut self, element: T)
        ensures
            final(self)@ == old(self)@.push(element),
    {
        self.0.push(element);
    }

    /// Removes and returns the top value, if any.
    pub fn pop(&mut self) -> (r: Option<T>)
        ensures
            old(self)@.len() == 0 ==> r is None && final(self)@ == old(self)@,
            old(self)@.len() > 0 ==> {
                &&& r == Some(old(self)@.last())
                &&& final(self)@ == old(self)@.drop_last()
            },
    {
        self.0.pop()
    }

    /// Inserts a value at `index`, shifting later values up.
    pub fn insert(&mut self, index: usize, element: T)
        requires
            index <= old(self)@.len(),
        ensures
            final(self)@ == old(self)@.insert(index as int, element),
    {
        self.0.insert(index, element);
    }

    /// Removes and returns the value at `index`, shifting later values down.
    pub fn remove(&mut self, index: usize) -> (r: T)
        requires
            index < old(self)@.len(),
        ensures
            r == old(self)@[index as int],
            final(self)@ == old(self)@.remove(index as int),
    {
        self.0.remove(index)
    }

    /// Removes the value at `index` by swapping the last value into its place.
    pub fn swap_remove(&mut self, index: usize) -> (r: T)
        requires
            index < old(self)@.len(),
        ensures
            r == old(self)@[index as int],
            final(self)@ == old(self)@.update(index as int, old(self)@.last()).drop_last(),
    {
        self.0.swap_remove(index)
    }

    /// Reserves room for at least `additional` more values; the held values
    /// stay as they are.
    pub fn reserve(&mut self, additional: usize)
        ensures
            final(self)@ == old(self)@,
    {
        self.0.reserve(additional);
    }

    /// Discards every held value.
    pub fn clear(&mut self)
        ensures
            final(self)@ =~= Seq::<T>::empty(),
    {
        self.0.clear();
    }

    /// How many values are held.
    pub fn len(&self) -> (r: usize)
        ensures
            r == self@.len(),
    {
        self.0.len()
    }

    /// Gives up the wrapper, yielding the underlying storage.
    pub fn into_inner(self) -> (r: Vec<T>)
        ensures
            r@ == self@,
    {
        self.0
    }
}

impl<T> From<Vec<T>> for VecCell<T> {
    fn from(value: Vec<T>) -> (r: Self) {
        VecCell(value)
    }
}

impl<T> vstd::std_specs::convert::FromSpecImpl<Vec<T>> for VecCell<T> {
    open spec fn obeys_from_spec() -> bool {
        true
    }

    closed spec fn from_spec(value: Vec<T>) -> Self {
        VecCell(value)
    }
}

impl<T> Default for VecCell<T> {
    fn default() -> (r: Self)
        ensures
            r@ =~= Seq::<T>::empty(),
    {
        VecCell(Vec::new())
    }
}

} // verus!
