use vstd::prelude::*;

use crate::column::{models_of, ObjectColumn};
use crate::object_type::ObjectType;

verus! {

/// An append-only builder of an object column, owned by one producer until
/// it is frozen with `to_column`.
pub struct MutableObjectColumn<T: ObjectType> {
    values: Vec<T>,
}

impl<T: ObjectType> View for MutableObjectColumn<T> {
    type V = Seq<T::Model>;

    closed spec fn view(&self) -> Seq<T::Model> {
        models_of(self.values@)
    }
}

impl<T: ObjectType> MutableObjectColumn<T> {
    /// An empty builder with room for `capacity` rows.
    pub fn with_capacity(capacity: usize) -> (r: Self)
        ensures
            r@ == Seq::<T::Model>::empty(),
    {
        let r = MutableObjectColumn { values: Vec::with_capacity(capacity) };
        assert(r@ =~= Seq::<T::Model>::empty());
        r
    }

    /// The number of rows appended so far.
    pub fn len(&self) -> (r: usize)
        ensures
            r == self@.len(),
    {
        self.values.len()
    }

    /// Appends one row.
    pub fn append_value(&mut self, value: T)
        ensures
            final(self)@ == old(self)@.push(value.model()),
    {
        self.values.push(value);
        assert(self@ =~= old(self)@.push(value.model()));
    }

    /// Freezes the rows appended so far into a column, leaving the builder
    /// empty.
    pub fn to_column(&mut self) -> (r: ObjectColumn<T>)
        ensures
            r@ == old(self)@,
            final(self)@ == Seq::<T::Model>::empty(),
    {
        let mut values: Vec<T> = Vec::new();
        std::mem::swap(&mut values, &mut self.values);
        assert(self@ =~= Seq::<T::Model>::empty());
        ObjectColumn::new_from_vec(values)
    }
}

} // verus!
