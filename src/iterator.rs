use vstd::prelude::*;

use crate::column::ObjectColumn;
use crate::object_type::ObjectType;

verus! {

/// A fresh, finite walk over the rows of a column, in row order, borrowing
/// each row in turn.
pub struct ObjectValueIter<'a, T: ObjectType> {
    column: &'a ObjectColumn<T>,
    pos: usize,
}

impl<'a, T: ObjectType> ObjectValueIter<'a, T> {
    /// The rows being walked.
    pub closed spec fn rows(&self) -> Seq<T::Model> {
        self.column@
    }

    /// How many rows have been handed out.
    pub closed spec fn position(&self) -> int {
        self.pos as int
    }

    /// A walk that starts at the first row of `column`.
    pub fn new(column: &'a ObjectColumn<T>) -> (r: Self)
        ensures
            r.rows() == column@,
            r.position() == 0,
    {
        ObjectValueIter { column, pos: 0 }
    }

    /// The next row, or `None` once every row has been handed out.
    pub fn next(&mut self) -> (r: Option<&'a T>)
        ensures
            final(self).rows() == old(self).rows(),
            old(self).position() < old(self).rows().len() ==> {
                &&& r matches Some(v) && v.model() == old(self).rows()[old(self).position()]
                &&& final(self).position() == old(self).position() + 1
            },
            old(self).position() >= old(self).rows().len() ==> {
                &&& r is None
                &&& final(self).position() == old(self).position()
            },
    {
        if self.pos < self.column.len() {
            let v = self.column.get_data(self.pos);
            self.pos = self.pos + 1;
            Some(v)
        } else {
            None
        }
    }
}

impl<T: ObjectType> ObjectColumn<T> {
    /// A fresh walk over the rows, in row order.
    pub fn scalar_iter(&self) -> (r: ObjectValueIter<'_, T>)
        ensures
            r.rows() == self@,
            r.position() == 0,
    {
        ObjectValueIter::new(self)
    }
}

} // verus!
