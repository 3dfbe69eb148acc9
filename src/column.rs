use vstd::prelude::*;

use crate::binary::{decode_row, decode_rows, encoded_payload, encoded_row, is_encoding_of, utf8_text, BinaryArray};
use crate::mutable::MutableObjectColumn;
use crate::object_type::{DataType, ObjectType};
use vstd::pervasive::VecAdditionalExecFns;

verus! {

/// The models of a sequence of values, in order.
pub open spec fn models_of<T: ObjectType>(s: Seq<T>) -> Seq<T::Model> {
    s.map_values(|v: T| v.model())
}

/// The rows of `s` whose entry in `mask` is true, in their original order
/// (`s` and `mask` have the same length).
pub open spec fn filtered<A>(s: Seq<A>, mask: Seq<bool>) -> Seq<A>
    decreases s.len(),
{
    if s.len() == 0 || mask.len() == 0 {
        Seq::empty()
    } else if mask.last() {
        filtered(s.drop_last(), mask.drop_last()).push(s.last())
    } else {
        filtered(s.drop_last(), mask.drop_last())
    }
}

/// The number of true entries of `mask`.
pub open spec fn count_true(mask: Seq<bool>) -> nat
    decreases mask.len(),
{
    if mask.len() == 0 {
        0
    } else {
        count_true(mask.drop_last()) + if mask.last() {
            1nat
        } else {
            0nat
        }
    }
}

/// The mask of the rows that `indices` sends to bucket `b`.
pub open spec fn bucket_mask(indices: Seq<usize>, b: int) -> Seq<bool> {
    Seq::new(indices.len(), |i: int| indices[i] == b)
}

/// Where the copies of row `i` start in the output of a replication by
/// cumulative `offsets`.
pub open spec fn copies_start(offsets: Seq<usize>, i: int) -> int {
    if i == 0 {
        0
    } else {
        offsets[i - 1] as int
    }
}

/// `offsets` never decreases.
pub open spec fn non_decreasing(offsets: Seq<usize>) -> bool {
    forall|i: int, j: int| 0 <= i <= j < offsets.len() ==> offsets[i] <= offsets[j]
}

/// Each row `i` of `s` repeated `offsets[i] - offsets[i - 1]` times (with
/// `offsets[-1]` taken as zero), in row order.
pub open spec fn replicated<A>(s: Seq<A>, offsets: Seq<usize>) -> Seq<A>
    decreases s.len(),
{
    if s.len() == 0 || offsets.len() == 0 {
        Seq::empty()
    } else {
        let n = s.len() - 1;
        replicated(s.drop_last(), offsets.drop_last()) + Seq::new(
            (offsets[n] - copies_start(offsets, n)) as nat,
            |k: int| s[n],
        )
    }
}

/// The length of a replication: the last cumulative offset, or zero.
pub open spec fn replicated_len(offsets: Seq<usize>) -> int {
    if offsets.len() == 0 {
        0
    } else {
        offsets.last() as int
    }
}

/// A selection keeps as many rows as its mask has true entries.
pub proof fn lemma_filtered_len<A>(s: Seq<A>, mask: Seq<bool>)
    requires
        s.len() == mask.len(),
    ensures
        filtered(s, mask).len() == count_true(mask),
        count_true(mask) <= mask.len(),
    decreases s.len(),
{
    if s.len() > 0 {
        lemma_filtered_len(s.drop_last(), mask.drop_last());
    }
}

/// A mask that is true everywhere keeps every row.
pub proof fn lemma_filtered_all<A>(s: Seq<A>, mask: Seq<bool>)
    requires
        s.len() == mask.len(),
        count_true(mask) == mask.len(),
    ensures
        filtered(s, mask) == s,
    decreases s.len(),
{
    if s.len() > 0 {
        lemma_filtered_len(s.drop_last(), mask.drop_last());
        lemma_filtered_all(s.drop_last(), mask.drop_last());
        assert(filtered(s, mask) =~= s);
    } else {
        assert(filtered(s, mask) =~= s);
    }
}

/// A replication is as long as its last cumulative offset.
pub proof fn lemma_replicated_len<A>(s: Seq<A>, offsets: Seq<usize>)
    requires
        s.len() == offsets.len(),
        non_decreasing(offsets),
    ensures
        replicated(s, offsets).len() == replicated_len(offsets),
    decreases s.len(),
{
    if s.len() > 0 {
        lemma_replicated_len(s.drop_last(), offsets.drop_last());
    }
}

/// A dense, fixed-length, read-only column of values of an object type.
/// Row order is the order of `values`; the column has no validity bitmap of
/// its own, since nulls were turned into default values when it was decoded.
pub struct ObjectColumn<T: ObjectType> {
    values: Vec<T>,
}

impl<T: ObjectType> View for ObjectColumn<T> {
    type V = Seq<T::Model>;

    closed spec fn view(&self) -> Seq<T::Model> {
        models_of(self.values@)
    }
}

impl<T: ObjectType> ObjectColumn<T> {
    /// Decodes a binary array: each row reads as its text parsed by `T`, or
    /// as `T`'s default where the row is null, not UTF-8, or unreadable.
    pub fn new(array: BinaryArray) -> (r: Self)
        requires
            array.wf(),
        ensures
            r@ == decode_rows::<T>(array),
    {
        Self::from_arrow_array(&array)
    }

    /// Decodes a binary array held by reference; see `new`.
    pub fn from_arrow_array(array: &BinaryArray) -> (r: Self)
        requires
            array.wf(),
        ensures
            r@ == decode_rows::<T>(*array),
    {
        let n: usize = array.offsets.len() - 1;
        let mut values: Vec<T> = Vec::with_capacity(n);
        let mut i: usize = 0;
        while i < n
            invariant
                array.wf(),
                n == array.rows(),
                i <= n,
                values@.len() == i,
                forall|j: int| 0 <= j < i ==> #[trigger] values@[j].model() == decode_row::<T>(*array, j),
            decreases n - i,
        {
            let null = match &array.validity {
                Some(v) => !v[i],
                None => false,
            };
            if null {
                values.push(T::default_value());
            } else {
                let start = array.offsets[i];
                let end = array.offsets[i + 1];
                let bytes = vstd::slice::slice_subrange(array.values.as_slice(), start, end);
                match utf8_text(bytes) {
                    None => values.push(T::default_value()),
                    Some(text) => {
                        proof {
                            vstd::utf8::encode_utf8_decode_utf8(text@);
                        }
                        match T::from_text(text) {
                            Ok(v) => values.push(v),
                            Err(_) => values.push(T::default_value()),
                        }
                    },
                }
            }
            i += 1;
        }
        let r = ObjectColumn { values };
        assert(r@ =~= decode_rows::<T>(*array));
        r
    }

    /// Takes ownership of `values` as the column's rows, without copying.
    pub fn new_from_vec(values: Vec<T>) -> (r: Self)
        ensures
            r@ == models_of(values@),
    {
        ObjectColumn { values }
    }

    /// The rows, borrowed.
    pub fn values(&self) -> (r: &[T])
        ensures
            models_of(r@) == self@,
    {
        self.values.as_slice()
    }

    /// A copy of row `i`, with no bounds check beyond the precondition.
    pub fn value_unchecked(&self, i: usize) -> (r: T)
        requires
            i < self@.len(),
        ensures
            r.model() == self@[i as int],
    {
        self.values[i].duplicate()
    }

    /// The number of rows.
    pub fn len(&self) -> (r: usize)
        ensures
            r == self@.len(),
    {
        self.values.len()
    }

    /// The data type of the column as a whole, as the value type reports it.
    pub fn data_type(&self) -> (r: DataType)
        ensures
            r == T::data_type_spec(),
    {
        T::data_type()
    }

    /// An approximate memory footprint: the number of rows times the size
    /// of one value, saturated at `usize::MAX`.
    pub fn memory_size(&self) -> (r: usize)
        ensures
            r == if self@.len() * vstd::layout::size_of::<T>() <= usize::MAX {
                self@.len() * vstd::layout::size_of::<T>()
            } else {
                usize::MAX as nat
            },
    {
        match self.values.len().checked_mul(core::mem::size_of::<T>()) {
            Some(m) => m,
            None => usize::MAX,
        }
    }

    /// Encodes the column as a binary array: each row written as text, its
    /// UTF-8 bytes appended to the payload, and its end recorded as the next
    /// offset. No validity bitmap is emitted.
    pub fn as_arrow_array(&self) -> (r: BinaryArray)
        ensures
            is_encoding_of::<T>(r, self@),
    {
        let n: usize = self.values.len();
        let mut offsets: Vec<usize> = Vec::with_capacity(n);
        let mut payload: Vec<u8> = Vec::with_capacity(n);
        offsets.push(0);
        assert(self@.take(0) =~= Seq::<T::Model>::empty());
        let mut i: usize = 0;
        while i < n
            invariant
                n == self@.len(),
                i <= n,
                offsets@.len() == i + 1,
                forall|j: int|
                    0 <= j <= i ==> #[trigger] offsets@[j] == encoded_payload::<T>(
                        self@.take(j),
                    ).len(),
                payload@ == encoded_payload::<T>(self@.take(i as int)),
            decreases n - i,
        {
            let text = self.values[i].to_text();
            let bytes = text.as_str().as_bytes();
            let ghost before = payload@;
            let mut k: usize = 0;
            while k < bytes.len()
                invariant
                    k <= bytes@.len(),
                    payload@ == before + bytes@.take(k as int),
                decreases bytes@.len() - k,
            {
                payload.push(bytes[k]);
                k += 1;
                assert(payload@ =~= before + bytes@.take(k as int));
            }
            proof {
                assert(bytes@.take(k as int) =~= bytes@);
                assert(self@.take(i + 1).drop_last() =~= self@.take(i as int));
                assert(bytes@ == encoded_row::<T>(self@[i as int]));
            }
            offsets.push(payload.len());
            i += 1;
        }
        assert(self@.take(n as int) =~= self@);
        BinaryArray { offsets, values: payload, validity: None }
    }

    /// An independent copy of the rows `offset .. offset + length`.
    pub fn slice(&self, offset: usize, length: usize) -> (r: Self)
        requires
            offset + length <= self@.len(),
        ensures
            r@ == self@.subrange(offset as int, offset + length),
    {
        let total: usize = self.values.len();
        let mut values: Vec<T> = Vec::with_capacity(length);
        let mut k: usize = 0;
        while k < length
            invariant
                offset + length <= self@.len(),
                self@.len() == total,
                k <= length,
                values@.len() == k,
                forall|j: int| 0 <= j < k ==> #[trigger] values@[j].model() == self@[offset + j],
            decreases length - k,
        {
            values.push(self.values[offset + k].duplicate());
            k += 1;
        }
        let r = ObjectColumn { values };
        assert(r@ =~= self@.subrange(offset as int, offset + length));
        r
    }

    /// A copy of the whole column.
    pub fn arc(&self) -> (r: Self)
        ensures
            r@ == self@,
    {
        let r = self.slice(0, self.values.len());
        assert(self@.subrange(0, self@.len() as int) =~= self@);
        r
    }

    /// A copy of the whole column; an object column is always full.
    pub fn convert_full_column(&self) -> (r: Self)
        ensures
            r@ == self@,
    {
        self.arc()
    }

    /// The rows whose mask entry is true, in their original order. Where the
    /// mask keeps every row, the result is a copy of the whole column.
    pub fn filter(&self, mask: &[bool]) -> (r: Self)
        requires
            mask@.len() == self@.len(),
        ensures
            r@ == filtered(self@, mask@),
            r@.len() == count_true(mask@),
    {
        let n: usize = self.values.len();
        let mut live: usize = 0;
        let mut i: usize = 0;
        while i < n
            invariant
                n == self@.len(),
                mask@.len() == n,
                i <= n,
                live == count_true(mask@.take(i as int)),
                live <= i,
            decreases n - i,
        {
            if mask[i] {
                live += 1;
            }
            assert(mask@.take(i + 1).drop_last() =~= mask@.take(i as int));
            i += 1;
        }
        assert(mask@.take(n as int) =~= mask@);
        proof {
            lemma_filtered_len(self@, mask@);
        }
        if live == n {
            proof {
                lemma_filtered_all(self@, mask@);
            }
            return self.arc();
        }
        let mut builder: MutableObjectColumn<T> = MutableObjectColumn::with_capacity(live);
        i = 0;
        assert(self@.take(0) =~= Seq::<T::Model>::empty());
        while i < n
            invariant
                n == self@.len(),
                mask@.len() == n,
                i <= n,
                builder@ == filtered(self@.take(i as int), mask@.take(i as int)),
            decreases n - i,
        {
            if mask[i] {
                builder.append_value(self.values[i].duplicate());
            }
            assert(self@.take(i + 1).drop_last() =~= self@.take(i as int));
            assert(mask@.take(i + 1).drop_last() =~= mask@.take(i as int));
            i += 1;
        }
        assert(self@.take(n as int) =~= self@);
        builder.to_column()
    }

    /// Splits the rows into `scattered_size` columns: row `i` goes to column
    /// `indices[i]`, and each column keeps its rows in their original order.
    pub fn scatter(&self, indices: &[usize], scattered_size: usize) -> (r: Vec<Self>)
        requires
            indices@.len() == self@.len(),
            forall|i: int| 0 <= i < indices@.len() ==> indices@[i] < scattered_size,
        ensures
            r@.len() == scattered_size,
            forall|b: int|
                0 <= b < scattered_size ==> #[trigger] r@[b]@ == filtered(
                    self@,
                    bucket_mask(indices@, b),
                ),
    {
        let n: usize = self.values.len();
        let mut builders: Vec<MutableObjectColumn<T>> = Vec::with_capacity(scattered_size);
        let mut b: usize = 0;
        while b < scattered_size
            invariant
                b <= scattered_size,
                builders@.len() == b,
                forall|c: int| 0 <= c < b ==> #[trigger] builders@[c]@ == Seq::<T::Model>::empty(),
            decreases scattered_size - b,
        {
            builders.push(MutableObjectColumn::with_capacity(n));
            b += 1;
        }
        let mut i: usize = 0;
        assert(self@.take(0) =~= Seq::<T::Model>::empty());
        while i < n
            invariant
                n == self@.len(),
                indices@.len() == n,
                forall|j: int| 0 <= j < indices@.len() ==> indices@[j] < scattered_size,
                i <= n,
                builders@.len() == scattered_size,
                forall|c: int|
                    0 <= c < scattered_size ==> #[trigger] builders@[c]@ == filtered(
                        self@.take(i as int),
                        bucket_mask(indices@, c).take(i as int),
                    ),
            decreases n - i,
        {
            let target: usize = indices[i];
            let mut slot: MutableObjectColumn<T> = MutableObjectColumn::with_capacity(0);
            builders.set_and_swap(target, &mut slot);
            slot.append_value(self.values[i].duplicate());
            builders.set_and_swap(target, &mut slot);
            proof {
                assert(self@.take(i + 1).drop_last() =~= self@.take(i as int));
                assert forall|c: int| 0 <= c < scattered_size implies #[trigger] builders@[c]@
                    == filtered(self@.take(i + 1), bucket_mask(indices@, c).take(i + 1)) by {
                    assert(bucket_mask(indices@, c).take(i + 1).drop_last() =~= bucket_mask(
                        indices@,
                        c,
                    ).take(i as int));
                }
            }
            i += 1;
        }
        assert(self@.take(n as int) =~= self@);
        let mut out: Vec<Self> = Vec::with_capacity(scattered_size);
        b = 0;
        while b < scattered_size
            invariant
                n == self@.len(),
                indices@.len() == n,
                b <= scattered_size,
                out@.len() == b,
                builders@.len() == scattered_size,
                forall|c: int|
                    0 <= c < b ==> #[trigger] out@[c]@ == filtered(self@, bucket_mask(indices@, c)),
                forall|c: int|
                    b <= c < scattered_size ==> #[trigger] builders@[c]@ == filtered(
                        self@,
                        bucket_mask(indices@, c).take(n as int),
                    ),
            decreases scattered_size - b,
        {
            let mut slot: MutableObjectColumn<T> = MutableObjectColumn::with_capacity(0);
            builders.set_and_swap(b, &mut slot);
            assert(bucket_mask(indices@, b as int).take(n as int) =~= bucket_mask(indices@, b as int));
            out.push(slot.to_column());
            b += 1;
        }
        out
    }

    /// Repeats each row: row `i` appears `offsets[i] - offsets[i - 1]` times
    /// (with `offsets[-1]` taken as zero), rows in order. `offsets` are
    /// cumulative ends in the output.
    pub fn replicate(&self, offsets: &[usize]) -> (r: Self)
        requires
            offsets@.len() == self@.len(),
            non_decreasing(offsets@),
        ensures
            r@ == replicated(self@, offsets@),
            r@.len() == replicated_len(offsets@),
    {
        proof {
            lemma_replicated_len(self@, offsets@);
        }
        let n: usize = self.values.len();
        if n == 0 {
            let r = self.slice(0, 0);
            assert(r@ =~= replicated(self@, offsets@));
            return r;
        }
        let mut builder: MutableObjectColumn<T> = MutableObjectColumn::with_capacity(offsets[n - 1]);
        let mut previous: usize = 0;
        let mut i: usize = 0;
        assert(self@.take(0) =~= Seq::<T::Model>::empty());
        while i < n
            invariant
                n == self@.len(),
                offsets@.len() == n,
                non_decreasing(offsets@),
                i <= n,
                previous == copies_start(offsets@, i as int),
                builder@ == replicated(self@.take(i as int), offsets@.take(i as int)),
            decreases n - i,
        {
            let offset: usize = offsets[i];
            let ghost base = builder@;
            let mut k: usize = previous;
            while k < offset
                invariant
                    previous <= k <= offset,
                    i < n == self@.len(),
                    builder@ == base + Seq::new((k - previous) as nat, |j: int| self@[i as int]),
                decreases offset - k,
            {
                builder.append_value(self.values[i].duplicate());
                k += 1;
                assert(builder@ =~= base + Seq::new((k - previous) as nat, |j: int| self@[i as int]));
            }
            proof {
                let s1 = self@.take(i + 1);
                let o1 = offsets@.take(i + 1);
                assert(s1.drop_last() =~= self@.take(i as int));
                assert(o1.drop_last() =~= offsets@.take(i as int));
                assert(copies_start(o1, i as int) == copies_start(offsets@, i as int));
                assert(Seq::new((k - previous) as nat, |j: int| self@[i as int]) =~= Seq::new(
                    (o1[i as int] - copies_start(o1, i as int)) as nat,
                    |j: int| s1[i as int],
                ));
            }
            previous = offset;
            i += 1;
        }
        assert(self@.take(n as int) =~= self@);
        assert(offsets@.take(n as int) =~= offsets@);
        builder.to_column()
    }

    /// The column's own validity: never a bitmap, since nulls were resolved
    /// into default values when it was decoded.
    pub fn validity(&self) -> (r: (bool, Option<Vec<bool>>))
        ensures
            r.0 == false,
            r.1 is None,
    {
        (false, None)
    }

    /// A copy of row `index`.
    pub fn get(&self, index: usize) -> (r: T)
        requires
            index < self@.len(),
        ensures
            r.model() == self@[index as int],
    {
        self.values[index].duplicate()
    }

    /// Row `index`, borrowed.
    pub fn get_data(&self, index: usize) -> (r: &T)
        requires
            index < self@.len(),
        ensures
            r.model() == self@[index as int],
    {
        &self.values[index]
    }
}

} // verus!
