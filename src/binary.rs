use vstd::prelude::*;
use vstd::utf8::{decode_utf8, valid_utf8};

use crate::object_type::ObjectType;

verus! {

/// A length-delimited binary array: row `i` is the payload bytes
/// `values[offsets[i]..offsets[i + 1]]`, and, where a validity bitmap is
/// present, `validity[i]` says whether the row holds a value at all.
pub struct BinaryArray {
    pub offsets: Vec<usize>,
    pub values: Vec<u8>,
    pub validity: Option<Vec<bool>>,
}

impl BinaryArray {
    /// The number of rows.
    pub open spec fn rows(&self) -> int {
        self.offsets@.len() - 1
    }

    /// At least one offset, offsets that never decrease and stay within the
    /// payload, and a validity bitmap, if any, with one entry per row.
    pub open spec fn wf(&self) -> bool {
        &&& self.offsets@.len() >= 1
        &&& forall|i: int, j: int|
            0 <= i <= j < self.offsets@.len() ==> self.offsets@[i] <= self.offsets@[j]
        &&& self.offsets@.last() <= self.values@.len()
        &&& self.validity matches Some(v) ==> v@.len() == self.rows()
    }

    /// Row `i` is marked as holding no value.
    pub open spec fn is_null(&self, i: int) -> bool {
        self.validity matches Some(v) && !v@[i]
    }

    /// The payload bytes of row `i`.
    pub open spec fn row_bytes(&self, i: int) -> Seq<u8> {
        self.values@.subrange(self.offsets@[i] as int, self.offsets@[i + 1] as int)
    }
}

/// The value that row `i` of `a` decodes to: the default where the row is
/// null, where its bytes are not UTF-8, or where its text does not parse.
pub open spec fn decode_row<T: ObjectType>(a: BinaryArray, i: int) -> T::Model {
    if a.is_null(i) || !valid_utf8(a.row_bytes(i)) {
        T::default_spec()
    } else {
        match T::parse_spec(decode_utf8(a.row_bytes(i))) {
            Some(m) => m,
            None => T::default_spec(),
        }
    }
}

/// The values that all rows of `a` decode to, in row order.
pub open spec fn decode_rows<T: ObjectType>(a: BinaryArray) -> Seq<T::Model> {
    Seq::new(a.rows() as nat, |i: int| decode_row::<T>(a, i))
}

/// The UTF-8 bytes of the text that value `m` is written as.
pub open spec fn encoded_row<T: ObjectType>(m: T::Model) -> Seq<u8> {
    vstd::utf8::encode_utf8(T::render_spec(m))
}

/// The encoded rows of `s`, back to back.
pub open spec fn encoded_payload<T: ObjectType>(s: Seq<T::Model>) -> Seq<u8>
    decreases s.len(),
{
    if s.len() == 0 {
        Seq::empty()
    } else {
        encoded_payload::<T>(s.drop_last()) + encoded_row::<T>(s.last())
    }
}

/// `a` is the encoding of `s`: the payload holds the encoded rows back to
/// back, offset `i` is where row `i` starts, and there is no validity bitmap.
pub open spec fn is_encoding_of<T: ObjectType>(a: BinaryArray, s: Seq<T::Model>) -> bool {
    &&& a.offsets@.len() == s.len() + 1
    &&& forall|i: int|
        0 <= i <= s.len() ==> a.offsets@[i] == encoded_payload::<T>(s.take(i)).len()
    &&& a.values@ == encoded_payload::<T>(s)
    &&& a.validity is None
}

/// Relies on `std::str::from_utf8`: it accepts exactly the valid UTF-8 byte
/// sequences, and the text it gives back is made of those bytes.
#[verifier::external_body]
pub(crate) fn utf8_text(bytes: &[u8]) -> (r: Option<&str>)
    ensures
        r is Some <==> valid_utf8(bytes@),
        r matches Some(s) ==> vstd::utf8::encode_utf8(s@) == bytes@,
{
    std::str::from_utf8(bytes).ok()
}

} // verus!
