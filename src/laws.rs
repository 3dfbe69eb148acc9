use vstd::prelude::*;
use vstd::utf8::{decode_utf8, encode_utf8_decode_utf8, encode_utf8_valid_utf8, valid_utf8};

use crate::binary::{decode_rows, encoded_payload, encoded_row, is_encoding_of, BinaryArray};
use crate::column::{bucket_mask, count_true, filtered, lemma_filtered_all, lemma_filtered_len};
use crate::object_type::ObjectType;

verus! {

/// The payload of a prefix of the rows is a prefix of the whole payload.
proof fn lemma_payload_prefix<T: ObjectType>(s: Seq<T::Model>, j: int)
    requires
        0 <= j <= s.len(),
    ensures
        encoded_payload::<T>(s.take(j)).len() <= encoded_payload::<T>(s).len(),
        encoded_payload::<T>(s).take(encoded_payload::<T>(s.take(j)).len() as int)
            == encoded_payload::<T>(s.take(j)),
    decreases s.len(),
{
    if j == s.len() {
        assert(s.take(j) =~= s);
        assert(encoded_payload::<T>(s).take(encoded_payload::<T>(s).len() as int)
            =~= encoded_payload::<T>(s));
    } else {
        let p = s.drop_last();
        assert(p.take(j) =~= s.take(j));
        lemma_payload_prefix::<T>(p, j);
        let q = encoded_payload::<T>(s.take(j));
        assert(encoded_payload::<T>(s).take(q.len() as int) =~= encoded_payload::<T>(p).take(
            q.len() as int,
        ));
    }
}

/// Encoding then decoding gives back the same values, for every sequence of
/// values each of which reads back from the text it is written as.
pub proof fn lemma_round_trip<T: ObjectType>(a: BinaryArray, s: Seq<T::Model>)
    requires
        is_encoding_of::<T>(a, s),
        forall|i: int| 0 <= i < s.len() ==> T::parse_spec(T::render_spec(s[i])) == Some(s[i]),
    ensures
        a.wf(),
        decode_rows::<T>(a) == s,
{
    assert forall|i: int, j: int| 0 <= i <= j < a.offsets@.len() implies a.offsets@[i]
        <= a.offsets@[j] by {
        assert(s.take(j).take(i) =~= s.take(i));
        lemma_payload_prefix::<T>(s.take(j), i);
    }
    assert(s.take(s.len() as int) =~= s);
    assert forall|i: int| 0 <= i < s.len() implies #[trigger] decode_rows::<T>(a)[i] == s[i] by {
        let whole = encoded_payload::<T>(s);
        let before = encoded_payload::<T>(s.take(i));
        let upto = encoded_payload::<T>(s.take(i + 1));
        assert(s.take(i + 1).drop_last() =~= s.take(i));
        assert(upto == before + encoded_row::<T>(s[i]));
        lemma_payload_prefix::<T>(s, i + 1);
        assert(a.offsets@[i] == before.len());
        assert(a.offsets@[i + 1] == upto.len());
        assert(whole.take(upto.len() as int) == upto);
        assert(a.row_bytes(i) =~= whole.take(upto.len() as int).subrange(
            before.len() as int,
            upto.len() as int,
        ));
        assert(a.row_bytes(i) =~= encoded_row::<T>(s[i]));
        encode_utf8_valid_utf8(T::render_spec(s[i]));
        encode_utf8_decode_utf8(T::render_spec(s[i]));
    }
    assert(decode_rows::<T>(a) =~= s);
}

/// Text values always read back from their own text, so text columns
/// survive encoding and decoding unchanged.
pub proof fn lemma_text_round_trip(a: BinaryArray, s: Seq<Seq<char>>)
    requires
        is_encoding_of::<String>(a, s),
    ensures
        a.wf(),
        decode_rows::<String>(a) == s,
{
    lemma_round_trip::<String>(a, s);
}

/// A decoded row that is marked null, whose bytes are not UTF-8, or whose
/// text does not parse holds the value type's default.
pub proof fn lemma_default_substitution<T: ObjectType>(a: BinaryArray, i: int)
    requires
        a.wf(),
        0 <= i < a.rows(),
        a.is_null(i) || !valid_utf8(a.row_bytes(i)) || T::parse_spec(
            decode_utf8(a.row_bytes(i)),
        ) is None,
    ensures
        decode_rows::<T>(a)[i] == T::default_spec(),
{
}

/// A mask that selects every row keeps the column as it is.
pub proof fn lemma_filter_all_rows<A>(s: Seq<A>, mask: Seq<bool>)
    requires
        s.len() == mask.len(),
        forall|i: int| 0 <= i < mask.len() ==> mask[i],
    ensures
        filtered(s, mask) == s,
{
    lemma_count_all_true(mask);
    lemma_filtered_all(s, mask);
}

proof fn lemma_count_all_true(mask: Seq<bool>)
    requires
        forall|i: int| 0 <= i < mask.len() ==> mask[i],
    ensures
        count_true(mask) == mask.len(),
    decreases mask.len(),
{
    if mask.len() > 0 {
        lemma_count_all_true(mask.drop_last());
    }
}

proof fn lemma_count_true_monotone(mask: Seq<bool>, i: int, j: int)
    requires
        0 <= i <= j <= mask.len(),
    ensures
        count_true(mask.take(i)) <= count_true(mask.take(j)),
    decreases j - i,
{
    if i < j {
        assert(mask.take(j).drop_last() =~= mask.take(j - 1));
        lemma_count_true_monotone(mask, i, j - 1);
    }
}

/// A kept row `i` lands at position `count_true(mask[..i])` of the result.
proof fn lemma_filtered_position<A>(s: Seq<A>, mask: Seq<bool>, i: int)
    requires
        s.len() == mask.len(),
        0 <= i < s.len(),
        mask[i],
    ensures
        count_true(mask.take(i)) < filtered(s, mask).len(),
        filtered(s, mask)[count_true(mask.take(i)) as int] == s[i],
    decreases s.len(),
{
    let n = s.len() - 1;
    lemma_filtered_len(s.drop_last(), mask.drop_last());
    if i == n {
        assert(mask.take(i) =~= mask.drop_last());
    } else {
        assert(mask.drop_last().take(i) =~= mask.take(i));
        lemma_filtered_position(s.drop_last(), mask.drop_last(), i);
    }
}

/// Selection keeps order: two kept rows `i < j` land at positions
/// `p < q` of the result, `p` holding row `i` and `q` holding row `j`.
pub proof fn lemma_filter_order<A>(s: Seq<A>, mask: Seq<bool>, i: int, j: int)
    requires
        s.len() == mask.len(),
        0 <= i < j < s.len(),
        mask[i],
        mask[j],
    ensures
        count_true(mask.take(i)) < count_true(mask.take(j)),
        count_true(mask.take(j)) < filtered(s, mask).len(),
        filtered(s, mask)[count_true(mask.take(i)) as int] == s[i],
        filtered(s, mask)[count_true(mask.take(j)) as int] == s[j],
{
    lemma_filtered_position(s, mask, i);
    lemma_filtered_position(s, mask, j);
    assert(mask.take(i + 1).drop_last() =~= mask.take(i));
    lemma_count_true_monotone(mask, i + 1, j);
}

/// Scattering keeps order: two rows `i < j` sent to the same bucket land in
/// that bucket in the same order.
pub proof fn lemma_scatter_order<A>(s: Seq<A>, indices: Seq<usize>, i: int, j: int)
    requires
        s.len() == indices.len(),
        0 <= i < j < s.len(),
        indices[i] == indices[j],
    ensures
        ({
            let mask = bucket_mask(indices, indices[i] as int);
            let bucket = filtered(s, mask);
            &&& count_true(mask.take(i)) < count_true(mask.take(j))
            &&& count_true(mask.take(j)) < bucket.len()
            &&& bucket[count_true(mask.take(i)) as int] == s[i]
            &&& bucket[count_true(mask.take(j)) as int] == s[j]
        }),
{
    lemma_filter_order(s, bucket_mask(indices, indices[i] as int), i, j);
}

/// The total length of the first `k` buckets of a scatter.
pub open spec fn scattered_total<A>(s: Seq<A>, indices: Seq<usize>, k: nat) -> nat
    decreases k,
{
    if k == 0 {
        0
    } else {
        scattered_total(s, indices, (k - 1) as nat) + filtered(
            s,
            bucket_mask(indices, k - 1),
        ).len()
    }
}

proof fn lemma_scattered_total_step<A>(s: Seq<A>, indices: Seq<usize>, k: nat)
    requires
        s.len() == indices.len(),
        s.len() > 0,
    ensures
        scattered_total(s, indices, k) == scattered_total(s.drop_last(), indices.drop_last(), k)
            + if indices.last() < k {
            1nat
        } else {
            0nat
        },
    decreases k,
{
    if k > 0 {
        lemma_scattered_total_step(s, indices, (k - 1) as nat);
        let b = k - 1;
        assert(bucket_mask(indices, b).drop_last() =~= bucket_mask(indices.drop_last(), b));
        assert(s.drop_last().len() == indices.drop_last().len());
        lemma_filtered_len(s, bucket_mask(indices, b));
        lemma_filtered_len(s.drop_last(), bucket_mask(indices.drop_last(), b));
    }
}

/// Scattering into `k` buckets sends each row to exactly one of them: the
/// bucket lengths add up to the number of rows.
pub proof fn lemma_scatter_len<A>(s: Seq<A>, indices: Seq<usize>, k: nat)
    requires
        s.len() == indices.len(),
        forall|i: int| 0 <= i < indices.len() ==> indices[i] < k,
    ensures
        scattered_total(s, indices, k) == s.len(),
    decreases s.len(),
{
    if s.len() == 0 {
        lemma_scattered_total_empty(s, indices, k);
    } else {
        lemma_scattered_total_step(s, indices, k);
        lemma_scatter_len(s.drop_last(), indices.drop_last(), k);
    }
}

proof fn lemma_scattered_total_empty<A>(s: Seq<A>, indices: Seq<usize>, k: nat)
    requires
        s.len() == 0,
    ensures
        scattered_total(s, indices, k) == 0,
    decreases k,
{
    if k > 0 {
        lemma_scattered_total_empty(s, indices, (k - 1) as nat);
    }
}

} // verus!
