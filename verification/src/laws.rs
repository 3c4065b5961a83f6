//! What holds of the procedures for every layout, buffer and record.

use crate::codec::{
    checked_outcome, decode_field, decode_outcome, decode_record, encode_elems, encode_field,
    encode_prefix, encode_record, encoded_buffer, lemma_encode_elems_extends,
    lemma_encode_elems_len, lemma_encode_field_len, lemma_encode_prefix_extends,
    lemma_encode_prefix_len, progress,
};
use crate::failure::Failure;
use crate::layout::{
    lemma_field_within, lemma_fitting_record, lemma_offset_monotonic, lemma_short_record,
    offset_of, total_size,
};
use crate::primitive::splice;
use crate::schema::{FieldPlan, Strategy};
use crate::value::{conforms, field_conforms, Content};
use crate::word::{lemma_word_round_trip, word_bytes, word_limit, word_value, Endian};
use vstd::prelude::*;

verus! {

/// A checked procedure succeeds on every buffer that holds the whole record
/// from the starting offset on.
pub proof fn law_success_is_owed(layout: Seq<FieldPlan>, start: int, len: int)
    requires
        start + total_size(layout) <= len,
    ensures
        checked_outcome(layout, start, len) == Ok::<nat, Failure>(total_size(layout)),
        progress(layout, start, len) == total_size(layout),
{
    lemma_fitting_record(layout, 0, start, len);
}

/// Decoding and encoding report the same number of bytes whenever they
/// succeed: the total width of the layout, whatever the bytes and whatever
/// the record.
pub proof fn law_consumed_size(
    layout: Seq<FieldPlan>,
    src: Seq<u8>,
    read_at: int,
    dst_len: int,
    write_at: int,
    order: Endian,
)
    ensures
        decode_outcome(layout, src, read_at, order) matches Ok((_, consumed)) ==> consumed
            == total_size(layout),
        checked_outcome(layout, write_at, dst_len) matches Ok(written) ==> written == total_size(
            layout,
        ),
{
}

/// Element `k` of an array field is spelled by the `k`-th run of the
/// element's width inside the field, and by nothing else.
pub proof fn law_array_element_order(
    layout: Seq<FieldPlan>,
    bytes: Seq<u8>,
    start: int,
    i: int,
    k: int,
    order: Endian,
)
    requires
        0 <= i < layout.len(),
        layout[i].strategy matches Strategy::Array(n) && 0 <= k < n,
    ensures
        decode_record(layout, bytes, start, order)[i] matches Content::Array(elems) && elems.len()
            == layout[i].count() && elems[k] == word_value(
            bytes.subrange(
                start + offset_of(layout, i) + k * layout[i].width(),
                start + offset_of(layout, i) + (k + 1) * layout[i].width(),
            ),
            order,
        ),
{
    let w = layout[i].width() as int;
    assert((k + 1) * w == k * w + w) by (nonlinear_arith);
}

/// Decoding fails on every buffer that ends before the record does, be it by
/// one byte; the failure says that bytes are missing. (A record of no bytes
/// ends where it starts and is not meant here: it decodes from any offset.)
pub proof fn law_short_buffer_fails(
    layout: Seq<FieldPlan>,
    bytes: Seq<u8>,
    start: int,
    order: Endian,
)
    requires
        total_size(layout) > 0,
        bytes.len() < start + total_size(layout),
    ensures
        decode_outcome(layout, bytes, start, order) matches Err(f) && (f is TooBig
            || f is BadOffset),
{
    lemma_short_record(layout, 0, start, bytes.len() as int);
}

/// The bytes of element `k` of an array stand at `k` times the width.
pub proof fn lemma_encode_elems_at(values: Seq<nat>, k: int, width: nat, order: Endian)
    requires
        0 <= k < values.len(),
        forall|e: int| 0 <= e < values.len() ==> #[trigger] values[e] < word_limit(width),
    ensures
        k * width + width <= encode_elems(values, width, order).len(),
        encode_elems(values, width, order).subrange(k * width, k * width + width) == word_bytes(
            values[k],
            width,
            order,
        ),
{
    let whole = encode_elems(values, width, order);
    let upto = values.take(k + 1);
    let before = values.take(k);
    assert(upto.drop_last() =~= before);
    assert(upto.last() == values[k]);
    lemma_encode_elems_extends(values, k + 1, width, order);
    lemma_encode_elems_len(before, width, order);
    lemma_encode_elems_len(upto, width, order);
    lemma_word_round_trip(values[k], width, order);
    assert((k + 1) * width == k * width + width) by (nonlinear_arith);
    assert(before.len() == k);
    assert(upto.len() == k + 1);
    let opening = encode_elems(upto, width, order);
    let word = word_bytes(values[k], width, order);
    assert(opening == encode_elems(before, width, order) + word);
    assert(opening =~= whole.subrange(0, opening.len() as int));
    assert forall|x: int| 0 <= x < width implies whole[k * width + x] == word[x] by {
        assert(whole.subrange(0, opening.len() as int)[k * width + x] == whole[k * width + x]);
        assert(opening[k * width + x] == word[x]);
    }
    assert(whole.subrange(k * width, k * width + width) =~= word);
}

/// The bytes of field `i` of a conforming record stand at the field's offset.
pub proof fn lemma_encode_field_at(
    layout: Seq<FieldPlan>,
    values: Seq<Content>,
    i: int,
    order: Endian,
)
    requires
        conforms(layout, values),
        0 <= i < layout.len(),
    ensures
        encode_record(layout, values, order).len() == total_size(layout),
        offset_of(layout, i + 1) == offset_of(layout, i) + layout[i].size(),
        offset_of(layout, i + 1) <= total_size(layout),
        encode_record(layout, values, order).subrange(
            offset_of(layout, i) as int,
            offset_of(layout, i + 1) as int,
        ) == encode_field(layout[i], values[i], order),
{
    let whole = encode_record(layout, values, order);
    lemma_field_within(layout, i);
    lemma_encode_prefix_len(layout, values, layout.len(), order);
    lemma_encode_prefix_len(layout, values, i as nat, order);
    lemma_encode_prefix_len(layout, values, (i + 1) as nat, order);
    lemma_encode_prefix_extends(layout, values, (i + 1) as nat, layout.len(), order);
    assert(field_conforms(layout[i], values[i]));
    lemma_encode_field_len(layout[i], values[i], order);
    let opening = encode_prefix(layout, values, (i + 1) as nat, order);
    let before = encode_prefix(layout, values, i as nat, order);
    let run = encode_field(layout[i], values[i], order);
    assert(opening == before + run);
    assert(opening =~= whole.subrange(0, opening.len() as int));
    assert forall|x: int| 0 <= x < run.len() implies whole[offset_of(layout, i) + x] == run[x] by {
        assert(whole.subrange(0, opening.len() as int)[offset_of(layout, i) + x] == whole[offset_of(
            layout,
            i,
        ) + x]);
        assert(opening[offset_of(layout, i) + x] == run[x]);
    }
    assert(whole.subrange(offset_of(layout, i) as int, offset_of(layout, i + 1) as int) =~= run);
}

/// A field decodes to the value whose bytes stand where the field lies.
pub proof fn lemma_field_round_trip(
    field: FieldPlan,
    content: Content,
    bytes: Seq<u8>,
    at: int,
    order: Endian,
)
    requires
        field_conforms(field, content),
        0 <= at,
        at + field.size() <= bytes.len(),
        bytes.subrange(at, at + field.size()) == encode_field(field, content, order),
    ensures
        decode_field(field, bytes, at, order) == content,
{
    let w = field.width();
    let run = bytes.subrange(at, at + field.size());
    match content {
        Content::Scalar(v) => {
            assert(w * 1 == w);
            lemma_word_round_trip(v, w, order);
        },
        Content::Array(vs) => {
            let n = vs.len();
            let decoded = Seq::new(
                n,
                |k: int| word_value(bytes.subrange(at + k * w, at + k * w + w), order),
            );
            assert forall|k: int| 0 <= k < n implies decoded[k] == vs[k] by {
                lemma_encode_elems_at(vs, k, w, order);
                lemma_encode_elems_len(vs, w, order);
                assert(n * w == w * n) by (nonlinear_arith);
                assert(bytes.subrange(at + k * w, at + k * w + w) =~= run.subrange(
                    k * w,
                    k * w + w,
                ));
                lemma_word_round_trip(vs[k], w, order);
            }
            assert(decoded =~= vs);
        },
    }
}

/// Round trip: a record written into a buffer that has room for it, and read
/// back from the same place under the same context, is the record again, and
/// the bytes consumed are the record's size.
pub proof fn law_round_trip(
    layout: Seq<FieldPlan>,
    values: Seq<Content>,
    dst: Seq<u8>,
    start: int,
    order: Endian,
)
    requires
        conforms(layout, values),
        0 <= start,
        start + total_size(layout) <= dst.len(),
    ensures
        checked_outcome(layout, start, dst.len() as int) == Ok::<nat, Failure>(total_size(layout)),
        decode_outcome(layout, encoded_buffer(layout, values, dst, start, order), start, order)
            == Ok::<(Seq<Content>, nat), Failure>((values, total_size(layout))),
{
    let whole = encode_record(layout, values, order);
    let buffer = encoded_buffer(layout, values, dst, start, order);
    law_success_is_owed(layout, start, dst.len() as int);
    lemma_encode_prefix_len(layout, values, layout.len(), order);
    assert(whole.take(whole.len() as int) =~= whole);
    assert(buffer == splice(dst, start, whole));
    let decoded = decode_record(layout, buffer, start, order);
    assert forall|i: int| 0 <= i < layout.len() implies decoded[i] == values[i] by {
        lemma_encode_field_at(layout, values, i, order);
        let at = start + offset_of(layout, i);
        assert(buffer.subrange(at, at + layout[i].size()) =~= whole.subrange(
            offset_of(layout, i) as int,
            offset_of(layout, i + 1) as int,
        ));
        assert(field_conforms(layout[i], values[i]));
        lemma_field_round_trip(layout[i], values[i], buffer, at, order);
    }
    assert(decoded =~= values);
}

/// `bytes` with the run of `width` bytes at `p` and the run of `width` bytes
/// at `q` exchanged.
pub open spec fn exchange(bytes: Seq<u8>, p: int, q: int, width: int) -> Seq<u8> {
    Seq::new(
        bytes.len(),
        |x: int|
            if p <= x < p + width {
                bytes[x - p + q]
            } else if q <= x < q + width {
                bytes[x - q + p]
            } else {
                bytes[x]
            },
    )
}

/// A field whose bytes are the same in two buffers decodes to the same value
/// in both.
pub proof fn lemma_decode_field_local(
    field: FieldPlan,
    a: Seq<u8>,
    b: Seq<u8>,
    at: int,
    order: Endian,
)
    requires
        0 <= at,
        at + field.size() <= a.len(),
        a.len() == b.len(),
        forall|x: int| at <= x < at + field.size() ==> a[x] == b[x],
    ensures
        decode_field(field, a, at, order) == decode_field(field, b, at, order),
{
    let w = field.width() as int;
    match field.strategy {
        Strategy::Scalar => {
            assert(w * 1 == w);
            assert(a.subrange(at, at + w) =~= b.subrange(at, at + w));
        },
        Strategy::Array(n) => {
            let in_a = Seq::new(
                n as nat,
                |k: int| word_value(a.subrange(at + k * w, at + k * w + w), order),
            );
            let in_b = Seq::new(
                n as nat,
                |k: int| word_value(b.subrange(at + k * w, at + k * w + w), order),
            );
            assert forall|k: int| 0 <= k < n implies in_a[k] == in_b[k] by {
                assert(0 <= k * w && k * w + w <= w * n) by (nonlinear_arith)
                    requires
                        0 <= k < n,
                        w > 0,
                ;
                assert(a.subrange(at + k * w, at + k * w + w) =~= b.subrange(
                    at + k * w,
                    at + k * w + w,
                ));
            }
            assert(in_a =~= in_b);
        },
    }
}

/// Field order: when the bytes of two scalar fields of the same width are
/// exchanged in the buffer and the layout stays as it is, the two fields
/// decode to each other's former values and every other field to its own.
/// Fields are decoded in declaration order and in no other.
pub proof fn law_field_order(
    layout: Seq<FieldPlan>,
    bytes: Seq<u8>,
    start: int,
    i: int,
    j: int,
    order: Endian,
)
    requires
        0 <= start,
        start + total_size(layout) <= bytes.len(),
        0 <= i < j < layout.len(),
        layout[i].strategy is Scalar,
        layout[j].strategy is Scalar,
        layout[i].width() == layout[j].width(),
    ensures
        ({
            let swapped = exchange(
                bytes,
                start + offset_of(layout, i),
                start + offset_of(layout, j),
                layout[i].width() as int,
            );
            let was = decode_record(layout, bytes, start, order);
            let now = decode_record(layout, swapped, start, order);
            &&& now[i] == was[j]
            &&& now[j] == was[i]
            &&& forall|k: int| 0 <= k < layout.len() && k != i && k != j ==> now[k] == was[k]
        }),
{
    let w = layout[i].width() as int;
    let p = start + offset_of(layout, i);
    let q = start + offset_of(layout, j);
    let swapped = exchange(bytes, p, q, w);
    let was = decode_record(layout, bytes, start, order);
    let now = decode_record(layout, swapped, start, order);
    assert(w * 1 == w);
    lemma_field_within(layout, i);
    lemma_field_within(layout, j);
    lemma_offset_monotonic(layout, i + 1, j);
    assert(swapped.subrange(p, p + w) =~= bytes.subrange(q, q + w));
    assert(swapped.subrange(q, q + w) =~= bytes.subrange(p, p + w));
    assert forall|k: int| 0 <= k < layout.len() && k != i && k != j implies now[k] == was[k] by {
        lemma_field_within(layout, k);
        if k < i {
            lemma_offset_monotonic(layout, k + 1, i);
        } else if k < j {
            lemma_offset_monotonic(layout, i + 1, k);
            lemma_offset_monotonic(layout, k + 1, j);
        } else {
            lemma_offset_monotonic(layout, j + 1, k);
        }
        lemma_decode_field_local(layout[k], bytes, swapped, start + offset_of(layout, k), order);
    }
}

} // verus!
