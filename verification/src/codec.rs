//! What the generated procedures compute, stated over byte sequences.

use crate::failure::{access_failure, Failure};
use crate::layout::{first_stuck, offset_of, total_size};
use crate::primitive::splice;
use crate::schema::{FieldPlan, Strategy};
use crate::value::{conforms, field_conforms, Content};
use crate::word::{lemma_word_round_trip, word_bytes, word_limit, word_value, Endian};
use vstd::prelude::*;

verus! {

/// The value of the field `field` when it starts at `at` in `bytes`. Element
/// `k` of an array is spelled by the `k`-th run of the element's width.
pub open spec fn decode_field(field: FieldPlan, bytes: Seq<u8>, at: int, order: Endian) -> Content {
    let w = field.width() as int;
    match field.strategy {
        Strategy::Scalar => Content::Scalar(word_value(bytes.subrange(at, at + w), order)),
        Strategy::Array(n) => Content::Array(
            Seq::new(
                n as nat,
                |k: int| word_value(bytes.subrange(at + k * w, at + k * w + w), order),
            ),
        ),
    }
}

/// The value of the record laid out as `layout` when it starts at `start` in
/// `bytes`: each field is decoded at its own offset.
pub open spec fn decode_record(
    layout: Seq<FieldPlan>,
    bytes: Seq<u8>,
    start: int,
    order: Endian,
) -> Seq<Content> {
    Seq::new(
        layout.len(),
        |i: int| decode_field(layout[i], bytes, start + offset_of(layout, i), order),
    )
}

/// The bytes of the elements `values`, each spelled in `width` bytes, index 0
/// first.
pub open spec fn encode_elems(values: Seq<nat>, width: nat, order: Endian) -> Seq<u8>
    decreases values.len(),
{
    if values.len() == 0 {
        Seq::empty()
    } else {
        encode_elems(values.drop_last(), width, order) + word_bytes(values.last(), width, order)
    }
}

/// The bytes of one field.
pub open spec fn encode_field(field: FieldPlan, content: Content, order: Endian) -> Seq<u8> {
    match content {
        Content::Scalar(v) => word_bytes(v, field.width(), order),
        Content::Array(vs) => encode_elems(vs, field.width(), order),
    }
}

/// The bytes of the first `upto` fields, in declaration order.
pub open spec fn encode_prefix(
    layout: Seq<FieldPlan>,
    values: Seq<Content>,
    upto: nat,
    order: Endian,
) -> Seq<u8>
    decreases upto,
{
    if upto == 0 {
        Seq::empty()
    } else {
        encode_prefix(layout, values, (upto - 1) as nat, order) + encode_field(
            layout[upto - 1],
            values[upto - 1],
            order,
        )
    }
}

/// The bytes of a whole record.
pub open spec fn encode_record(layout: Seq<FieldPlan>, values: Seq<Content>, order: Endian) -> Seq<
    u8,
> {
    encode_prefix(layout, values, layout.len(), order)
}

/// What a checked procedure reports for a buffer of `len` bytes when it
/// starts at `start`: the record's size, or the failure of the first access
/// that does not fit.
pub open spec fn checked_outcome(layout: Seq<FieldPlan>, start: int, len: int) -> Result<
    nat,
    Failure,
> {
    match first_stuck(layout, 0, start, len) {
        Some((at, width)) => Err(access_failure(at, width, len)),
        None => Ok(total_size(layout)),
    }
}

/// The number of bytes a checked procedure gets through before it stops: the
/// record's size, or the distance to the first access that does not fit.
pub open spec fn progress(layout: Seq<FieldPlan>, start: int, len: int) -> nat {
    match first_stuck(layout, 0, start, len) {
        Some((at, width)) => (at - start) as nat,
        None => total_size(layout),
    }
}

/// What checked decoding gives: the record and its size, or the failure.
pub open spec fn decode_outcome(
    layout: Seq<FieldPlan>,
    bytes: Seq<u8>,
    start: int,
    order: Endian,
) -> Result<(Seq<Content>, nat), Failure> {
    match checked_outcome(layout, start, bytes.len() as int) {
        Ok(size) => Ok((decode_record(layout, bytes, start, order), size)),
        Err(f) => Err(f),
    }
}

/// The buffer after checked encoding: the bytes of the record are written
/// from `start` on, as far as the procedure got.
pub open spec fn encoded_buffer(
    layout: Seq<FieldPlan>,
    values: Seq<Content>,
    dst: Seq<u8>,
    start: int,
    order: Endian,
) -> Seq<u8> {
    splice(
        dst,
        start,
        encode_record(layout, values, order).take(progress(layout, start, dst.len() as int) as int),
    )
}

/// The elements of an array take the element's width each.
pub proof fn lemma_encode_elems_len(values: Seq<nat>, width: nat, order: Endian)
    requires
        forall|k: int| 0 <= k < values.len() ==> #[trigger] values[k] < word_limit(width),
    ensures
        encode_elems(values, width, order).len() == values.len() * width,
    decreases values.len(),
{
    if values.len() > 0 {
        let front = values.drop_last();
        assert forall|k: int| 0 <= k < front.len() implies #[trigger] front[k] < word_limit(
            width,
        ) by {
            assert(front[k] == values[k]);
        }
        lemma_encode_elems_len(front, width, order);
        lemma_word_round_trip(values.last(), width, order);
        assert(values.len() * width == front.len() * width + width) by (nonlinear_arith)
            requires
                values.len() == front.len() + 1,
        ;
    } else {
        assert(values.len() * width == 0) by (nonlinear_arith)
            requires
                values.len() == 0,
        ;
    }
}

/// The bytes of a conforming field are as many as the field's size.
pub proof fn lemma_encode_field_len(field: FieldPlan, content: Content, order: Endian)
    requires
        field_conforms(field, content),
    ensures
        encode_field(field, content, order).len() == field.size(),
{
    match content {
        Content::Scalar(v) => {
            lemma_word_round_trip(v, field.width(), order);
            assert(field.width() * 1 == field.width());
        },
        Content::Array(vs) => {
            lemma_encode_elems_len(vs, field.width(), order);
            assert(vs.len() * field.width() == field.width() * vs.len()) by (nonlinear_arith);
        },
    }
}

/// The bytes of the first `upto` fields of a conforming record end where the
/// next field starts.
pub proof fn lemma_encode_prefix_len(
    layout: Seq<FieldPlan>,
    values: Seq<Content>,
    upto: nat,
    order: Endian,
)
    requires
        conforms(layout, values),
        upto <= layout.len(),
    ensures
        encode_prefix(layout, values, upto, order).len() == offset_of(layout, upto as int),
    decreases upto,
{
    if upto > 0 {
        lemma_encode_prefix_len(layout, values, (upto - 1) as nat, order);
        assert(field_conforms(layout[upto - 1], values[upto - 1]));
        lemma_encode_field_len(layout[upto - 1], values[upto - 1], order);
    }
}

/// The bytes of fewer elements open the bytes of more.
pub proof fn lemma_encode_elems_extends(values: Seq<nat>, shorter: int, width: nat, order: Endian)
    requires
        0 <= shorter <= values.len(),
    ensures
        encode_elems(values.take(shorter), width, order).is_prefix_of(
            encode_elems(values, width, order),
        ),
    decreases values.len() - shorter,
{
    if shorter == values.len() {
        assert(values.take(shorter) =~= values);
    } else {
        let front = values.drop_last();
        lemma_encode_elems_extends(front, shorter, width, order);
        assert(front.take(shorter) =~= values.take(shorter));
    }
}

/// The bytes of fewer fields open the bytes of more.
pub proof fn lemma_encode_prefix_extends(
    layout: Seq<FieldPlan>,
    values: Seq<Content>,
    shorter: nat,
    longer: nat,
    order: Endian,
)
    requires
        shorter <= longer,
    ensures
        encode_prefix(layout, values, shorter, order).is_prefix_of(
            encode_prefix(layout, values, longer, order),
        ),
    decreases longer - shorter,
{
    if shorter < longer {
        lemma_encode_prefix_extends(layout, values, shorter, (longer - 1) as nat, order);
    }
}

/// Overwriting a buffer with one run and then with a second run right behind
/// it is overwriting it with both runs at once.
pub proof fn lemma_splice_append(bytes: Seq<u8>, at: int, first: Seq<u8>, second: Seq<u8>)
    requires
        0 <= at,
    ensures
        splice(splice(bytes, at, first), at + first.len(), second) == splice(
            bytes,
            at,
            first + second,
        ),
{
    assert(splice(splice(bytes, at, first), at + first.len(), second) =~= splice(
        bytes,
        at,
        first + second,
    ));
}

/// Overwriting with nothing changes nothing.
pub proof fn lemma_splice_nothing(bytes: Seq<u8>, at: int)
    ensures
        splice(bytes, at, Seq::empty()) == bytes,
{
    assert(splice(bytes, at, Seq::empty()) =~= bytes);
}

} // verus!
