//! The unchecked conversions: the same traversal as the checked ones, on
//! primitives that report no failure. The caller vouches for the buffer's
//! size, and the procedures keep the cursor themselves.

use crate::access::{read_word_unchecked, write_word_unchecked};
use crate::codec::{
    decode_field, decode_record, encode_elems, encode_prefix, encode_record,
    lemma_encode_elems_len, lemma_encode_prefix_len, lemma_splice_append, lemma_splice_nothing,
};
use crate::layout::{lemma_field_within, offset_of, total_size};
use crate::primitive::splice;
use crate::schema::{FieldPlan, Strategy};
use crate::value::{conforms, field_accepts, field_conforms, FieldValue, Record};
use crate::word::{lemma_word_round_trip, word_bytes, word_limit, word_value, Endian};
use vstd::prelude::*;

verus! {

/// One field of an unchecked procedure: how the field is accessed, and by how
/// much the procedure advances its cursor after each access.
#[derive(Clone, Debug, PartialEq, Eq)]
pub struct Step {
    pub field: FieldPlan,
    pub advance: usize,
}

/// The layout that a list of steps walks through.
pub open spec fn layout_of(steps: Seq<Step>) -> Seq<FieldPlan> {
    steps.map_values(|s: Step| s.field)
}

/// Whether every step advances by the width of its field.
pub open spec fn steps_advance_by_width(steps: Seq<Step>) -> bool {
    forall|i: int| 0 <= i < steps.len() ==> (#[trigger] steps[i]).advance == steps[i].field.width()
}

/// The procedure that rebuilds one record type from bytes without checking
/// any access.
pub struct UncheckedDecoder {
    record: String,
    steps: Vec<Step>,
}

impl UncheckedDecoder {
    #[verifier::type_invariant]
    spec fn inv(self) -> bool {
        self.steps@.len() > 0 && steps_advance_by_width(self.steps@)
    }

    /// The layout the procedure was generated for.
    pub closed spec fn layout(&self) -> Seq<FieldPlan> {
        layout_of(self.steps@)
    }

    /// The name of the record type, as a mathematical value.
    pub closed spec fn record_name(&self) -> Seq<char> {
        self.record@
    }

    /// Builds the procedure for a record named `record` from a non-empty list
    /// of steps that advance by the widths of their fields.
    pub(crate) fn new(record: String, steps: Vec<Step>) -> (d: UncheckedDecoder)
        requires
            steps@.len() > 0,
            steps_advance_by_width(steps@),
        ensures
            d.layout() == layout_of(steps@),
            d.record_name() == record@,
    {
        UncheckedDecoder { record, steps }
    }

    /// The name of the record type.
    pub fn record(&self) -> (name: &String)
        ensures
            name@ == self.record_name(),
    {
        &self.record
    }

    /// The steps, in declaration order; there is at least one, and each
    /// advances by the width of its field.
    pub fn steps(&self) -> (steps: &Vec<Step>)
        ensures
            layout_of(steps@) == self.layout(),
            steps@.len() > 0,
            steps_advance_by_width(steps@),
    {
        proof {
            use_type_invariant(self);
        }
        &self.steps
    }

    /// Rebuilds a record from the start of `src`, which must hold the whole
    /// record.
    pub fn decode_unchecked(&self, src: &[u8], order: Endian) -> (record: Record)
        requires
            total_size(self.layout()) <= src@.len(),
        ensures
            record@ == decode_record(self.layout(), src@, 0, order),
    {
        proof {
            use_type_invariant(self);
            assert(src@.len() == src.len());
        }
        let ghost layout = layout_of(self.steps@);
        let mut cursor: usize = 0;
        let mut out: Vec<FieldValue> = Vec::new();
        let mut i: usize = 0;
        while i < self.steps.len()
            invariant
                layout == layout_of(self.steps@),
                steps_advance_by_width(self.steps@),
                total_size(layout) <= src@.len() <= usize::MAX,
                i <= layout.len(),
                cursor == offset_of(layout, i as int),
                out@.len() == i,
                forall|j: int|
                    0 <= j < i ==> (#[trigger] out@[j])@ == decode_field(
                        layout[j],
                        src@,
                        offset_of(layout, j) as int,
                        order,
                    ),
            decreases layout.len() - i,
        {
            let step = &self.steps[i];
            let ghost w = step.field.width() as int;
            let ghost field_start = cursor as int;
            proof {
                assert(*step == self.steps@[i as int]);
                assert(step.advance == step.field.width());
                assert(layout[i as int] == step.field);
                lemma_field_within(layout, i as int);
            }
            match step.field.strategy {
                Strategy::Scalar => {
                    assert(w * 1 == w);
                    let bits: u64 = read_word_unchecked(src, cursor, step.field.ty, order);
                    cursor += step.advance;
                    out.push(FieldValue::Scalar(bits));
                },
                Strategy::Array(n) => {
                    let mut elems: Vec<u64> = Vec::new();
                    let mut k: u64 = 0;
                    while k < n
                        invariant
                            w == step.field.ty.spec_width(),
                            w == step.advance,
                            w > 0,
                            k <= n,
                            field_start + w * n <= src@.len() <= usize::MAX,
                            cursor == field_start + k * w,
                            elems@.len() == k,
                            forall|e: int|
                                0 <= e < k ==> (#[trigger] elems@[e]) as nat == word_value(
                                    src@.subrange(field_start + e * w, field_start + e * w + w),
                                    order,
                                ),
                        decreases n - k,
                    {
                        assert((k + 1) * w == k * w + w && (k + 1) * w <= w * n)
                            by (nonlinear_arith)
                            requires
                                k < n,
                                w > 0,
                        ;
                        let bits: u64 = read_word_unchecked(src, cursor, step.field.ty, order);
                        cursor += step.advance;
                        elems.push(bits);
                        k += 1;
                    }
                    proof {
                        assert(elems@.map_values(|v: u64| v as nat) =~= Seq::new(
                            n as nat,
                            |e: int|
                                word_value(
                                    src@.subrange(field_start + e * w, field_start + e * w + w),
                                    order,
                                ),
                        ));
                        assert(w * n == n * w) by (nonlinear_arith);
                    }
                    out.push(FieldValue::Array(elems));
                },
            }
            i += 1;
        }
        let record = Record { fields: out };
        proof {
            assert(record@ =~= decode_record(layout, src@, 0, order));
        }
        record
    }
}

/// The procedure that writes one record type into bytes without checking any
/// access.
pub struct UncheckedEncoder {
    record: String,
    steps: Vec<Step>,
}

impl UncheckedEncoder {
    #[verifier::type_invariant]
    spec fn inv(self) -> bool {
        self.steps@.len() > 0 && steps_advance_by_width(self.steps@)
    }

    /// The layout the procedure was generated for.
    pub closed spec fn layout(&self) -> Seq<FieldPlan> {
        layout_of(self.steps@)
    }

    /// The name of the record type, as a mathematical value.
    pub closed spec fn record_name(&self) -> Seq<char> {
        self.record@
    }

    /// Builds the procedure for a record named `record` from a non-empty list
    /// of steps that advance by the widths of their fields.
    pub(crate) fn new(record: String, steps: Vec<Step>) -> (e: UncheckedEncoder)
        requires
            steps@.len() > 0,
            steps_advance_by_width(steps@),
        ensures
            e.layout() == layout_of(steps@),
            e.record_name() == record@,
    {
        UncheckedEncoder { record, steps }
    }

    /// The name of the record type.
    pub fn record(&self) -> (name: &String)
        ensures
            name@ == self.record_name(),
    {
        &self.record
    }

    /// The steps, in declaration order; there is at least one, and each
    /// advances by the width of its field.
    pub fn steps(&self) -> (steps: &Vec<Step>)
        ensures
            layout_of(steps@) == self.layout(),
            steps@.len() > 0,
            steps_advance_by_width(steps@),
    {
        proof {
            use_type_invariant(self);
        }
        &self.steps
    }

    /// Whether `record` is a value of the record type this procedure writes.
    pub fn accepts(&self, record: &Record) -> (b: bool)
        ensures
            b == conforms(self.layout(), record@),
    {
        if record.fields.len() != self.steps.len() {
            return false;
        }
        let mut i: usize = 0;
        while i < self.steps.len()
            invariant
                i <= self.steps@.len(),
                record.fields@.len() == self.steps@.len(),
                forall|j: int|
                    0 <= j < i ==> #[trigger] field_conforms(
                        layout_of(self.steps@)[j],
                        record@[j],
                    ),
            decreases self.steps@.len() - i,
        {
            if !field_accepts(&self.steps[i].field, &record.fields[i]) {
                assert(!field_conforms(layout_of(self.steps@)[i as int], record@[i as int]));
                return false;
            }
            i += 1;
        }
        true
    }

    /// Writes `record` at the start of `dst`, which must have room for the
    /// whole record. Every byte behind the record is as it was.
    pub fn encode_unchecked(&self, record: Record, dst: &mut [u8], order: Endian)
        requires
            conforms(self.layout(), record@),
            total_size(self.layout()) <= old(dst)@.len(),
        ensures
            final(dst)@ == splice(old(dst)@, 0, encode_record(self.layout(), record@, order)),
    {
        proof {
            use_type_invariant(self);
            assert(dst@.len() == dst.len());
        }
        let ghost layout = layout_of(self.steps@);
        let ghost values = record@;
        let ghost before = dst@;
        let mut cursor: usize = 0;
        let mut i: usize = 0;
        proof {
            lemma_splice_nothing(before, 0);
        }
        while i < self.steps.len()
            invariant
                layout == layout_of(self.steps@),
                steps_advance_by_width(self.steps@),
                values == record@,
                conforms(layout, values),
                before == old(dst)@,
                dst@.len() == before.len(),
                total_size(layout) <= before.len() <= usize::MAX,
                i <= layout.len(),
                cursor == offset_of(layout, i as int),
                dst@ == splice(before, 0, encode_prefix(layout, values, i as nat, order)),
            decreases layout.len() - i,
        {
            let step = &self.steps[i];
            let ghost w = step.field.width();
            let ghost field_start = cursor as int;
            let ghost done = encode_prefix(layout, values, i as nat, order);
            proof {
                assert(*step == self.steps@[i as int]);
                assert(step.advance == step.field.width());
                assert(layout[i as int] == step.field);
                lemma_field_within(layout, i as int);
                lemma_encode_prefix_len(layout, values, i as nat, order);
                assert(field_conforms(layout[i as int], values[i as int]));
                assert(values[i as int] == record.fields@[i as int]@);
            }
            match (&step.field.strategy, &record.fields[i]) {
                (Strategy::Scalar, FieldValue::Scalar(bits)) => {
                    proof {
                        assert(w * 1 == w);
                        lemma_word_round_trip(*bits as nat, w, order);
                        lemma_splice_append(before, 0, done, word_bytes(*bits as nat, w, order));
                    }
                    write_word_unchecked(dst, *bits, cursor, step.field.ty, order);
                    cursor += step.advance;
                },
                (Strategy::Array(n), FieldValue::Array(elems)) => {
                    let ghost all = elems@.map_values(|v: u64| v as nat);
                    let mut k: usize = 0;
                    proof {
                        assert(all.take(0) =~= Seq::<nat>::empty());
                        assert(done + Seq::<u8>::empty() =~= done);
                    }
                    while k < elems.len()
                        invariant
                            before == old(dst)@,
                            dst@.len() == before.len(),
                            all == elems@.map_values(|v: u64| v as nat),
                            all.len() == *n,
                            forall|e: int| 0 <= e < all.len() ==> #[trigger] all[e] < word_limit(w),
                            done.len() == field_start,
                            w == step.field.ty.spec_width(),
                            w == step.advance,
                            w > 0,
                            k <= elems@.len(),
                            field_start + w * *n <= before.len() <= usize::MAX,
                            cursor == field_start + k * w,
                            dst@ == splice(
                                before,
                                0,
                                done + encode_elems(all.take(k as int), w, order),
                            ),
                        decreases elems@.len() - k,
                    {
                        let bits: u64 = elems[k];
                        let ghost part = encode_elems(all.take(k as int), w, order);
                        proof {
                            assert(all[k as int] == bits as nat);
                            lemma_word_round_trip(bits as nat, w, order);
                            lemma_encode_elems_len(all.take(k as int), w, order);
                            lemma_splice_append(
                                before,
                                0,
                                done + part,
                                word_bytes(bits as nat, w, order),
                            );
                            assert(all.take(k + 1).drop_last() =~= all.take(k as int));
                            assert(encode_elems(all.take(k + 1), w, order) == part + word_bytes(
                                bits as nat,
                                w,
                                order,
                            ));
                            assert((done + part) + word_bytes(bits as nat, w, order) =~= done + (
                            part + word_bytes(bits as nat, w, order)));
                            assert((k + 1) * w == k * w + w && (k + 1) * w <= w * *n)
                                by (nonlinear_arith)
                                requires
                                    k < *n,
                                    w > 0,
                            ;
                        }
                        write_word_unchecked(dst, bits, cursor, step.field.ty, order);
                        cursor += step.advance;
                        k += 1;
                    }
                    proof {
                        assert(all.take(k as int) =~= all);
                        assert(w * *n == *n * w) by (nonlinear_arith);
                    }
                },
                _ => {
                    assert(false);
                },
            }
            i += 1;
        }
    }
}

} // verus!
