//! The checked conversion from bytes: a record is rebuilt field by field and
//! the first access that does not fit fails the whole conversion.

use crate::access::read_word;
use crate::codec::{decode_field, decode_outcome, decode_record};
use crate::failure::Failure;
use crate::layout::{first_stuck, offset_of, stuck_in_field};
use crate::schema::{FieldPlan, Strategy};
use crate::value::{Content, FieldValue, Record};
use crate::word::{word_value, Endian};
use vstd::prelude::*;

verus! {

/// The procedure that rebuilds one record type from bytes, with every access
/// checked.
pub struct Decoder {
    record: String,
    fields: Vec<FieldPlan>,
}

impl Decoder {
    #[verifier::type_invariant]
    spec fn inv(self) -> bool {
        self.fields@.len() > 0
    }

    /// The layout the procedure was generated for.
    pub closed spec fn layout(&self) -> Seq<FieldPlan> {
        self.fields@
    }

    /// The name of the record type, as a mathematical value.
    pub closed spec fn record_name(&self) -> Seq<char> {
        self.record@
    }

    /// Builds the procedure for a record named `record` with a planned,
    /// non-empty list of fields.
    pub(crate) fn new(record: String, fields: Vec<FieldPlan>) -> (d: Decoder)
        requires
            fields@.len() > 0,
        ensures
            d.layout() == fields@,
            d.record_name() == record@,
    {
        Decoder { record, fields }
    }

    /// The name of the record type.
    pub fn record(&self) -> (name: &String)
        ensures
            name@ == self.record_name(),
    {
        &self.record
    }

    /// The planned fields, in declaration order; there is at least one.
    pub fn fields(&self) -> (fields: &Vec<FieldPlan>)
        ensures
            fields@ == self.layout(),
            fields@.len() > 0,
    {
        proof {
            use_type_invariant(self);
        }
        &self.fields
    }

    /// Rebuilds a record from `src`, starting at `offset`. Succeeds when no
    /// access is stuck, and then returns the record together with the number
    /// of bytes consumed, which is the record's size; otherwise fails with the
    /// failure of the first access that does not fit.
    pub fn try_decode(&self, src: &[u8], offset: usize, order: Endian) -> (r: Result<
        (Record, usize),
        Failure,
    >)
        ensures
            match r {
                Ok((record, consumed)) => decode_outcome(self.layout(), src@, offset as int, order)
                    == Ok::<(Seq<Content>, nat), Failure>((record@, consumed as nat)),
                Err(f) => decode_outcome(self.layout(), src@, offset as int, order) == Err::<
                    (Seq<Content>, nat),
                    Failure,
                >(f),
            },
    {
        let ghost layout = self.fields@;
        let ghost len = src@.len() as int;
        let mut cursor: usize = offset;
        let mut out: Vec<FieldValue> = Vec::new();
        let mut i: usize = 0;
        while i < self.fields.len()
            invariant
                layout == self.fields@,
                len == src@.len(),
                i <= layout.len(),
                cursor == offset + offset_of(layout, i as int),
                first_stuck(layout, 0, offset as int, len) == first_stuck(
                    layout,
                    i as int,
                    cursor as int,
                    len,
                ),
                out@.len() == i,
                forall|j: int|
                    0 <= j < i ==> (#[trigger] out@[j])@ == decode_field(
                        layout[j],
                        src@,
                        offset + offset_of(layout, j),
                        order,
                    ),
            decreases layout.len() - i,
        {
            let field = &self.fields[i];
            let ghost w = field.width() as int;
            let ghost field_start = cursor as int;
            match field.strategy {
                Strategy::Scalar => {
                    assert(stuck_in_field(cursor as int + w, w, 0, len) is None);
                    match read_word(src, &mut cursor, field.ty, order) {
                        Err(f) => {
                            return Err(f);
                        },
                        Ok(bits) => {
                            assert(w * 1 == w);
                            out.push(FieldValue::Scalar(bits));
                        },
                    }
                },
                Strategy::Array(n) => {
                    let mut elems: Vec<u64> = Vec::new();
                    let mut k: u64 = 0;
                    while k < n
                        invariant
                            layout == self.fields@,
                            len == src@.len(),
                            i < layout.len(),
                            layout[i as int] == *field,
                            field.strategy == Strategy::Array(n),
                            first_stuck(layout, 0, offset as int, len) == first_stuck(
                                layout,
                                i as int,
                                field_start,
                                len,
                            ),
                            w == field.ty.spec_width(),
                            w > 0,
                            k <= n,
                            cursor == field_start + k * w,
                            stuck_in_field(field_start, w, n as nat, len) == stuck_in_field(
                                cursor as int,
                                w,
                                (n - k) as nat,
                                len,
                            ),
                            elems@.len() == k,
                            forall|e: int|
                                0 <= e < k ==> (#[trigger] elems@[e]) as nat
                                    == word_value(
                                    src@.subrange(field_start + e * w, field_start + e * w + w),
                                    order,
                                ),
                        decreases n - k,
                    {
                        match read_word(src, &mut cursor, field.ty, order) {
                            Err(f) => {
                                return Err(f);
                            },
                            Ok(bits) => {
                                assert((k + 1) * w == k * w + w) by (nonlinear_arith);
                                elems.push(bits);
                            },
                        }
                        k += 1;
                    }
                    proof {
                        assert(elems@.map_values(|v: u64| v as nat) =~= Seq::new(
                            n as nat,
                            |e: int|
                                word_value(
                                    src@.subrange(field_start + e * w, field_start + e * w + w),
                                    order,
                                ),
                        ));
                        assert(w * n == n * w) by (nonlinear_arith);
                    }
                    out.push(FieldValue::Array(elems));
                },
            }
            i += 1;
        }
        let record = Record { fields: out };
        proof {
            assert(record@ =~= decode_record(layout, src@, offset as int, order));
        }
        Ok((record, cursor - offset))
    }
}

} // verus!
