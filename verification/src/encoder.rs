//! The checked conversion to bytes: a record is written field by field and
//! the first access that does not fit fails the whole conversion, with what
//! was written before it left in the buffer.

use crate::access::write_word;
use crate::codec::{
    checked_outcome, encode_elems, encode_prefix, encode_record, encoded_buffer,
    lemma_encode_elems_extends, lemma_encode_elems_len, lemma_encode_prefix_extends,
    lemma_encode_prefix_len, lemma_splice_append, lemma_splice_nothing,
};
use crate::failure::Failure;
use crate::layout::{first_stuck, offset_of, stuck_in_field};
use crate::primitive::splice;
use crate::schema::{FieldPlan, Strategy};
use crate::value::{accepts, conforms, field_conforms, Content, FieldValue, Record};
use crate::word::{lemma_word_round_trip, word_bytes, word_limit, Endian};
use vstd::prelude::*;

verus! {

/// The procedure that writes one record type into bytes, with every access
/// checked.
pub struct Encoder {
    record: String,
    fields: Vec<FieldPlan>,
}

impl Encoder {
    #[verifier::type_invariant]
    spec fn inv(self) -> bool {
        self.fields@.len() > 0
    }

    /// The layout the procedure was generated for.
    pub closed spec fn layout(&self) -> Seq<FieldPlan> {
        self.fields@
    }

    /// The name of the record type, as a mathematical value.
    pub closed spec fn record_name(&self) -> Seq<char> {
        self.record@
    }

    /// Builds the procedure for a record named `record` with a planned,
    /// non-empty list of fields.
    pub(crate) fn new(record: String, fields: Vec<FieldPlan>) -> (e: Encoder)
        requires
            fields@.len() > 0,
        ensures
            e.layout() == fields@,
            e.record_name() == record@,
    {
        Encoder { record, fields }
    }

    /// The name of the record type.
    pub fn record(&self) -> (name: &String)
        ensures
            name@ == self.record_name(),
    {
        &self.record
    }

    /// The planned fields, in declaration order; there is at least one.
    pub fn fields(&self) -> (fields: &Vec<FieldPlan>)
        ensures
            fields@ == self.layout(),
            fields@.len() > 0,
    {
        proof {
            use_type_invariant(self);
        }
        &self.fields
    }

    /// Whether `record` is a value of the record type this procedure writes.
    pub fn accepts(&self, record: &Record) -> (b: bool)
        ensures
            b == conforms(self.layout(), record@),
    {
        accepts(&self.fields, record)
    }

    /// Writes `record` into `dst`, starting at `offset`. Succeeds when no
    /// access is stuck, and then returns the number of bytes written, which
    /// is the record's size; otherwise fails with the failure of the first
    /// access that does not fit. Either way the bytes of the record are in the
    /// buffer as far as the procedure got, and every other byte is as it was.
    pub fn try_encode(&self, record: Record, dst: &mut [u8], offset: usize, order: Endian) -> (r:
        Result<usize, Failure>)
        requires
            conforms(self.layout(), record@),
        ensures
            match r {
                Ok(written) => checked_outcome(
                    self.layout(),
                    offset as int,
                    old(dst)@.len() as int,
                ) == Ok::<nat, Failure>(written as nat),
                Err(f) => checked_outcome(self.layout(), offset as int, old(dst)@.len() as int)
                    == Err::<nat, Failure>(f),
            },
            final(dst)@ == encoded_buffer(self.layout(), record@, old(dst)@, offset as int, order),
    {
        let ghost layout = self.fields@;
        let ghost values = record@;
        let ghost before = dst@;
        let ghost len = dst@.len() as int;
        let ghost whole = encode_record(layout, values, order);
        let mut cursor: usize = offset;
        let mut i: usize = 0;
        proof {
            lemma_splice_nothing(before, offset as int);
            lemma_encode_prefix_len(layout, values, layout.len(), order);
        }
        while i < self.fields.len()
            invariant
                layout == self.fields@,
                values == record@,
                conforms(layout, values),
                whole == encode_record(layout, values, order),
                whole.len() == offset_of(layout, layout.len() as int),
                before == old(dst)@,
                len == before.len(),
                dst@.len() == len,
                i <= layout.len(),
                cursor == offset + offset_of(layout, i as int),
                first_stuck(layout, 0, offset as int, len) == first_stuck(
                    layout,
                    i as int,
                    cursor as int,
                    len,
                ),
                dst@ == splice(before, offset as int, encode_prefix(layout, values, i as nat, order)),
            decreases layout.len() - i,
        {
            let field = &self.fields[i];
            let ghost w = field.width();
            let ghost field_start = cursor as int;
            let ghost done = encode_prefix(layout, values, i as nat, order);
            proof {
                lemma_encode_prefix_len(layout, values, i as nat, order);
                lemma_encode_prefix_len(layout, values, (i + 1) as nat, order);
                lemma_encode_prefix_extends(layout, values, (i + 1) as nat, layout.len(), order);
                assert(field_conforms(layout[i as int], values[i as int]));
                assert(values[i as int] == record.fields@[i as int]@);
            }
            match (&field.strategy, &record.fields[i]) {
                (Strategy::Scalar, FieldValue::Scalar(bits)) => {
                    assert(stuck_in_field(cursor as int + w, w as int, 0, len) is None);
                    proof {
                        lemma_word_round_trip(*bits as nat, w, order);
                        lemma_splice_append(
                            before,
                            offset as int,
                            done,
                            word_bytes(*bits as nat, w, order),
                        );
                    }
                    match write_word(dst, *bits, &mut cursor, field.ty, order) {
                        Err(f) => {
                            assert(whole.take(done.len() as int) =~= done);
                            return Err(f);
                        },
                        Ok(_) => {
                            assert(w * 1 == w);
                        },
                    }
                },
                (Strategy::Array(n), FieldValue::Array(elems)) => {
                    let ghost all = elems@.map_values(|v: u64| v as nat);
                    let mut k: usize = 0;
                    proof {
                        assert(all.take(0) =~= Seq::<nat>::empty());
                        assert(done + Seq::<u8>::empty() =~= done);
                    }
                    while k < elems.len()
                        invariant
                            layout == self.fields@,
                            values == record@,
                            whole == encode_record(layout, values, order),
                            before == old(dst)@,
                            len == before.len(),
                            dst@.len() == len,
                            i < layout.len(),
                            layout[i as int] == *field,
                            field.strategy == Strategy::Array(*n),
                            values[i as int] == Content::Array(all),
                            all == elems@.map_values(|v: u64| v as nat),
                            all.len() == *n,
                            forall|e: int| 0 <= e < all.len() ==> #[trigger] all[e] < word_limit(w),
                            done == encode_prefix(layout, values, i as nat, order),
                            done.len() == field_start - offset,
                            encode_prefix(layout, values, (i + 1) as nat, order).is_prefix_of(whole),
                            first_stuck(layout, 0, offset as int, len) == first_stuck(
                                layout,
                                i as int,
                                field_start,
                                len,
                            ),
                            w == field.ty.spec_width(),
                            w > 0,
                            k <= elems@.len(),
                            cursor == field_start + k * w,
                            stuck_in_field(field_start, w as int, *n as nat, len)
                                == stuck_in_field(cursor as int, w as int, (*n - k) as nat, len),
                            dst@ == splice(
                                before,
                                offset as int,
                                done + encode_elems(all.take(k as int), w, order),
                            ),
                        decreases elems@.len() - k,
                    {
                        let bits: u64 = elems[k];
                        let ghost part = encode_elems(all.take(k as int), w, order);
                        proof {
                            assert(all[k as int] == bits as nat);
                            lemma_word_round_trip(bits as nat, w, order);
                            lemma_encode_elems_len(all.take(k as int), w, order);
                            lemma_splice_append(
                                before,
                                offset as int,
                                done + part,
                                word_bytes(bits as nat, w, order),
                            );
                            assert(all.take(k + 1).drop_last() =~= all.take(k as int));
                            assert(encode_elems(all.take(k + 1), w, order) == part + word_bytes(
                                bits as nat,
                                w,
                                order,
                            ));
                            assert((done + part) + word_bytes(bits as nat, w, order) =~= done + (
                            part + word_bytes(bits as nat, w, order)));
                            assert((k + 1) * w == k * w + w) by (nonlinear_arith);
                        }
                        match write_word(dst, bits, &mut cursor, field.ty, order) {
                            Err(f) => {
                                proof {
                                    lemma_encode_elems_extends(all, k as int, w, order);
                                    assert(whole.take((done + part).len() as int) =~= done + part);
                                }
                                return Err(f);
                            },
                            Ok(_) => {},
                        }
                        k += 1;
                    }
                    proof {
                        assert(all.take(k as int) =~= all);
                        assert(w * *n == *n * w) by (nonlinear_arith);
                    }
                },
                _ => {
                    assert(false);
                },
            }
            i += 1;
        }
        proof {
            assert(whole.take(whole.len() as int) =~= whole);
        }
        Ok(cursor - offset)
    }
}

} // verus!
