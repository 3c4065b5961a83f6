//! The size procedure: the fixed number of bytes a record occupies.

use crate::layout::{lemma_offset_monotonic, offset_of, total_size};
use crate::schema::{FieldPlan, Strategy};
use crate::word::Endian;
use vstd::prelude::*;

verus! {

/// Adds up the sizes of the fields. Gives `None` when the sum is more than an
/// offset can count.
pub fn measure(fields: &Vec<FieldPlan>) -> (size: Option<usize>)
    ensures
        match size {
            Some(s) => s == total_size(fields@),
            None => total_size(fields@) > usize::MAX,
        },
{
    let mut sum: usize = 0;
    let mut i: usize = 0;
    while i < fields.len()
        invariant
            i <= fields.len(),
            sum == offset_of(fields@, i as int),
        decreases fields.len() - i,
    {
        let width: u128 = fields[i].ty.width() as u128;
        let count: u128 = match fields[i].strategy {
            Strategy::Scalar => 1,
            Strategy::Array(n) => n as u128,
        };
        assert(width * count <= 8 * 0xffff_ffff_ffff_ffff) by (nonlinear_arith)
            requires
                0 <= width <= 8,
                0 <= count <= 0xffff_ffff_ffff_ffff,
        ;
        let next: u128 = sum as u128 + width * count;
        if next > usize::MAX as u128 {
            proof {
                lemma_offset_monotonic(fields@, i + 1, fields@.len() as int);
            }
            return None;
        }
        sum = next as usize;
        i += 1;
    }
    Some(sum)
}

/// The procedure that tells the size of one record type.
pub struct Sizer {
    record: String,
    fields: Vec<FieldPlan>,
    size: usize,
}

impl Sizer {
    #[verifier::type_invariant]
    spec fn inv(self) -> bool {
        self.fields@.len() > 0 && self.size == total_size(self.fields@)
    }

    /// The layout the procedure was generated for.
    pub closed spec fn layout(&self) -> Seq<FieldPlan> {
        self.fields@
    }

    /// The name of the record type, as a mathematical value.
    pub closed spec fn record_name(&self) -> Seq<char> {
        self.record@
    }

    /// Builds the procedure for a record named `record` with a planned,
    /// non-empty list of fields, unless the record is too large to measure.
    pub(crate) fn new(record: String, fields: Vec<FieldPlan>) -> (s: Option<Sizer>)
        requires
            fields@.len() > 0,
        ensures
            match s {
                Some(s) => s.layout() == fields@ && s.record_name() == record@ && total_size(
                    fields@,
                ) <= usize::MAX,
                None => total_size(fields@) > usize::MAX,
            },
    {
        match measure(&fields) {
            Some(size) => Some(Sizer { record, fields, size }),
            None => None,
        }
    }

    /// The name of the record type.
    pub fn record(&self) -> (name: &String)
        ensures
            name@ == self.record_name(),
    {
        &self.record
    }

    /// The planned fields, in declaration order; there is at least one.
    pub fn fields(&self) -> (fields: &Vec<FieldPlan>)
        ensures
            fields@ == self.layout(),
            fields@.len() > 0,
    {
        proof {
            use_type_invariant(self);
        }
        &self.fields
    }

    /// The number of bytes the record occupies: the sum of its fields' sizes,
    /// whatever the context.
    pub fn fixed_size(&self, _order: Endian) -> (size: usize)
        ensures
            size == total_size(self.layout()),
    {
        proof {
            use_type_invariant(self);
        }
        self.size
    }
}

} // verus!
