//! The generators: from a record declaration to the procedures for it.
//!
//! Every generator runs the planner over the fields in declaration order and
//! fails with the fault of the first field that cannot be planned. Nothing is
//! generated for a declaration that is not a struct with named fields, nor
//! for a struct without fields.

use crate::decoder::Decoder;
use crate::encoder::Encoder;
use crate::layout::total_size;
use crate::schema::{
    plan_fields, plan_fields_spec, plan_record_spec, Body, FieldDecl, FieldPlan, GenError,
    RecordDecl,
};
use crate::sizer::Sizer;
use crate::unchecked::{layout_of, steps_advance_by_width, Step, UncheckedDecoder, UncheckedEncoder};
use vstd::prelude::*;

verus! {

/// The layout a size procedure is generated for: the planned layout, unless
/// the record is too large to measure.
pub open spec fn measured_plan(plan: Result<Seq<FieldPlan>, GenError>) -> Result<
    Seq<FieldPlan>,
    GenError,
> {
    match plan {
        Ok(layout) => if total_size(layout) > usize::MAX {
            Err(GenError::TooLarge)
        } else {
            Ok(layout)
        },
        Err(e) => Err(e),
    }
}

/// Turns planned fields into the steps of an unchecked procedure: each step
/// advances by the width of its field.
pub fn steps_for(plans: &Vec<FieldPlan>) -> (steps: Vec<Step>)
    ensures
        layout_of(steps@) == plans@,
        steps_advance_by_width(steps@),
{
    let mut steps: Vec<Step> = Vec::new();
    let mut i: usize = 0;
    while i < plans.len()
        invariant
            i <= plans.len(),
            steps@.len() == i,
            steps_advance_by_width(steps@),
            forall|j: int| 0 <= j < i ==> (#[trigger] steps@[j]).field == plans@[j],
        decreases plans.len() - i,
    {
        let plan = &plans[i];
        let field = FieldPlan { name: plan.name.clone(), ty: plan.ty, strategy: plan.strategy };
        let advance: usize = plan.ty.width();
        steps.push(Step { field, advance });
        i += 1;
    }
    assert(layout_of(steps@) =~= plans@);
    steps
}

/// Generates the checked conversion from bytes for a struct named `name`
/// with the named fields `fields`.
pub fn impl_struct(name: &String, fields: &Vec<FieldDecl>) -> (r: Result<Decoder, GenError>)
    ensures
        match r {
            Ok(d) => plan_fields_spec(fields@) == Ok::<Seq<FieldPlan>, GenError>(d.layout())
                && d.record_name() == name@,
            Err(e) => plan_fields_spec(fields@) == Err::<Seq<FieldPlan>, GenError>(e),
        },
{
    match plan_fields(fields) {
        Ok(plans) => Ok(Decoder::new(name.clone(), plans)),
        Err(e) => Err(e),
    }
}

/// Generates the checked conversion from bytes for a declaration, which must
/// be a struct with named fields.
pub fn impl_try_from_ctx(decl: &RecordDecl) -> (r: Result<Decoder, GenError>)
    ensures
        match r {
            Ok(d) => plan_record_spec(*decl) == Ok::<Seq<FieldPlan>, GenError>(d.layout())
                && d.record_name() == decl.name@,
            Err(e) => plan_record_spec(*decl) == Err::<Seq<FieldPlan>, GenError>(e),
        },
{
    match &decl.body {
        Body::Struct(fields) => impl_struct(&decl.name, fields),
        Body::Tuple => Err(GenError::NotARegularStruct),
        Body::Unit => Err(GenError::NotARegularStruct),
        Body::Enum => Err(GenError::NotAStruct),
    }
}

/// Derives the checked conversion from bytes for `decl`.
pub fn derive_pread(decl: &RecordDecl) -> (r: Result<Decoder, GenError>)
    ensures
        match r {
            Ok(d) => plan_record_spec(*decl) == Ok::<Seq<FieldPlan>, GenError>(d.layout())
                && d.record_name() == decl.name@,
            Err(e) => plan_record_spec(*decl) == Err::<Seq<FieldPlan>, GenError>(e),
        },
{
    impl_try_from_ctx(decl)
}

/// Generates the checked conversion to bytes for a struct named `name` with
/// the named fields `fields`.
pub fn impl_try_into_ctx(name: &String, fields: &Vec<FieldDecl>) -> (r: Result<Encoder, GenError>)
    ensures
        match r {
            Ok(e) => plan_fields_spec(fields@) == Ok::<Seq<FieldPlan>, GenError>(e.layout())
                && e.record_name() == name@,
            Err(e) => plan_fields_spec(fields@) == Err::<Seq<FieldPlan>, GenError>(e),
        },
{
    match plan_fields(fields) {
        Ok(plans) => Ok(Encoder::new(name.clone(), plans)),
        Err(e) => Err(e),
    }
}

/// Generates the checked conversion to bytes for a declaration, which must
/// be a struct with named fields.
pub fn impl_pwrite(decl: &RecordDecl) -> (r: Result<Encoder, GenError>)
    ensures
        match r {
            Ok(e) => plan_record_spec(*decl) == Ok::<Seq<FieldPlan>, GenError>(e.layout())
                && e.record_name() == decl.name@,
            Err(e) => plan_record_spec(*decl) == Err::<Seq<FieldPlan>, GenError>(e),
        },
{
    match &decl.body {
        Body::Struct(fields) => impl_try_into_ctx(&decl.name, fields),
        Body::Tuple => Err(GenError::NotARegularStruct),
        Body::Unit => Err(GenError::NotARegularStruct),
        Body::Enum => Err(GenError::NotAStruct),
    }
}

/// Derives the checked conversion to bytes for `decl`.
pub fn derive_pwrite(decl: &RecordDecl) -> (r: Result<Encoder, GenError>)
    ensures
        match r {
            Ok(e) => plan_record_spec(*decl) == Ok::<Seq<FieldPlan>, GenError>(e.layout())
                && e.record_name() == decl.name@,
            Err(e) => plan_record_spec(*decl) == Err::<Seq<FieldPlan>, GenError>(e),
        },
{
    impl_pwrite(decl)
}

/// Generates the size procedure for a struct named `name` with the named
/// fields `fields`. Fails with `TooLarge` when the fields can be planned and
/// their sizes add up to more than an offset can count.
pub fn size_with(name: &String, fields: &Vec<FieldDecl>) -> (r: Result<Sizer, GenError>)
    ensures
        match r {
            Ok(s) => measured_plan(plan_fields_spec(fields@)) == Ok::<Seq<FieldPlan>, GenError>(
                s.layout(),
            ) && s.record_name() == name@,
            Err(e) => measured_plan(plan_fields_spec(fields@)) == Err::<Seq<FieldPlan>, GenError>(
                e,
            ),
        },
{
    match plan_fields(fields) {
        Ok(plans) => match Sizer::new(name.clone(), plans) {
            Some(s) => Ok(s),
            None => Err(GenError::TooLarge),
        },
        Err(e) => Err(e),
    }
}

/// Generates the size procedure for a declaration, which must be a struct
/// with named fields.
pub fn impl_size_with(decl: &RecordDecl) -> (r: Result<Sizer, GenError>)
    ensures
        match r {
            Ok(s) => measured_plan(plan_record_spec(*decl)) == Ok::<Seq<FieldPlan>, GenError>(
                s.layout(),
            ) && s.record_name() == decl.name@,
            Err(e) => measured_plan(plan_record_spec(*decl)) == Err::<Seq<FieldPlan>, GenError>(e),
        },
{
    match &decl.body {
        Body::Struct(fields) => size_with(&decl.name, fields),
        Body::Tuple => Err(GenError::NotARegularStruct),
        Body::Unit => Err(GenError::NotARegularStruct),
        Body::Enum => Err(GenError::NotAStruct),
    }
}

/// Derives the size procedure for `decl`.
pub fn derive_sizewith(decl: &RecordDecl) -> (r: Result<Sizer, GenError>)
    ensures
        match r {
            Ok(s) => measured_plan(plan_record_spec(*decl)) == Ok::<Seq<FieldPlan>, GenError>(
                s.layout(),
            ) && s.record_name() == decl.name@,
            Err(e) => measured_plan(plan_record_spec(*decl)) == Err::<Seq<FieldPlan>, GenError>(e),
        },
{
    impl_size_with(decl)
}

/// Generates the unchecked conversion from bytes for a struct named `name`
/// with the named fields `fields`.
pub fn impl_cread_struct(name: &String, fields: &Vec<FieldDecl>) -> (r: Result<
    UncheckedDecoder,
    GenError,
>)
    ensures
        match r {
            Ok(d) => plan_fields_spec(fields@) == Ok::<Seq<FieldPlan>, GenError>(d.layout())
                && d.record_name() == name@,
            Err(e) => plan_fields_spec(fields@) == Err::<Seq<FieldPlan>, GenError>(e),
        },
{
    match plan_fields(fields) {
        Ok(plans) => Ok(UncheckedDecoder::new(name.clone(), steps_for(&plans))),
        Err(e) => Err(e),
    }
}

/// Generates the unchecked conversion from bytes for a declaration, which
/// must be a struct with named fields.
pub fn impl_from_ctx(decl: &RecordDecl) -> (r: Result<UncheckedDecoder, GenError>)
    ensures
        match r {
            Ok(d) => plan_record_spec(*decl) == Ok::<Seq<FieldPlan>, GenError>(d.layout())
                && d.record_name() == decl.name@,
            Err(e) => plan_record_spec(*decl) == Err::<Seq<FieldPlan>, GenError>(e),
        },
{
    match &decl.body {
        Body::Struct(fields) => impl_cread_struct(&decl.name, fields),
        Body::Tuple => Err(GenError::NotARegularStruct),
        Body::Unit => Err(GenError::NotARegularStruct),
        Body::Enum => Err(GenError::NotAStruct),
    }
}

/// Derives the unchecked conversion from bytes for `decl`.
pub fn derive_ioread(decl: &RecordDecl) -> (r: Result<UncheckedDecoder, GenError>)
    ensures
        match r {
            Ok(d) => plan_record_spec(*decl) == Ok::<Seq<FieldPlan>, GenError>(d.layout())
                && d.record_name() == decl.name@,
            Err(e) => plan_record_spec(*decl) == Err::<Seq<FieldPlan>, GenError>(e),
        },
{
    impl_from_ctx(decl)
}

/// Generates the unchecked conversion to bytes for a struct named `name`
/// with the named fields `fields`.
pub fn impl_into_ctx(name: &String, fields: &Vec<FieldDecl>) -> (r: Result<
    UncheckedEncoder,
    GenError,
>)
    ensures
        match r {
            Ok(e) => plan_fields_spec(fields@) == Ok::<Seq<FieldPlan>, GenError>(e.layout())
                && e.record_name() == name@,
            Err(e) => plan_fields_spec(fields@) == Err::<Seq<FieldPlan>, GenError>(e),
        },
{
    match plan_fields(fields) {
        Ok(plans) => Ok(UncheckedEncoder::new(name.clone(), steps_for(&plans))),
        Err(e) => Err(e),
    }
}

/// Generates the unchecked conversion to bytes for a declaration, which must
/// be a struct with named fields.
pub fn impl_iowrite(decl: &RecordDecl) -> (r: Result<UncheckedEncoder, GenError>)
    ensures
        match r {
            Ok(e) => plan_record_spec(*decl) == Ok::<Seq<FieldPlan>, GenError>(e.layout())
                && e.record_name() == decl.name@,
            Err(e) => plan_record_spec(*decl) == Err::<Seq<FieldPlan>, GenError>(e),
        },
{
    match &decl.body {
        Body::Struct(fields) => impl_into_ctx(&decl.name, fields),
        Body::Tuple => Err(GenError::NotARegularStruct),
        Body::Unit => Err(GenError::NotARegularStruct),
        Body::Enum => Err(GenError::NotAStruct),
    }
}

/// Derives the unchecked conversion to bytes for `decl`.
pub fn derive_iowrite(decl: &RecordDecl) -> (r: Result<UncheckedEncoder, GenError>)
    ensures
        match r {
            Ok(e) => plan_record_spec(*decl) == Ok::<Seq<FieldPlan>, GenError>(e.layout())
                && e.record_name() == decl.name@,
            Err(e) => plan_record_spec(*decl) == Err::<Seq<FieldPlan>, GenError>(e),
        },
{
    impl_iowrite(decl)
}

} // verus!
