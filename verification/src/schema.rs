//! Record declarations as the schema extractor hands them over, and the
//! planner that decides how each field is accessed.

use crate::scalar::{resolve_name, ScalarType};
use vstd::prelude::*;

verus! {

/// The length of an array field as it was written.
#[derive(Clone, Copy, Debug, PartialEq, Eq, Structural)]
pub enum ArrayLength {
    /// A literal integer.
    Literal(u64),
    /// Any other form: a computed expression, a named constant, a length that
    /// depends on a type parameter.
    Computed,
}

/// One field of a record declaration. For an array field `ty` names the
/// element type.
#[derive(Clone, Debug, PartialEq, Eq)]
pub struct FieldDecl {
    pub name: String,
    pub ty: String,
    pub array_length: Option<ArrayLength>,
}

/// What kind of type a declaration declares.
#[derive(Clone, Debug, PartialEq, Eq)]
pub enum Body {
    /// A struct with named fields, in declaration order.
    Struct(Vec<FieldDecl>),
    /// A struct with positional fields.
    Tuple,
    /// A struct without fields of either kind.
    Unit,
    /// A type with variant forms.
    Enum,
}

/// A type declaration to generate procedures for.
#[derive(Clone, Debug, PartialEq, Eq)]
pub struct RecordDecl {
    pub name: String,
    pub body: Body,
}

/// Why no procedure can be generated for a declaration.
#[derive(Clone, Copy, Debug, PartialEq, Eq, Structural)]
pub enum GenError {
    /// The declaration is not a struct.
    NotAStruct,
    /// The declaration is a struct without named fields.
    NotARegularStruct,
    /// The struct has no field.
    EmptyRecord,
    /// The array length of the field at this index is not a literal integer.
    BadArraySize { field: usize },
    /// The type of the field at this index is no fixed-width scalar.
    UnsupportedType { field: usize },
    /// The record takes more bytes than an offset can count.
    TooLarge,
}

/// How one field is read or written.
#[derive(Clone, Copy, Debug, PartialEq, Eq, Structural)]
pub enum Strategy {
    /// One access of the field's width.
    Scalar,
    /// As many accesses of the element's width as the array has elements,
    /// index 0 first.
    Array(u64),
}

/// A field with its type resolved and its strategy chosen.
#[derive(Clone, Debug, PartialEq, Eq)]
pub struct FieldPlan {
    pub name: String,
    pub ty: ScalarType,
    pub strategy: Strategy,
}

impl FieldPlan {
    /// The width of one access to the field.
    pub open spec fn width(self) -> nat {
        self.ty.spec_width()
    }

    /// The number of accesses the field takes.
    pub open spec fn count(self) -> nat {
        match self.strategy {
            Strategy::Scalar => 1,
            Strategy::Array(n) => n as nat,
        }
    }

    /// The number of bytes the field occupies.
    pub open spec fn size(self) -> nat {
        self.width() * self.count()
    }
}

/// The plan for the field `decl`, which stands at index `at` of its record:
/// a field with an array length is an array, any other a scalar.
pub open spec fn plan_field_spec(decl: FieldDecl, at: usize) -> Result<FieldPlan, GenError> {
    if decl.array_length == Some(ArrayLength::Computed) {
        Err(GenError::BadArraySize { field: at })
    } else {
        match resolve_name(decl.ty@) {
            None => Err(GenError::UnsupportedType { field: at }),
            Some(ty) => Ok(
                FieldPlan {
                    name: decl.name,
                    ty,
                    strategy: match decl.array_length {
                        Some(ArrayLength::Literal(n)) => Strategy::Array(n),
                        _ => Strategy::Scalar,
                    },
                },
            ),
        }
    }
}

/// The plans for the first `upto` fields, or the fault of the first field
/// among them that has one.
pub open spec fn plan_prefix(fields: Seq<FieldDecl>, upto: nat) -> Result<Seq<FieldPlan>, GenError>
    decreases upto,
{
    if upto == 0 {
        Ok(Seq::empty())
    } else {
        match plan_prefix(fields, (upto - 1) as nat) {
            Err(e) => Err(e),
            Ok(plans) => match plan_field_spec(fields[upto - 1], (upto - 1) as usize) {
                Err(e) => Err(e),
                Ok(plan) => Ok(plans.push(plan)),
            },
        }
    }
}

/// The layout of a record with these fields: one plan per field, in
/// declaration order.
pub open spec fn plan_fields_spec(fields: Seq<FieldDecl>) -> Result<Seq<FieldPlan>, GenError> {
    if fields.len() == 0 {
        Err(GenError::EmptyRecord)
    } else {
        plan_prefix(fields, fields.len())
    }
}

/// The layout of the record that `decl` declares.
pub open spec fn plan_record_spec(decl: RecordDecl) -> Result<Seq<FieldPlan>, GenError> {
    match decl.body {
        Body::Struct(fields) => plan_fields_spec(fields@),
        Body::Tuple | Body::Unit => Err(GenError::NotARegularStruct),
        Body::Enum => Err(GenError::NotAStruct),
    }
}

/// A successful plan has one entry per field.
pub proof fn lemma_plan_prefix_len(fields: Seq<FieldDecl>, upto: nat)
    ensures
        plan_prefix(fields, upto) matches Ok(plans) ==> plans.len() == upto,
    decreases upto,
{
    if upto > 0 {
        lemma_plan_prefix_len(fields, (upto - 1) as nat);
    }
}

/// Decides how the field `decl`, at index `at` of its record, is accessed.
pub fn plan_field(decl: &FieldDecl, at: usize) -> (r: Result<FieldPlan, GenError>)
    ensures
        r == plan_field_spec(*decl, at),
{
    match decl.array_length {
        Some(ArrayLength::Computed) => Err(GenError::BadArraySize { field: at }),
        Some(ArrayLength::Literal(n)) => match ScalarType::resolve(decl.ty.as_str()) {
            None => Err(GenError::UnsupportedType { field: at }),
            Some(ty) => Ok(FieldPlan { name: decl.name.clone(), ty, strategy: Strategy::Array(n) }),
        },
        None => match ScalarType::resolve(decl.ty.as_str()) {
            None => Err(GenError::UnsupportedType { field: at }),
            Some(ty) => Ok(FieldPlan { name: decl.name.clone(), ty, strategy: Strategy::Scalar }),
        },
    }
}

/// Plans every field of a record, in declaration order, and stops at the
/// first field that cannot be planned.
pub fn plan_fields(fields: &Vec<FieldDecl>) -> (r: Result<Vec<FieldPlan>, GenError>)
    ensures
        match r {
            Ok(plans) => plan_fields_spec(fields@) == Ok::<Seq<FieldPlan>, GenError>(plans@)
                && plans@.len() == fields@.len() && plans@.len() > 0,
            Err(e) => plan_fields_spec(fields@) == Err::<Seq<FieldPlan>, GenError>(e),
        },
{
    if fields.len() == 0 {
        return Err(GenError::EmptyRecord);
    }
    let mut plans: Vec<FieldPlan> = Vec::new();
    let mut i: usize = 0;
    while i < fields.len()
        invariant
            i <= fields.len(),
            plan_prefix(fields@, i as nat) == Ok::<Seq<FieldPlan>, GenError>(plans@),
        decreases fields.len() - i,
    {
        match plan_field(&fields[i], i) {
            Err(e) => {
                proof {
                    lemma_plan_fault_stays(fields@, (i + 1) as nat, fields@.len());
                }
                return Err(e);
            },
            Ok(plan) => {
                plans.push(plan);
            },
        }
        i += 1;
    }
    proof {
        lemma_plan_prefix_len(fields@, fields@.len());
    }
    Ok(plans)
}

/// A fault among the first `upto` fields is the fault of every longer prefix.
pub proof fn lemma_plan_fault_stays(fields: Seq<FieldDecl>, upto: nat, longer: nat)
    requires
        upto <= longer,
        plan_prefix(fields, upto) is Err,
    ensures
        plan_prefix(fields, longer) == plan_prefix(fields, upto),
    decreases longer - upto,
{
    if upto < longer {
        lemma_plan_fault_stays(fields, upto, (longer - 1) as nat);
    }
}

} // verus!
