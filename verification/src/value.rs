//! Record values: what a decoder produces and an encoder consumes.

use crate::scalar::ScalarType;
use crate::schema::{FieldPlan, Strategy};
use crate::word::word_limit;
use vstd::prelude::*;

verus! {

/// The value of one field. A scalar is held as its bit pattern: a signed
/// integer as its two's complement, a float as its IEEE 754 bits.
#[derive(Clone, Debug, PartialEq, Eq)]
pub enum FieldValue {
    Scalar(u64),
    Array(Vec<u64>),
}

/// The value of a record: one value per field, in declaration order.
#[derive(Clone, Debug, PartialEq, Eq)]
pub struct Record {
    pub fields: Vec<FieldValue>,
}

/// What a field value holds, as a mathematical value.
pub ghost enum Content {
    Scalar(nat),
    Array(Seq<nat>),
}

impl View for FieldValue {
    type V = Content;

    open spec fn view(&self) -> Content {
        match self {
            FieldValue::Scalar(v) => Content::Scalar(*v as nat),
            FieldValue::Array(vs) => Content::Array(vs@.map_values(|v: u64| v as nat)),
        }
    }
}

impl View for Record {
    type V = Seq<Content>;

    open spec fn view(&self) -> Seq<Content> {
        self.fields@.map_values(|f: FieldValue| f@)
    }
}

/// Whether `content` is a value of the field `field`: of the field's shape,
/// with as many elements as the field has, each within the field's width.
pub open spec fn field_conforms(field: FieldPlan, content: Content) -> bool {
    match (field.strategy, content) {
        (Strategy::Scalar, Content::Scalar(v)) => v < word_limit(field.width()),
        (Strategy::Array(n), Content::Array(vs)) => vs.len() == n && forall|k: int|
            0 <= k < vs.len() ==> #[trigger] vs[k] < word_limit(field.width()),
        _ => false,
    }
}

/// Whether `values` is a value of the record laid out as `layout`.
pub open spec fn conforms(layout: Seq<FieldPlan>, values: Seq<Content>) -> bool {
    values.len() == layout.len() && forall|i: int|
        0 <= i < layout.len() ==> #[trigger] field_conforms(layout[i], values[i])
}

/// The limits of the four widths, written out.
pub proof fn lemma_word_limits()
    ensures
        word_limit(1) == 0x100,
        word_limit(2) == 0x1_0000,
        word_limit(4) == 0x1_0000_0000,
        word_limit(8) == 0x1_0000_0000_0000_0000,
{
    reveal_with_fuel(word_limit, 9);
}

/// Whether the bit pattern `bits` fits the width of `ty`.
pub fn fits(bits: u64, ty: ScalarType) -> (b: bool)
    ensures
        b == ((bits as nat) < word_limit(ty.spec_width())),
{
    proof {
        lemma_word_limits();
    }
    let w: usize = ty.width();
    if w == 1 {
        bits < 0x100
    } else if w == 2 {
        bits < 0x1_0000
    } else if w == 4 {
        bits < 0x1_0000_0000
    } else {
        true
    }
}

/// Whether every one of `values` fits the width of `ty`.
pub fn all_fit(values: &Vec<u64>, ty: ScalarType) -> (b: bool)
    ensures
        b == (forall|k: int|
            0 <= k < values@.len() ==> (#[trigger] values@[k] as nat) < word_limit(
                ty.spec_width(),
            )),
{
    let mut k: usize = 0;
    while k < values.len()
        invariant
            k <= values.len(),
            forall|j: int|
                0 <= j < k ==> (#[trigger] values@[j] as nat) < word_limit(ty.spec_width()),
        decreases values.len() - k,
    {
        if !fits(values[k], ty) {
            return false;
        }
        k += 1;
    }
    true
}

/// Whether `value` is a value of the field `field`.
pub fn field_accepts(field: &FieldPlan, value: &FieldValue) -> (b: bool)
    ensures
        b == field_conforms(*field, value@),
{
    match (&field.strategy, value) {
        (Strategy::Scalar, FieldValue::Scalar(v)) => fits(*v, field.ty),
        (Strategy::Array(n), FieldValue::Array(vs)) => {
            let ok = all_fit(vs, field.ty);
            let same = vs.len() as u64 == *n;
            proof {
                let mapped = vs@.map_values(|v: u64| v as nat);
                assert(forall|k: int| 0 <= k < vs@.len() ==> mapped[k] == vs@[k] as nat);
                if ok {
                    assert forall|k: int| 0 <= k < mapped.len() implies #[trigger] mapped[k]
                        < word_limit(field.width()) by {
                        assert((vs@[k] as nat) < word_limit(field.ty.spec_width()));
                    }
                } else {
                    let k = choose|k: int|
                        0 <= k < vs@.len() && !((#[trigger] vs@[k] as nat) < word_limit(
                            field.ty.spec_width(),
                        ));
                    assert(!(mapped[k] < word_limit(field.width())));
                }
            }
            same && ok
        },
        _ => false,
    }
}

/// Whether `record` is a value of the record laid out as `layout`.
pub fn accepts(layout: &Vec<FieldPlan>, record: &Record) -> (b: bool)
    ensures
        b == conforms(layout@, record@),
{
    if record.fields.len() != layout.len() {
        return false;
    }
    let mut i: usize = 0;
    while i < layout.len()
        invariant
            i <= layout.len(),
            record.fields.len() == layout.len(),
            forall|j: int| 0 <= j < i ==> #[trigger] field_conforms(layout@[j], record@[j]),
        decreases layout.len() - i,
    {
        if !field_accepts(&layout[i], &record.fields[i]) {
            assert(!field_conforms(layout@[i as int], record@[i as int]));
            return false;
        }
        i += 1;
    }
    true
}

} // verus!
