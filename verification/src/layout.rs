//! Where the fields of a planned record lie in a buffer.

use crate::schema::FieldPlan;
use vstd::prelude::*;

verus! {

/// The offset of the field at index `k` from the start of the record: the
/// sizes of the fields before it, added up.
pub open spec fn offset_of(layout: Seq<FieldPlan>, k: int) -> nat
    decreases k,
{
    if k <= 0 {
        0
    } else {
        offset_of(layout, k - 1) + layout[k - 1].size()
    }
}

/// The number of bytes the whole record occupies.
pub open spec fn total_size(layout: Seq<FieldPlan>) -> nat {
    offset_of(layout, layout.len() as int)
}

/// The start of the first of `count` accesses of `width` bytes from `cursor`
/// on that does not fit in a buffer of `len` bytes, if there is one.
pub open spec fn stuck_in_field(cursor: int, width: int, count: nat, len: int) -> Option<int>
    decreases count,
{
    if count == 0 {
        None
    } else if cursor + width > len {
        Some(cursor)
    } else {
        stuck_in_field(cursor + width, width, (count - 1) as nat, len)
    }
}

/// Where a procedure that works through the fields from index `from` on, with
/// its cursor at `cursor`, meets the first access that does not fit in a
/// buffer of `len` bytes: the start of that access and its width.
pub open spec fn first_stuck(layout: Seq<FieldPlan>, from: int, cursor: int, len: int) -> Option<
    (int, int),
>
    decreases layout.len() - from,
{
    if from < 0 || from >= layout.len() {
        None
    } else {
        let field = layout[from];
        match stuck_in_field(cursor, field.width() as int, field.count(), len) {
            Some(at) => Some((at, field.width() as int)),
            None => first_stuck(layout, from + 1, cursor + field.size(), len),
        }
    }
}

/// Offsets grow with the index.
pub proof fn lemma_offset_monotonic(layout: Seq<FieldPlan>, i: int, j: int)
    requires
        0 <= i <= j,
    ensures
        offset_of(layout, i) <= offset_of(layout, j),
    decreases j - i,
{
    if i < j {
        lemma_offset_monotonic(layout, i, j - 1);
    }
}

/// A field ends where the next one starts, and no field ends behind the
/// record.
pub proof fn lemma_field_within(layout: Seq<FieldPlan>, i: int)
    requires
        0 <= i < layout.len(),
    ensures
        offset_of(layout, i) + layout[i].size() == offset_of(layout, i + 1),
        offset_of(layout, i + 1) <= total_size(layout),
{
    lemma_offset_monotonic(layout, i + 1, layout.len() as int);
}

/// When nothing in a field is stuck, the whole field fits or is empty; when
/// something is, it starts inside the field and does not fit, and what lies
/// before it in the field does.
pub proof fn lemma_stuck_in_field(cursor: int, width: int, count: nat, len: int)
    requires
        width > 0,
    ensures
        match stuck_in_field(cursor, width, count, len) {
            None => count == 0 || cursor + width * count <= len,
            Some(at) => cursor <= at < cursor + width * count && at + width > len && (at
                == cursor || at <= len),
        },
    decreases count,
{
    if count > 0 {
        let rest = (count - 1) as nat;
        assert(width * count == width * rest + width && width * rest >= 0) by (nonlinear_arith)
            requires
                count == rest + 1,
                width > 0,
        ;
        if cursor + width <= len {
            lemma_stuck_in_field(cursor + width, width, rest, len);
        }
    }
}

/// Nothing is stuck in a field that fits as a whole.
pub proof fn lemma_fitting_field(cursor: int, width: int, count: nat, len: int)
    requires
        width > 0,
        cursor + width * count <= len,
    ensures
        stuck_in_field(cursor, width, count, len) is None,
    decreases count,
{
    if count > 0 {
        let rest = (count - 1) as nat;
        assert(width * count == width * rest + width && width * rest >= 0) by (nonlinear_arith)
            requires
                count == rest + 1,
                width > 0,
        ;
        lemma_fitting_field(cursor + width, width, rest, len);
    }
}

/// Nothing is stuck when what is left of the record fits behind the cursor.
pub proof fn lemma_fitting_record(layout: Seq<FieldPlan>, from: int, cursor: int, len: int)
    requires
        0 <= from <= layout.len(),
        cursor + (total_size(layout) - offset_of(layout, from)) <= len,
    ensures
        first_stuck(layout, from, cursor, len) is None,
    decreases layout.len() - from,
{
    if from < layout.len() {
        let field = layout[from];
        lemma_field_within(layout, from);
        lemma_fitting_field(cursor, field.width() as int, field.count(), len);
        lemma_fitting_record(layout, from + 1, cursor + field.size(), len);
    }
}

/// Something is stuck when what is left of the record is not empty and does
/// not fit behind the cursor; the stuck access starts at or behind the cursor
/// and ends behind the buffer.
pub proof fn lemma_short_record(layout: Seq<FieldPlan>, from: int, cursor: int, len: int)
    requires
        0 <= from <= layout.len(),
        total_size(layout) - offset_of(layout, from) > 0,
        cursor + (total_size(layout) - offset_of(layout, from)) > len,
    ensures
        first_stuck(layout, from, cursor, len) matches Some((at, width)) && cursor <= at && at
            + width > len && width > 0,
    decreases layout.len() - from,
{
    let field = layout[from];
    lemma_field_within(layout, from);
    lemma_stuck_in_field(cursor, field.width() as int, field.count(), len);
    if stuck_in_field(cursor, field.width() as int, field.count(), len) is None {
        if field.count() == 0 {
            assert(field.size() == 0) by (nonlinear_arith)
                requires
                    field.size() == field.width() * field.count(),
                    field.count() == 0,
            ;
        }
        assert(field.size() >= 0);
        lemma_short_record(layout, from + 1, cursor + field.size(), len);
    }
}

} // verus!
