//! Lookups in a typed child table.

use vstd::prelude::*;

use crate::items::{ItemModel, ItemType};

verus! {

pub open spec fn row_match<T: ItemModel>(row: T, id: u128, kind: ItemType) -> bool {
    row.row_id() == id && row.row_type() == kind
}

/// Some row of the table has this id and kind.
pub open spec fn has_row<T: ItemModel>(rows: Seq<T>, id: u128, kind: ItemType) -> bool {
    exists|i: int| 0 <= i < rows.len() && #[trigger] row_match(rows[i], id, kind)
}

pub open spec fn is_first_row<T: ItemModel>(rows: Seq<T>, i: int, id: u128, kind: ItemType) -> bool {
    &&& 0 <= i < rows.len()
    &&& row_match(rows[i], id, kind)
    &&& forall|j: int| 0 <= j < i ==> !#[trigger] row_match(rows[j], id, kind)
}

/// The position of the first row with this id and kind, or -1.
pub open spec fn first_row<T: ItemModel>(rows: Seq<T>, id: u128, kind: ItemType) -> int {
    if exists|i: int| is_first_row(rows, i, id, kind) {
        choose|i: int| is_first_row(rows, i, id, kind)
    } else {
        -1
    }
}

/// The table without its first row of this id and kind.
pub open spec fn without_row<T: ItemModel>(rows: Seq<T>, id: u128, kind: ItemType) -> Seq<T> {
    let i = first_row(rows, id, kind);
    if 0 <= i {
        rows.remove(i)
    } else {
        rows
    }
}

pub proof fn lemma_first_row<T: ItemModel>(rows: Seq<T>, i: int, id: u128, kind: ItemType)
    requires
        is_first_row(rows, i, id, kind),
    ensures
        first_row(rows, id, kind) == i,
{
    let k = first_row(rows, id, kind);
    assert(is_first_row(rows, k, id, kind));
    if k < i {
        assert(row_match(rows[k], id, kind));
    } else if i < k {
        assert(row_match(rows[i], id, kind));
    }
}

pub proof fn lemma_no_row<T: ItemModel>(rows: Seq<T>, id: u128, kind: ItemType)
    requires
        !has_row(rows, id, kind),
    ensures
        first_row(rows, id, kind) == -1,
        without_row(rows, id, kind) == rows,
{
    if exists|i: int| is_first_row(rows, i, id, kind) {
        let i = choose|i: int| is_first_row(rows, i, id, kind);
        assert(row_match(rows[i], id, kind));
    }
}

/// The position of the first row with this id and kind.
pub fn row_position<T: ItemModel>(rows: &Vec<T>, id: u128, kind: ItemType) -> (r: Option<usize>)
    ensures
        r matches Some(i) ==> is_first_row(rows@, i as int, id, kind),
        r is None ==> !has_row(rows@, id, kind),
{
    let mut i: usize = 0;
    while i < rows.len()
        invariant
            i <= rows@.len(),
            forall|j: int| 0 <= j < i ==> !#[trigger] row_match(rows@[j], id, kind),
        decreases rows@.len() - i,
    {
        if rows[i].id() == id && rows[i].row_item_type() == kind {
            return Some(i);
        }
        i += 1;
    }
    None
}

} // verus!
