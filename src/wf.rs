//! Agreement between the index and the typed tables, and proofs that
//! create, update and delete keep it.

use vstd::prelude::*;

use crate::crud::{ids_unique, minted, spec_create, spec_delete, spec_find, spec_update};
use crate::index::{
    first_key, is_first_key, key_match, key_present, lemma_first_key_exists,
    index_has, owned_match, without_key,
};
use crate::items::{Item, ItemModel, ItemType};
use crate::table::{first_row, has_row, is_first_row, row_match};

verus! {

/// The typed table of kind `T` agrees with the index: every typed row is of
/// kind `T` and stands for an index row, every index row of kind `T` has a
/// typed row, and no two typed rows share an id.
pub open spec fn table_wf<T: ItemModel>(items: Seq<Item>, rows: Seq<T>) -> bool {
    &&& forall|i: int|
        0 <= i < rows.len() ==> (#[trigger] rows[i]).row_type() == T::kind() && key_present(
            items,
            rows[i].row_id(),
            T::kind(),
        )
    &&& forall|i: int|
        0 <= i < items.len() && (#[trigger] items[i]).item_type == T::kind() ==> has_row(
            rows,
            items[i].id,
            T::kind(),
        )
    &&& forall|i: int, j: int|
        0 <= i < rows.len() && 0 <= j < rows.len() && i != j ==> (#[trigger] rows[i]).row_id() != (
        #[trigger] rows[j]).row_id()
}

/// Two indexes with the same ids and kinds, position by position.
pub open spec fn same_keys(a: Seq<Item>, b: Seq<Item>) -> bool {
    &&& a.len() == b.len()
    &&& forall|i: int| 0 <= i < a.len() ==> (#[trigger] a[i]).id == b[i].id && a[i].item_type == b[i].item_type
}

/// A successful create keeps the index ids unique and the table of its kind
/// in agreement with the index.
pub proof fn lemma_create_keeps_wf<T: ItemModel>(
    items: Seq<Item>,
    rows: Seq<T>,
    new: T::New,
    caller: u128,
    id: u128,
    now: i64,
)
    requires
        ids_unique(items),
        table_wf(items, rows),
    ensures
        ({
            let (items2, rows2, _) = spec_create::<T>(items, rows, new, caller, id, now);
            ids_unique(items2) && table_wf(items2, rows2)
        }),
{
    let (items2, rows2, r) = spec_create::<T>(items, rows, new, caller, id, now);
    if r is Ok {
        let item = minted::<T>(new, caller, id, now);
        let t = r->Ok_0;
        T::lemma_keys(new, item, t, arbitrary());
        let n = items.len() as int;
        let m = rows.len() as int;
        assert forall|i: int, j: int|
            0 <= i < items2.len() && 0 <= j < items2.len() && i != j implies #[trigger] items2[i].id
            != #[trigger] items2[j].id by {
            if i < n && j < n {
                assert(items2[i] == items[i] && items2[j] == items[j]);
            } else if i < n {
                assert(items2[i] == items[i]);
            } else {
                assert(items2[j] == items[j]);
            }
        }
        assert forall|i: int| 0 <= i < rows2.len() implies (#[trigger] rows2[i]).row_type() == T::kind()
            && key_present(items2, rows2[i].row_id(), T::kind()) by {
            if i < m {
                assert(rows2[i] == rows[i]);
                let w = choose|w: int| 0 <= w < items.len() && #[trigger] key_match(items[w], rows[i].row_id(), T::kind());
                assert(items2[w] == items[w]);
                assert(key_match(items2[w], rows2[i].row_id(), T::kind()));
            } else {
                assert(key_match(items2[n], rows2[i].row_id(), T::kind()));
            }
        }
        assert forall|i: int| 0 <= i < items2.len() && (#[trigger] items2[i]).item_type == T::kind() implies has_row(
            rows2,
            items2[i].id,
            T::kind(),
        ) by {
            if i < n {
                assert(items2[i] == items[i]);
                assert(items[i].item_type == T::kind());
                let w = choose|w: int| 0 <= w < rows.len() && #[trigger] row_match(rows[w], items[i].id, T::kind());
                assert(rows2[w] == rows[w]);
                assert(row_match(rows2[w], items2[i].id, T::kind()));
            } else {
                assert(row_match(rows2[m], items2[i].id, T::kind()));
            }
        }
        assert forall|i: int, j: int|
            0 <= i < rows2.len() && 0 <= j < rows2.len() && i != j implies (#[trigger] rows2[i]).row_id()
            != (#[trigger] rows2[j]).row_id() by {
            if i < m && j < m {
                assert(rows2[i] == rows[i] && rows2[j] == rows[j]);
            } else {
                let k = if i < m { i } else { j };
                assert(rows2[k] == rows[k]);
                let w = choose|w: int| 0 <= w < items.len() && #[trigger] key_match(items[w], rows[k].row_id(), T::kind());
                if rows[k].row_id() == id {
                    assert(items[w].id == id);
                }
            }
        }
    }
}

/// In a table that agrees with the index, every object of kind `T` that the
/// index records for `caller` is found by `caller`, under its own id.
pub proof fn lemma_owned_items_are_found<T: ItemModel>(items: Seq<Item>, rows: Seq<T>, id: u128, caller: u128)
    requires
        table_wf(items, rows),
        index_has(items, id, T::kind(), caller),
    ensures
        spec_find::<T>(items, rows, id, caller) is Ok,
        spec_find::<T>(items, rows, id, caller)->Ok_0.row_id() == id,
{
    let w = choose|w: int| 0 <= w < items.len() && #[trigger] owned_match(items[w], id, T::kind(), caller);
    assert(items[w].item_type == T::kind());
    assert(has_row(rows, items[w].id, T::kind()));
    let v = choose|v: int| 0 <= v < rows.len() && #[trigger] row_match(rows[v], id, T::kind());
    lemma_first_row_exists(rows, v, id, T::kind());
}

/// Where some row has the key, the first such row is well defined.
pub proof fn lemma_first_row_exists<T: ItemModel>(rows: Seq<T>, w: int, id: u128, kind: ItemType)
    requires
        0 <= w < rows.len(),
        row_match(rows[w], id, kind),
    ensures
        is_first_row(rows, first_row(rows, id, kind), id, kind),
    decreases w,
{
    if exists|j: int| 0 <= j < w && #[trigger] row_match(rows[j], id, kind) {
        let j = choose|j: int| 0 <= j < w && #[trigger] row_match(rows[j], id, kind);
        lemma_first_row_exists(rows, j, id, kind);
    } else {
        assert(is_first_row(rows, w, id, kind));
    }
}

/// Adding an index row of another kind keeps a table in agreement.
pub proof fn lemma_push_other_kind<U: ItemModel>(items: Seq<Item>, rows: Seq<U>, item: Item)
    requires
        table_wf(items, rows),
        item.item_type != U::kind(),
    ensures
        table_wf(items.push(item), rows),
{
    let items2 = items.push(item);
    assert forall|i: int| 0 <= i < rows.len() implies (#[trigger] rows[i]).row_type() == U::kind() && key_present(
        items2,
        rows[i].row_id(),
        U::kind(),
    ) by {
        let w = choose|w: int| 0 <= w < items.len() && #[trigger] key_match(items[w], rows[i].row_id(), U::kind());
        assert(items2[w] == items[w]);
        assert(key_match(items2[w], rows[i].row_id(), U::kind()));
    }
    assert forall|i: int| 0 <= i < items2.len() && (#[trigger] items2[i]).item_type == U::kind() implies has_row(
        rows,
        items2[i].id,
        U::kind(),
    ) by {
        if i < items.len() {
            assert(items2[i] == items[i]);
        }
    }
}

/// Index rows with the same ids and kinds keep every table in agreement and
/// the ids unique.
pub proof fn lemma_same_keys<U: ItemModel>(items: Seq<Item>, items2: Seq<Item>, rows: Seq<U>)
    requires
        table_wf(items, rows),
        same_keys(items, items2),
    ensures
        table_wf(items2, rows),
        ids_unique(items) ==> ids_unique(items2),
{
    assert forall|i: int| 0 <= i < rows.len() implies (#[trigger] rows[i]).row_type() == U::kind() && key_present(
        items2,
        rows[i].row_id(),
        U::kind(),
    ) by {
        let w = choose|w: int| 0 <= w < items.len() && #[trigger] key_match(items[w], rows[i].row_id(), U::kind());
        assert(key_match(items2[w], rows[i].row_id(), U::kind()));
    }
    assert forall|i: int| 0 <= i < items2.len() && (#[trigger] items2[i]).item_type == U::kind() implies has_row(
        rows,
        items2[i].id,
        U::kind(),
    ) by {
        assert(items[i].item_type == U::kind());
    }
    if ids_unique(items) {
        assert forall|i: int, j: int|
            0 <= i < items2.len() && 0 <= j < items2.len() && i != j implies #[trigger] items2[i].id
            != #[trigger] items2[j].id by {
            assert(items[i].id != items[j].id);
        }
    }
}

/// Taking out the first index row of a key keeps the ids unique, and keeps
/// every table of another kind in agreement.
pub proof fn lemma_remove_key<U: ItemModel>(items: Seq<Item>, rows: Seq<U>, id: u128, kind: ItemType)
    requires
        ids_unique(items),
        table_wf(items, rows),
        kind != U::kind(),
    ensures
        ids_unique(without_key(items, id, kind)),
        table_wf(without_key(items, id, kind), rows),
{
    let k = first_key(items, id, kind);
    if 0 <= k {
        if !is_first_key(items, k, id, kind) {
            let w = choose|w: int| is_first_key(items, w, id, kind);
            assert(is_first_key(items, w, id, kind));
        }
        let items2 = items.remove(k);
        assert(without_key(items, id, kind) == items2);
        assert forall|i: int, j: int|
            0 <= i < items2.len() && 0 <= j < items2.len() && i != j implies #[trigger] items2[i].id
            != #[trigger] items2[j].id by {
            let a = if i < k { i } else { i + 1 };
            let b = if j < k { j } else { j + 1 };
            assert(items2[i] == items[a] && items2[j] == items[b]);
        }
        assert forall|i: int| 0 <= i < rows.len() implies (#[trigger] rows[i]).row_type() == U::kind() && key_present(
            items2,
            rows[i].row_id(),
            U::kind(),
        ) by {
            let w = choose|w: int| 0 <= w < items.len() && #[trigger] key_match(items[w], rows[i].row_id(), U::kind());
            assert(w != k);
            let v = if w < k { w } else { w - 1 };
            assert(items2[v] == items[w]);
            assert(key_match(items2[v], rows[i].row_id(), U::kind()));
        }
        assert forall|i: int| 0 <= i < items2.len() && (#[trigger] items2[i]).item_type == U::kind() implies has_row(
            rows,
            items2[i].id,
            U::kind(),
        ) by {
            let a = if i < k { i } else { i + 1 };
            assert(items2[i] == items[a]);
        }
    }
}

/// A successful delete keeps the index ids unique and the table of its kind
/// in agreement with the index.
pub proof fn lemma_delete_keeps_wf<T: ItemModel>(items: Seq<Item>, rows: Seq<T>, id: u128, caller: u128)
    requires
        ids_unique(items),
        table_wf(items, rows),
    ensures
        ({
            let (items2, rows2, _) = spec_delete::<T>(items, rows, id, caller);
            ids_unique(items2) && table_wf(items2, rows2)
        }),
{
    let (items2, rows2, r) = spec_delete::<T>(items, rows, id, caller);
    if r is Ok {
        let kind = T::kind();
        let w = choose|w: int| 0 <= w < items.len() && #[trigger] owned_match(items[w], id, kind, caller);
        assert(key_match(items[w], id, kind));
        lemma_first_key_exists(items, w, id, kind);
        let k = first_key(items, id, kind);
        assert(items2 == items.remove(k));
        // the deleted id belongs to no other index row
        assert(items[k].id == id);
        let n2 = items2.len() as int;
        assert forall|i: int, j: int|
            0 <= i < items2.len() && 0 <= j < items2.len() && i != j implies #[trigger] items2[i].id
            != #[trigger] items2[j].id by {
            let a = if i < k { i } else { i + 1 };
            let b = if j < k { j } else { j + 1 };
            assert(items2[i] == items[a] && items2[j] == items[b]);
        }
        assert forall|i: int| 0 <= i < n2 implies #[trigger] items2[i].id != id by {
            let a = if i < k { i } else { i + 1 };
            assert(items2[i] == items[a]);
            assert(items[a].id != items[k].id);
        }
        // the table holds a row for the id, which goes too
        assert(items[k].item_type == kind);
        assert(has_row(rows, id, kind));
        let wr = choose|wr: int| 0 <= wr < rows.len() && #[trigger] row_match(rows[wr], id, kind);
        lemma_first_row_exists(rows, wr, id, kind);
        let p = first_row(rows, id, kind);
        assert(rows2 == rows.remove(p));
        assert forall|i: int| 0 <= i < rows2.len() implies (#[trigger] rows2[i]).row_type() == kind && key_present(
            items2,
            rows2[i].row_id(),
            kind,
        ) by {
            let a = if i < p { i } else { i + 1 };
            assert(rows2[i] == rows[a]);
            assert(rows[a].row_id() != rows[p].row_id());
            let v = choose|v: int| 0 <= v < items.len() && #[trigger] key_match(items[v], rows[a].row_id(), kind);
            assert(v != k);
            let u = if v < k { v } else { v - 1 };
            assert(items2[u] == items[v]);
            assert(key_match(items2[u], rows2[i].row_id(), kind));
        }
        assert forall|i: int| 0 <= i < items2.len() && (#[trigger] items2[i]).item_type == kind implies has_row(
            rows2,
            items2[i].id,
            kind,
        ) by {
            let a = if i < k { i } else { i + 1 };
            assert(items2[i] == items[a]);
            let v = choose|v: int| 0 <= v < rows.len() && #[trigger] row_match(rows[v], items[a].id, kind);
            assert(v != p);
            let u = if v < p { v } else { v - 1 };
            assert(rows2[u] == rows[v]);
            assert(row_match(rows2[u], items2[i].id, kind));
        }
        assert forall|i: int, j: int|
            0 <= i < rows2.len() && 0 <= j < rows2.len() && i != j implies (#[trigger] rows2[i]).row_id()
            != (#[trigger] rows2[j]).row_id() by {
            let a = if i < p { i } else { i + 1 };
            let b = if j < p { j } else { j + 1 };
            assert(rows2[i] == rows[a] && rows2[j] == rows[b]);
        }
    }
}

/// A successful update keeps the table of its kind in agreement with the
/// index.
pub proof fn lemma_update_keeps_wf<T: ItemModel>(items: Seq<Item>, rows: Seq<T>, id: u128, u: T::Update, caller: u128)
    requires
        table_wf(items, rows),
    ensures
        table_wf(items, spec_update::<T>(items, rows, id, u, caller).0),
{
    let (rows2, r) = spec_update::<T>(items, rows, id, u, caller);
    if r is Ok {
        let kind = T::kind();
        let wr = choose|wr: int| 0 <= wr < rows.len() && #[trigger] row_match(rows[wr], id, kind);
        lemma_first_row_exists(rows, wr, id, kind);
        let p = first_row(rows, id, kind);
        let t = rows[p].spec_update(u);
        T::lemma_keys(arbitrary(), arbitrary(), rows[p], u);
        assert(rows2 == rows.update(p, t));
        assert forall|i: int| 0 <= i < rows2.len() implies (#[trigger] rows2[i]).row_type() == kind && key_present(
            items,
            rows2[i].row_id(),
            kind,
        ) by {
            assert(rows2[i].row_id() == rows[i].row_id() && rows2[i].row_type() == rows[i].row_type());
        }
        assert forall|i: int| 0 <= i < items.len() && (#[trigger] items[i]).item_type == kind implies has_row(
            rows2,
            items[i].id,
            kind,
        ) by {
            let v = choose|v: int| 0 <= v < rows.len() && #[trigger] row_match(rows[v], items[i].id, kind);
            assert(row_match(rows2[v], items[i].id, kind));
        }
        assert forall|i: int, j: int|
            0 <= i < rows2.len() && 0 <= j < rows2.len() && i != j implies (#[trigger] rows2[i]).row_id()
            != (#[trigger] rows2[j]).row_id() by {
            assert(rows[i].row_id() != rows[j].row_id());
        }
    }
}

} // verus!
