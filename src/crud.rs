//! The generic owner-gated create, find, update and delete, stated over
//! the index and one typed table, with the laws that relate them.

use core::marker::PhantomData;

use vstd::prelude::*;

use crate::error::CrudError;
use crate::index::{
    first_key, id_taken, item_parent_ok, index_has, key_match, lemma_first_key_exists, owned_match,
    parent_ok, without_key,
};
use crate::items::{Item, ItemModel, ItemType};
use crate::table::{
    first_row, has_row, lemma_first_row, lemma_no_row, row_match, row_position, without_row,
};

verus! {

pub open spec fn spec_parent_id(parent: Option<(u128, ItemType)>) -> Option<u128> {
    match parent {
        Some((pid, _)) => Some(pid),
        None => None,
    }
}

pub open spec fn spec_parent_type(parent: Option<(u128, ItemType)>) -> Option<ItemType> {
    match parent {
        Some((_, pkind)) => Some(pkind),
        None => None,
    }
}

/// The index row minted for a new object of kind `T`.
pub open spec fn minted<T: ItemModel>(new: T::New, caller: u128, id: u128, now: i64) -> Item {
    Item {
        id,
        item_type: T::kind(),
        parent_id: spec_parent_id(T::spec_parent(&new)),
        parent_type: spec_parent_type(T::spec_parent(&new)),
        created_at: now,
        updated_at: now,
        owner_id: caller,
    }
}

/// Index, table and result after a create with the id `id` and the time
/// `now`. Nothing changes unless both rows are written.
pub open spec fn spec_create<T: ItemModel>(
    items: Seq<Item>,
    rows: Seq<T>,
    new: T::New,
    caller: u128,
    id: u128,
    now: i64,
) -> (Seq<Item>, Seq<T>, Result<T, CrudError>) {
    if id_taken(items, id) {
        (items, rows, Err(CrudError::Conflict))
    } else if !parent_ok(items, T::spec_parent(&new)) {
        (items, rows, Err(CrudError::InvalidParent))
    } else if has_row(rows, id, T::kind()) {
        (items, rows, Err(CrudError::Conflict))
    } else {
        let item = minted::<T>(new, caller, id, now);
        let t = T::spec_from_partial(new, item);
        (items.push(item), rows.push(t), Ok(t))
    }
}

/// The result of a find by `caller`.
pub open spec fn spec_find<T: ItemModel>(items: Seq<Item>, rows: Seq<T>, id: u128, caller: u128) -> Result<T, CrudError> {
    if index_has(items, id, T::kind(), caller) && has_row(rows, id, T::kind()) {
        Ok(rows[first_row(rows, id, T::kind())])
    } else {
        Err(CrudError::NotFound)
    }
}

/// Table and result after an update by `caller`.
pub open spec fn spec_update<T: ItemModel>(
    items: Seq<Item>,
    rows: Seq<T>,
    id: u128,
    u: T::Update,
    caller: u128,
) -> (Seq<T>, Result<T, CrudError>) {
    if index_has(items, id, T::kind(), caller) && has_row(rows, id, T::kind()) {
        let i = first_row(rows, id, T::kind());
        let t = rows[i].spec_update(u);
        (rows.update(i, t), Ok(t))
    } else {
        (rows, Err(CrudError::NotFound))
    }
}

/// Index, table and result after a delete by `caller`: the index row and
/// the typed row go together.
pub open spec fn spec_delete<T: ItemModel>(items: Seq<Item>, rows: Seq<T>, id: u128, caller: u128) -> (
    Seq<Item>,
    Seq<T>,
    Result<(), CrudError>,
) {
    if index_has(items, id, T::kind(), caller) {
        (without_key(items, id, T::kind()), without_row(rows, id, T::kind()), Ok(()))
    } else {
        (items, rows, Err(CrudError::NotFound))
    }
}

/// A created object's id was in use by no object of any kind, and after the
/// create exactly one index row carries it.
pub proof fn lemma_created_id_unique<T: ItemModel>(
    items: Seq<Item>,
    rows: Seq<T>,
    new: T::New,
    caller: u128,
    id: u128,
    now: i64,
)
    requires
        spec_create::<T>(items, rows, new, caller, id, now).2 is Ok,
    ensures
        ({
            let (items2, _, r) = spec_create::<T>(items, rows, new, caller, id, now);
            &&& r->Ok_0.row_id() == id
            &&& !id_taken(items, id)
            &&& items2.len() == items.len() + 1
            &&& items2.last().id == id
            &&& forall|i: int| 0 <= i < items2.len() && #[trigger] items2[i].id == id ==> i == items.len()
        }),
{
    let (items2, _, r) = spec_create::<T>(items, rows, new, caller, id, now);
    let item = minted::<T>(new, caller, id, now);
    T::lemma_keys(new, item, r->Ok_0, arbitrary());
    assert forall|i: int| 0 <= i < items2.len() && #[trigger] items2[i].id == id implies i == items.len() by {
        if i < items.len() {
            assert(items[i].id == id);
        }
    }
}

/// What a user creates, that user finds again, equal in every field to the
/// record the create returned.
pub proof fn lemma_create_then_find<T: ItemModel>(
    items: Seq<Item>,
    rows: Seq<T>,
    new: T::New,
    caller: u128,
    id: u128,
    now: i64,
)
    requires
        spec_create::<T>(items, rows, new, caller, id, now).2 is Ok,
    ensures
        ({
            let (items2, rows2, r) = spec_create::<T>(items, rows, new, caller, id, now);
            spec_find::<T>(items2, rows2, id, caller) == r
        }),
{
    let (items2, rows2, r) = spec_create::<T>(items, rows, new, caller, id, now);
    let item = minted::<T>(new, caller, id, now);
    let t = r->Ok_0;
    T::lemma_keys(new, item, t, arbitrary());
    assert(owned_match(items2[items.len() as int], id, T::kind(), caller));
    assert(row_match(rows2[rows.len() as int], id, T::kind()));
    assert forall|j: int| 0 <= j < rows.len() implies !#[trigger] row_match(rows2[j], id, T::kind()) by {
        assert(rows2[j] == rows[j]);
    }
    lemma_first_row(rows2, rows.len() as int, id, T::kind());
}

/// What one user creates, any other user fails to find, with `NotFound`.
pub proof fn lemma_other_user_cannot_find<T: ItemModel>(
    items: Seq<Item>,
    rows: Seq<T>,
    new: T::New,
    caller: u128,
    id: u128,
    now: i64,
    other: u128,
)
    requires
        spec_create::<T>(items, rows, new, caller, id, now).2 is Ok,
        other != caller,
    ensures
        ({
            let (items2, rows2, _) = spec_create::<T>(items, rows, new, caller, id, now);
            spec_find::<T>(items2, rows2, id, other) == Err::<T, CrudError>(CrudError::NotFound)
        }),
{
    let (items2, rows2, _) = spec_create::<T>(items, rows, new, caller, id, now);
    if index_has(items2, id, T::kind(), other) {
        let i = choose|i: int| 0 <= i < items2.len() && #[trigger] owned_match(items2[i], id, T::kind(), other);
        if i < items.len() {
            assert(items[i].id == id);
        }
    }
}

/// Deleting what the caller does not own, or what does not exist, fails
/// with `NotFound` and changes nothing, however often it is repeated.
pub proof fn lemma_delete_missing<T: ItemModel>(items: Seq<Item>, rows: Seq<T>, id: u128, caller: u128)
    requires
        !index_has(items, id, T::kind(), caller),
    ensures
        spec_delete::<T>(items, rows, id, caller) == (items, rows, Err::<(), CrudError>(CrudError::NotFound)),
{
}

/// Once an object is deleted, finding it fails with `NotFound`, and so does
/// deleting it again.
pub proof fn lemma_find_after_delete<T: ItemModel>(items: Seq<Item>, rows: Seq<T>, id: u128, caller: u128)
    requires
        ids_unique(items),
        spec_delete::<T>(items, rows, id, caller).2 is Ok,
    ensures
        ({
            let (items2, rows2, _) = spec_delete::<T>(items, rows, id, caller);
            &&& spec_find::<T>(items2, rows2, id, caller) == Err::<T, CrudError>(CrudError::NotFound)
            &&& spec_delete::<T>(items2, rows2, id, caller) == (items2, rows2, Err::<(), CrudError>(CrudError::NotFound))
        }),
{
    let (items2, rows2, _) = spec_delete::<T>(items, rows, id, caller);
    let w = choose|i: int| 0 <= i < items.len() && #[trigger] owned_match(items[i], id, T::kind(), caller);
    assert(key_match(items[w], id, T::kind()));
    lemma_first_key_exists(items, w, id, T::kind());
    let k = first_key(items, id, T::kind());
    assert(items2 == items.remove(k));
    if index_has(items2, id, T::kind(), caller) {
        let i = choose|i: int| 0 <= i < items2.len() && #[trigger] owned_match(items2[i], id, T::kind(), caller);
        if i < k {
            assert(items2[i] == items[i]);
            assert(items[i].id == items[k].id);
        } else {
            assert(items2[i] == items[i + 1]);
            assert(items[i + 1].id == items[k].id);
        }
    }
}

/// If the typed row cannot be written after the index row was, the create
/// fails and leaves no index row for the id behind.
pub proof fn lemma_failed_child_write_rolls_back<T: ItemModel>(
    items: Seq<Item>,
    rows: Seq<T>,
    new: T::New,
    caller: u128,
    id: u128,
    now: i64,
)
    requires
        !id_taken(items, id),
        parent_ok(items, T::spec_parent(&new)),
        has_row(rows, id, T::kind()),
    ensures
        ({
            let (items2, rows2, r) = spec_create::<T>(items, rows, new, caller, id, now);
            &&& r == Err::<T, CrudError>(CrudError::Conflict)
            &&& items2 == items
            &&& rows2 == rows
            &&& !id_taken(items2, id)
        }),
{
}

/// No two index rows share an id.
pub open spec fn ids_unique(items: Seq<Item>) -> bool {
    forall|i: int, j: int| 0 <= i < items.len() && 0 <= j < items.len() && i != j ==> #[trigger] items[i].id != #[trigger] items[j].id
}

/// The create, find, update and delete operations shared by every kind of
/// content object. Each one but create first checks in the index that the
/// object belongs to the caller.
pub struct Crudder<T> {
    mark: PhantomData<T>,
}

impl<T: ItemModel> Crudder<T> {
    /// Creates an object of kind `T` owned by `caller`, under the id `id` and
    /// at the time `now`: first its index row, then its typed row. If the
    /// typed row cannot be written the index row is taken back.
    pub fn create(
        items: &mut Vec<Item>,
        rows: &mut Vec<T>,
        new: T::New,
        caller: u128,
        id: u128,
        now: i64,
    ) -> (r: Result<T, CrudError>)
        ensures
            (final(items)@, final(rows)@, r) == spec_create::<T>(old(items)@, old(rows)@, new, caller, id, now),
    {
        let parent = T::parent(&new);
        let (parent_id, parent_type) = match parent {
            Some((pid, pkind)) => (Some(pid), Some(pkind)),
            None => (None, None),
        };
        let item = Item {
            id,
            item_type: T::item_type(),
            parent_id,
            parent_type,
            created_at: now,
            updated_at: now,
            owner_id: caller,
        };
        assert(item_parent_ok(items@, item) == parent_ok(items@, parent));
        if let Err(e) = item.create(items) {
            return Err(e);
        }
        let t = T::from_partial(new, &item);
        proof {
            T::lemma_keys(new, item, t, arbitrary());
        }
        match row_position(rows, id, T::item_type()) {
            Some(_) => {
                let _ = items.pop();
                proof {
                    assert(items@ =~= old(items)@);
                }
                Err(CrudError::Conflict)
            },
            None => {
                rows.push(t.duplicate());
                Ok(t)
            },
        }
    }

    /// Finds the object `id` of kind `T`, if it belongs to `caller`.
    pub fn find(items: &Vec<Item>, rows: &Vec<T>, id: u128, caller: u128) -> (r: Result<T, CrudError>)
        ensures
            r == spec_find::<T>(items@, rows@, id, caller),
    {
        if !Item::has_owner(items, id, T::item_type(), caller) {
            return Err(CrudError::NotFound);
        }
        match row_position(rows, id, T::item_type()) {
            Some(i) => {
                proof {
                    lemma_first_row(rows@, i as int, id, T::kind());
                }
                Ok(rows[i].duplicate())
            },
            None => Err(CrudError::NotFound),
        }
    }

    /// Finds the object `id` of kind `T`, if it belongs to `caller`, and
    /// hands it to `f`.
    pub fn find_and_then<O, F: FnOnce(T) -> O>(
        items: &Vec<Item>,
        rows: &Vec<T>,
        id: u128,
        caller: u128,
        f: F,
    ) -> (r: Result<O, CrudError>)
        requires
            forall|t: T| f.requires((t,)),
        ensures
            match spec_find::<T>(items@, rows@, id, caller) {
                Ok(t) => r matches Ok(o) && f.ensures((t,), o),
                Err(e) => r == Err::<O, CrudError>(e),
            },
    {
        match Crudder::<T>::find(items, rows, id, caller) {
            Ok(t) => Ok(f(t)),
            Err(e) => Err(e),
        }
    }

    /// Applies a partial update to the object `id` of kind `T`, if it
    /// belongs to `caller`.
    pub fn update(items: &Vec<Item>, rows: &mut Vec<T>, id: u128, u: T::Update, caller: u128) -> (r:
        Result<T, CrudError>)
        ensures
            (final(rows)@, r) == spec_update::<T>(items@, old(rows)@, id, u, caller),
    {
        if !Item::has_owner(items, id, T::item_type(), caller) {
            return Err(CrudError::NotFound);
        }
        match row_position(rows, id, T::item_type()) {
            Some(i) => {
                proof {
                    lemma_first_row(rows@, i as int, id, T::kind());
                }
                let row = rows[i].duplicate();
                let t = row.apply_update(u);
                rows.set(i, t.duplicate());
                Ok(t)
            },
            None => Err(CrudError::NotFound),
        }
    }

    /// Deletes the object `id` of kind `T`, index row and typed row
    /// together, if it belongs to `caller`.
    pub fn delete(items: &mut Vec<Item>, rows: &mut Vec<T>, id: u128, caller: u128) -> (r: Result<
        (),
        CrudError,
    >)
        ensures
            (final(items)@, final(rows)@, r) == spec_delete::<T>(old(items)@, old(rows)@, id, caller),
    {
        if !Item::has_owner(items, id, T::item_type(), caller) {
            return Err(CrudError::NotFound);
        }
        match row_position(rows, id, T::item_type()) {
            Some(i) => {
                proof {
                    lemma_first_row(rows@, i as int, id, T::kind());
                }
                let _ = rows.remove(i);
            },
            None => {
                proof {
                    lemma_no_row(rows@, id, T::kind());
                }
            },
        }
        let removed = Item::delete(items, id, T::item_type());
        proof {
            assert(removed is Ok) by {
                let j = choose|j: int|
                    0 <= j < old(items)@.len() && #[trigger] owned_match(
                        old(items)@[j],
                        id,
                        T::kind(),
                        caller,
                    );
                assert(key_match(old(items)@[j], id, T::kind()));
            }
        }
        Ok(())
    }
}

} // verus!
