//! The item index: lookups by key and owner, writes, deletes and
//! reparenting of index rows.

use vstd::prelude::*;

use crate::error::CrudError;
use crate::items::{Item, ItemType};

verus! {

pub open spec fn key_match(it: Item, id: u128, kind: ItemType) -> bool {
    it.id == id && it.item_type == kind
}

pub open spec fn owned_match(it: Item, id: u128, kind: ItemType, owner: u128) -> bool {
    key_match(it, id, kind) && it.owner_id == owner
}

/// Some index row has this id, kind and owner.
pub open spec fn index_has(items: Seq<Item>, id: u128, kind: ItemType, owner: u128) -> bool {
    exists|i: int| 0 <= i < items.len() && #[trigger] owned_match(items[i], id, kind, owner)
}

/// Some index row has this id and kind.
pub open spec fn key_present(items: Seq<Item>, id: u128, kind: ItemType) -> bool {
    exists|i: int| 0 <= i < items.len() && #[trigger] key_match(items[i], id, kind)
}

/// Some index row, of any kind, has this id.
pub open spec fn id_taken(items: Seq<Item>, id: u128) -> bool {
    exists|i: int| 0 <= i < items.len() && #[trigger] items[i].id == id
}

pub open spec fn is_first_key(items: Seq<Item>, i: int, id: u128, kind: ItemType) -> bool {
    &&& 0 <= i < items.len()
    &&& key_match(items[i], id, kind)
    &&& forall|j: int| 0 <= j < i ==> !#[trigger] key_match(items[j], id, kind)
}

/// The position of the first index row with this id and kind, or -1.
pub open spec fn first_key(items: Seq<Item>, id: u128, kind: ItemType) -> int {
    if exists|i: int| is_first_key(items, i, id, kind) {
        choose|i: int| is_first_key(items, i, id, kind)
    } else {
        -1
    }
}

/// The index without its first row of this id and kind.
pub open spec fn without_key(items: Seq<Item>, id: u128, kind: ItemType) -> Seq<Item> {
    let i = first_key(items, id, kind);
    if 0 <= i {
        items.remove(i)
    } else {
        items
    }
}

/// A requested parent is acceptable: none, or one that is indexed.
pub open spec fn parent_ok(items: Seq<Item>, parent: Option<(u128, ItemType)>) -> bool {
    match parent {
        None => true,
        Some((pid, pkind)) => key_present(items, pid, pkind),
    }
}

pub proof fn lemma_first_key(items: Seq<Item>, i: int, id: u128, kind: ItemType)
    requires
        is_first_key(items, i, id, kind),
    ensures
        first_key(items, id, kind) == i,
{
    let k = first_key(items, id, kind);
    assert(is_first_key(items, k, id, kind));
    if k < i {
        assert(key_match(items[k], id, kind));
    } else if i < k {
        assert(key_match(items[i], id, kind));
    }
}

/// Where some row has the key, the first such row is well defined.
pub proof fn lemma_first_key_exists(items: Seq<Item>, w: int, id: u128, kind: ItemType)
    requires
        0 <= w < items.len(),
        key_match(items[w], id, kind),
    ensures
        is_first_key(items, first_key(items, id, kind), id, kind),
    decreases w,
{
    if exists|j: int| 0 <= j < w && #[trigger] key_match(items[j], id, kind) {
        let j = choose|j: int| 0 <= j < w && #[trigger] key_match(items[j], id, kind);
        lemma_first_key_exists(items, j, id, kind);
    } else {
        assert(is_first_key(items, w, id, kind));
    }
}

pub proof fn lemma_no_key(items: Seq<Item>, id: u128, kind: ItemType)
    requires
        !key_present(items, id, kind),
    ensures
        first_key(items, id, kind) == -1,
        without_key(items, id, kind) == items,
{
    if exists|i: int| is_first_key(items, i, id, kind) {
        let i = choose|i: int| is_first_key(items, i, id, kind);
        assert(key_match(items[i], id, kind));
    }
}

/// The position of the first index row with this id and kind.
pub fn position_of(items: &Vec<Item>, id: u128, kind: ItemType) -> (r: Option<usize>)
    ensures
        r matches Some(i) ==> is_first_key(items@, i as int, id, kind),
        r is None ==> !key_present(items@, id, kind),
{
    let mut i: usize = 0;
    while i < items.len()
        invariant
            i <= items@.len(),
            forall|j: int| 0 <= j < i ==> !#[trigger] key_match(items@[j], id, kind),
        decreases items@.len() - i,
    {
        if items[i].id == id && items[i].item_type == kind {
            return Some(i);
        }
        i += 1;
    }
    None
}

/// Whether some index row, of any kind, has this id.
pub fn id_in_use(items: &Vec<Item>, id: u128) -> (r: bool)
    ensures
        r == id_taken(items@, id),
{
    let mut i: usize = 0;
    while i < items.len()
        invariant
            i <= items@.len(),
            forall|j: int| 0 <= j < i ==> #[trigger] items@[j].id != id,
        decreases items@.len() - i,
    {
        if items[i].id == id {
            return true;
        }
        i += 1;
    }
    false
}

/// Whether a requested parent is acceptable.
pub fn check_parent(items: &Vec<Item>, parent: Option<(u128, ItemType)>) -> (r: bool)
    ensures
        r == parent_ok(items@, parent),
{
    match parent {
        None => true,
        Some((pid, pkind)) => {
            let found = position_of(items, pid, pkind);
            proof {
                if let Some(i) = found {
                    assert(key_match(items@[i as int], pid, pkind));
                }
            }
            found.is_some()
        },
    }
}

/// A request to move an item under another parent.
#[derive(Clone, Copy, Debug, PartialEq, Eq, Structural)]
pub struct UpdateParentRequest {
    pub parent_id: u128,
    pub parent_type: ItemType,
}

pub open spec fn is_first_owned_id(items: Seq<Item>, i: int, id: u128, owner: u128) -> bool {
    &&& 0 <= i < items.len()
    &&& items[i].id == id && items[i].owner_id == owner
    &&& forall|j: int| 0 <= j < i ==> !(#[trigger] items[j].id == id && items[j].owner_id == owner)
}

pub open spec fn id_owned(items: Seq<Item>, id: u128, owner: u128) -> bool {
    exists|i: int| 0 <= i < items.len() && #[trigger] items[i].id == id && items[i].owner_id == owner
}

pub open spec fn is_first_id(items: Seq<Item>, i: int, id: u128) -> bool {
    &&& 0 <= i < items.len()
    &&& items[i].id == id
    &&& forall|j: int| 0 <= j < i ==> #[trigger] items[j].id != id
}

/// The parent recorded by the first index row with this id, if any.
pub open spec fn parent_of(items: Seq<Item>, id: u128) -> Option<u128> {
    if exists|i: int| is_first_id(items, i, id) {
        items[choose|i: int| is_first_id(items, i, id)].parent_id
    } else {
        None
    }
}

/// Following recorded parents from `from` reaches `target` within `fuel`
/// steps (`from` itself counts).
pub open spec fn reaches(items: Seq<Item>, from: u128, target: u128, fuel: nat) -> bool
    decreases fuel,
{
    if from == target {
        true
    } else if fuel == 0 {
        false
    } else {
        match parent_of(items, from) {
            Some(p) => reaches(items, p, target, (fuel - 1) as nat),
            None => false,
        }
    }
}

/// Moving `id` under `pid` would close a loop: `pid` is `id` or lies below
/// it.
pub open spec fn would_cycle(items: Seq<Item>, id: u128, pid: u128) -> bool {
    reaches(items, pid, id, items.len() as nat)
}

proof fn lemma_first_id(items: Seq<Item>, i: int, id: u128)
    requires
        is_first_id(items, i, id),
    ensures
        parent_of(items, id) == items[i].parent_id,
{
    let k = choose|k: int| is_first_id(items, k, id);
    assert(is_first_id(items, k, id));
    if k < i {
        assert(items[k].id == id);
    } else if i < k {
        assert(items[i].id == id);
    }
}

fn id_position(items: &Vec<Item>, id: u128) -> (r: Option<usize>)
    ensures
        r matches Some(i) ==> is_first_id(items@, i as int, id),
        r is None ==> !exists|i: int| is_first_id(items@, i, id),
{
    let mut i: usize = 0;
    while i < items.len()
        invariant
            i <= items@.len(),
            forall|j: int| 0 <= j < i ==> #[trigger] items@[j].id != id,
        decreases items@.len() - i,
    {
        if items[i].id == id {
            return Some(i);
        }
        i += 1;
    }
    None
}

/// Whether following recorded parents from `from` reaches `target` within
/// as many steps as the index has rows.
fn leads_to(items: &Vec<Item>, from: u128, target: u128) -> (r: bool)
    ensures
        r == reaches(items@, from, target, items@.len() as nat),
{
    let n = items.len();
    let mut cur = from;
    let mut steps: usize = 0;
    while steps < n
        invariant
            n == items@.len(),
            steps <= n,
            reaches(items@, from, target, n as nat) == reaches(items@, cur, target, (n - steps) as nat),
        decreases n - steps,
    {
        if cur == target {
            return true;
        }
        match id_position(items, cur) {
            None => {
                return false;
            },
            Some(i) => {
                proof {
                    lemma_first_id(items@, i as int, cur);
                }
                match items[i].parent_id {
                    None => {
                        return false;
                    },
                    Some(p) => {
                        cur = p;
                    },
                }
            },
        }
        steps += 1;
    }
    cur == target
}

/// The index row after it is moved under the requested parent at `now`.
pub open spec fn reparented(it: Item, form: UpdateParentRequest, now: i64) -> Item {
    Item {
        parent_id: Some(form.parent_id),
        parent_type: Some(form.parent_type),
        updated_at: now,
        ..it
    }
}

/// The position of the first index row with this id that belongs to
/// `owner`, of any kind.
pub fn owned_position(items: &Vec<Item>, id: u128, owner: u128) -> (r: Option<usize>)
    ensures
        r matches Some(i) ==> is_first_owned_id(items@, i as int, id, owner),
        r is None ==> !id_owned(items@, id, owner),
{
    let mut i: usize = 0;
    while i < items.len()
        invariant
            i <= items@.len(),
            forall|j: int| 0 <= j < i ==> !(#[trigger] items@[j].id == id && items@[j].owner_id == owner),
        decreases items@.len() - i,
    {
        if items[i].id == id && items[i].owner_id == owner {
            return Some(i);
        }
        i += 1;
    }
    None
}

/// The parent an index row records is acceptable: none, or an indexed one
/// given with its kind.
pub open spec fn item_parent_ok(items: Seq<Item>, it: Item) -> bool {
    match (it.parent_id, it.parent_type) {
        (None, None) => true,
        (Some(pid), Some(pkind)) => key_present(items, pid, pkind),
        _ => false,
    }
}

impl Item {
    /// Writes this row into the index. Fails with `Conflict` if its id is
    /// in use by a row of any kind, with `InvalidParent` if the parent it
    /// records is not indexed; nothing changes then.
    pub fn create(&self, items: &mut Vec<Item>) -> (r: Result<Item, CrudError>)
        ensures
            id_taken(old(items)@, self.id) ==> r == Err::<Item, CrudError>(CrudError::Conflict),
            !id_taken(old(items)@, self.id) && !item_parent_ok(old(items)@, *self) ==> r == Err::<
                Item,
                CrudError,
            >(CrudError::InvalidParent),
            r is Err ==> final(items)@ == old(items)@,
            r is Ok <==> !id_taken(old(items)@, self.id) && item_parent_ok(old(items)@, *self),
            r is Ok ==> r == Ok::<Item, CrudError>(*self) && final(items)@ == old(items)@.push(*self)
                && !id_taken(old(items)@, self.id) && item_parent_ok(old(items)@, *self),
    {
        if id_in_use(items, self.id) {
            return Err(CrudError::Conflict);
        }
        let parent = match (self.parent_id, self.parent_type) {
            (None, None) => None,
            (Some(pid), Some(pkind)) => Some((pid, pkind)),
            _ => return Err(CrudError::InvalidParent),
        };
        if !check_parent(items, parent) {
            return Err(CrudError::InvalidParent);
        }
        items.push(*self);
        Ok(*self)
    }

    /// Moves the item `id` of `caller` under the requested parent, stamping
    /// it with `now`. Fails with `NotFound` if `caller` has no item with
    /// this id, with `InvalidParent` if the parent is not indexed, or is the
    /// item itself or lies below it; nothing changes then.
    pub fn update_parent(
        items: &mut Vec<Item>,
        id: u128,
        form: &UpdateParentRequest,
        caller: u128,
        now: i64,
    ) -> (r: Result<Item, CrudError>)
        ensures
            !id_owned(old(items)@, id, caller) ==> r == Err::<Item, CrudError>(CrudError::NotFound),
            id_owned(old(items)@, id, caller) && (would_cycle(old(items)@, id, form.parent_id) || !key_present(
                old(items)@,
                form.parent_id,
                form.parent_type,
            )) ==> r == Err::<Item, CrudError>(CrudError::InvalidParent),
            r is Err ==> final(items)@ == old(items)@,
            r is Ok <==> id_owned(old(items)@, id, caller) && !would_cycle(old(items)@, id, form.parent_id) && key_present(
                old(items)@,
                form.parent_id,
                form.parent_type,
            ),
            r matches Ok(it) ==> exists|i: int|
                #[trigger] is_first_owned_id(old(items)@, i, id, caller) && it == reparented(
                    old(items)@[i],
                    *form,
                    now,
                ) && final(items)@ == old(items)@.update(i, it),
    {
        let i = match owned_position(items, id, caller) {
            Some(i) => i,
            None => return Err(CrudError::NotFound),
        };
        if !check_parent(items, Some((form.parent_id, form.parent_type))) || leads_to(items, form.parent_id, id) {
            return Err(CrudError::InvalidParent);
        }
        let old_row = items[i];
        let it = Item {
            parent_id: Some(form.parent_id),
            parent_type: Some(form.parent_type),
            updated_at: now,
            ..old_row
        };
        items.set(i, it);
        Ok(it)
    }

    /// Whether the index holds a row with this id and kind that belongs to
    /// `owner`. Absence and foreign ownership give the same answer.
    pub fn has_owner(items: &Vec<Item>, id: u128, kind: ItemType, owner: u128) -> (r: bool)
        ensures
            r == index_has(items@, id, kind, owner),
    {
        let mut i: usize = 0;
        while i < items.len()
            invariant
                i <= items@.len(),
                forall|j: int| 0 <= j < i ==> !#[trigger] owned_match(items@[j], id, kind, owner),
            decreases items@.len() - i,
        {
            let it = &items[i];
            if it.id == id && it.item_type == kind && it.owner_id == owner {
                assert(owned_match(items@[i as int], id, kind, owner));
                return true;
            }
            i += 1;
        }
        false
    }

    /// Removes the index row with this id and kind.
    pub fn delete(items: &mut Vec<Item>, id: u128, kind: ItemType) -> (r: Result<(), CrudError>)
        ensures
            r is Ok <==> key_present(old(items)@, id, kind),
            r matches Err(e) ==> e == CrudError::NotFound,
            final(items)@ == without_key(old(items)@, id, kind),
    {
        match position_of(items, id, kind) {
            Some(i) => {
                proof {
                    lemma_first_key(items@, i as int, id, kind);
                    assert(key_match(items@[i as int], id, kind));
                }
                items.remove(i);
                Ok(())
            },
            None => {
                proof {
                    lemma_no_key(items@, id, kind);
                }
                Err(CrudError::NotFound)
            },
        }
    }
}

} // verus!
