//! Kind discriminators, the item index row, and the interface every typed
//! child row implements.

use vstd::prelude::*;

verus! {

/// The discriminator stored with every item row.
pub type ItemType = i16;

/// The kinds of content object, with their fixed discriminators.
#[derive(Clone, Copy, Debug, PartialEq, Eq, Structural)]
pub enum ItemTypeNames {
    Page,
    Todo,
    TodoItem,
    TextField,
}

pub const PAGE_TYPE: ItemType = 100;

pub const TODO_TYPE: ItemType = 200;

pub const TODO_ITEM_TYPE: ItemType = 210;

pub const TEXT_FIELD_TYPE: ItemType = 300;

pub open spec fn spec_code(k: ItemTypeNames) -> ItemType {
    match k {
        ItemTypeNames::Page => PAGE_TYPE,
        ItemTypeNames::Todo => TODO_TYPE,
        ItemTypeNames::TodoItem => TODO_ITEM_TYPE,
        ItemTypeNames::TextField => TEXT_FIELD_TYPE,
    }
}

pub open spec fn spec_from_code(c: ItemType) -> Option<ItemTypeNames> {
    if c == PAGE_TYPE {
        Some(ItemTypeNames::Page)
    } else if c == TODO_TYPE {
        Some(ItemTypeNames::Todo)
    } else if c == TODO_ITEM_TYPE {
        Some(ItemTypeNames::TodoItem)
    } else if c == TEXT_FIELD_TYPE {
        Some(ItemTypeNames::TextField)
    } else {
        None
    }
}

impl ItemTypeNames {
    /// The discriminator of this kind.
    pub fn code(&self) -> (r: ItemType)
        ensures
            r == spec_code(*self),
    {
        match self {
            ItemTypeNames::Page => PAGE_TYPE,
            ItemTypeNames::Todo => TODO_TYPE,
            ItemTypeNames::TodoItem => TODO_ITEM_TYPE,
            ItemTypeNames::TextField => TEXT_FIELD_TYPE,
        }
    }

    /// The kind with discriminator `c`, if there is one.
    pub fn from_code(c: ItemType) -> (r: Option<ItemTypeNames>)
        ensures
            r == spec_from_code(c),
            r matches Some(k) ==> spec_code(k) == c,
    {
        if c == PAGE_TYPE {
            Some(ItemTypeNames::Page)
        } else if c == TODO_TYPE {
            Some(ItemTypeNames::Todo)
        } else if c == TODO_ITEM_TYPE {
            Some(ItemTypeNames::TodoItem)
        } else if c == TEXT_FIELD_TYPE {
            Some(ItemTypeNames::TextField)
        } else {
            None
        }
    }
}

/// The index row of a content object: its identity, kind, parent and owner.
///
/// Timestamps are seconds since the Unix epoch.
#[derive(Clone, Copy, Debug, PartialEq, Eq, Structural)]
pub struct Item {
    pub id: u128,
    pub item_type: ItemType,
    pub parent_id: Option<u128>,
    pub parent_type: Option<ItemType>,
    pub created_at: i64,
    pub updated_at: i64,
    pub owner_id: u128,
}

/// A typed child row: one kind of content object, keyed by the id of its
/// index row and by the kind's discriminator.
///
/// `New` is the payload a row is created from, `Update` the payload of a
/// partial update.
pub trait ItemModel: Sized {
    type New;

    type Update;

    /// The discriminator of this kind.
    spec fn kind() -> ItemType;

    fn item_type() -> (r: ItemType)
        ensures
            r == Self::kind(),
    ;

    spec fn row_id(&self) -> u128;

    spec fn row_type(&self) -> ItemType;

    fn id(&self) -> (r: u128)
        ensures
            r == self.row_id(),
    ;

    fn row_item_type(&self) -> (r: ItemType)
        ensures
            r == self.row_type(),
    ;

    /// The parent (id and kind) that a payload asks for, if any.
    spec fn spec_parent(new: &Self::New) -> Option<(u128, ItemType)>;

    fn parent(new: &Self::New) -> (r: Option<(u128, ItemType)>)
        ensures
            r == Self::spec_parent(new),
    ;

    /// The row built from a payload and the index row minted for it.
    spec fn spec_from_partial(new: Self::New, item: Item) -> Self;

    fn from_partial(new: Self::New, item: &Item) -> (r: Self)
        ensures
            r == Self::spec_from_partial(new, *item),
    ;

    /// The row after a partial update: the fields the payload carries are
    /// replaced, the others kept.
    spec fn spec_update(self, u: Self::Update) -> Self;

    fn apply_update(self, u: Self::Update) -> (r: Self)
        ensures
            r == self.spec_update(u),
    ;

    fn duplicate(&self) -> (r: Self)
        ensures
            r == *self,
    ;

    /// Building and updating rows never changes their key.
    proof fn lemma_keys(new: Self::New, item: Item, row: Self, u: Self::Update)
        ensures
            Self::spec_from_partial(new, item).row_id() == item.id,
            Self::spec_from_partial(new, item).row_type() == item.item_type,
            row.spec_update(u).row_id() == row.row_id(),
            row.spec_update(u).row_type() == row.row_type(),
    ;
}

} // verus!
