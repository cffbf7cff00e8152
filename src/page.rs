//! Pages: the roots of a user's content tree.

use vstd::prelude::*;

use crate::items::{Item, ItemModel, ItemType, PAGE_TYPE};

verus! {

/// A page: the root of a user's content tree.
#[derive(Clone, Debug, PartialEq, Eq)]
pub struct Page {
    pub id: u128,
    pub item_type: ItemType,
    pub title: String,
}

#[derive(Clone, Debug, PartialEq, Eq)]
pub struct NewPage {
    pub title: String,
}

#[derive(Clone, Debug, PartialEq, Eq)]
pub struct UpdatePage {
    pub title: String,
}

impl ItemModel for Page {
    type New = NewPage;

    type Update = UpdatePage;

    open spec fn kind() -> ItemType {
        PAGE_TYPE
    }

    fn item_type() -> (r: ItemType) {
        PAGE_TYPE
    }

    open spec fn row_id(&self) -> u128 {
        self.id
    }

    open spec fn row_type(&self) -> ItemType {
        self.item_type
    }

    fn id(&self) -> (r: u128) {
        self.id
    }

    fn row_item_type(&self) -> (r: ItemType) {
        self.item_type
    }

    open spec fn spec_parent(new: &NewPage) -> Option<(u128, ItemType)> {
        None
    }

    fn parent(new: &NewPage) -> (r: Option<(u128, ItemType)>) {
        None
    }

    open spec fn spec_from_partial(new: NewPage, item: Item) -> Page {
        Page { id: item.id, item_type: item.item_type, title: new.title }
    }

    fn from_partial(new: NewPage, item: &Item) -> (r: Page) {
        Page { id: item.id, item_type: item.item_type, title: new.title }
    }

    open spec fn spec_update(self, u: UpdatePage) -> Page {
        Page { title: u.title, ..self }
    }

    fn apply_update(self, u: UpdatePage) -> (r: Page) {
        Page { id: self.id, item_type: self.item_type, title: u.title }
    }

    fn duplicate(&self) -> (r: Page) {
        Page { id: self.id, item_type: self.item_type, title: self.title.clone() }
    }

    proof fn lemma_keys(new: NewPage, item: Item, row: Page, u: UpdatePage) {
    }
}

} // verus!
