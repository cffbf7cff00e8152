//! Text fields placed on pages.

use vstd::prelude::*;

use crate::items::{Item, ItemModel, ItemType, PAGE_TYPE, TEXT_FIELD_TYPE};

verus! {

/// A block of text placed on a page.
#[derive(Clone, Debug, PartialEq, Eq)]
pub struct TextField {
    pub id: u128,
    pub item_type: ItemType,
    pub text: String,
    pub coord_x: i32,
    pub coord_y: i32,
}

/// The payload of a new text field; `page_id` names the page it sits on.
#[derive(Clone, Debug, PartialEq, Eq)]
pub struct NewTextField {
    pub text: String,
    pub page_id: u128,
    pub coord_x: i32,
    pub coord_y: i32,
}

#[derive(Clone, Debug, PartialEq, Eq)]
pub struct UpdateTextField {
    pub text: String,
    pub coord_x: i32,
    pub coord_y: i32,
}

impl ItemModel for TextField {
    type New = NewTextField;

    type Update = UpdateTextField;

    open spec fn kind() -> ItemType {
        TEXT_FIELD_TYPE
    }

    fn item_type() -> (r: ItemType) {
        TEXT_FIELD_TYPE
    }

    open spec fn row_id(&self) -> u128 {
        self.id
    }

    open spec fn row_type(&self) -> ItemType {
        self.item_type
    }

    fn id(&self) -> (r: u128) {
        self.id
    }

    fn row_item_type(&self) -> (r: ItemType) {
        self.item_type
    }

    open spec fn spec_parent(new: &NewTextField) -> Option<(u128, ItemType)> {
        Some((new.page_id, PAGE_TYPE))
    }

    fn parent(new: &NewTextField) -> (r: Option<(u128, ItemType)>) {
        Some((new.page_id, PAGE_TYPE))
    }

    open spec fn spec_from_partial(new: NewTextField, item: Item) -> TextField {
        TextField {
            id: item.id,
            item_type: item.item_type,
            text: new.text,
            coord_x: new.coord_x,
            coord_y: new.coord_y,
        }
    }

    fn from_partial(new: NewTextField, item: &Item) -> (r: TextField) {
        TextField {
            id: item.id,
            item_type: item.item_type,
            text: new.text,
            coord_x: new.coord_x,
            coord_y: new.coord_y,
        }
    }

    open spec fn spec_update(self, u: UpdateTextField) -> TextField {
        TextField { text: u.text, coord_x: u.coord_x, coord_y: u.coord_y, ..self }
    }

    fn apply_update(self, u: UpdateTextField) -> (r: TextField) {
        TextField {
            id: self.id,
            item_type: self.item_type,
            text: u.text,
            coord_x: u.coord_x,
            coord_y: u.coord_y,
        }
    }

    fn duplicate(&self) -> (r: TextField) {
        TextField {
            id: self.id,
            item_type: self.item_type,
            text: self.text.clone(),
            coord_x: self.coord_x,
            coord_y: self.coord_y,
        }
    }

    proof fn lemma_keys(new: NewTextField, item: Item, row: TextField, u: UpdateTextField) {
    }
}

} // verus!
