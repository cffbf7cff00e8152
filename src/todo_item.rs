//! Entries of to-do lists.

use vstd::prelude::*;

use crate::items::{Item, ItemModel, ItemType, TODO_ITEM_TYPE, TODO_TYPE};

verus! {

/// An entry of a to-do list.
#[derive(Clone, Debug, PartialEq, Eq)]
pub struct TodoItem {
    pub id: u128,
    pub item_type: ItemType,
    pub title: String,
    pub is_checked: bool,
}

/// The payload of a new entry; `todo_id` names the to-do list it belongs to.
#[derive(Clone, Debug, PartialEq, Eq)]
pub struct NewTodoItem {
    pub title: String,
    pub todo_id: u128,
    pub is_checked: bool,
}

#[derive(Clone, Debug, PartialEq, Eq)]
pub struct UpdateTodoItem {
    pub title: String,
}

impl ItemModel for TodoItem {
    type New = NewTodoItem;

    type Update = UpdateTodoItem;

    open spec fn kind() -> ItemType {
        TODO_ITEM_TYPE
    }

    fn item_type() -> (r: ItemType) {
        TODO_ITEM_TYPE
    }

    open spec fn row_id(&self) -> u128 {
        self.id
    }

    open spec fn row_type(&self) -> ItemType {
        self.item_type
    }

    fn id(&self) -> (r: u128) {
        self.id
    }

    fn row_item_type(&self) -> (r: ItemType) {
        self.item_type
    }

    open spec fn spec_parent(new: &NewTodoItem) -> Option<(u128, ItemType)> {
        Some((new.todo_id, TODO_TYPE))
    }

    fn parent(new: &NewTodoItem) -> (r: Option<(u128, ItemType)>) {
        Some((new.todo_id, TODO_TYPE))
    }

    open spec fn spec_from_partial(new: NewTodoItem, item: Item) -> TodoItem {
        TodoItem {
            id: item.id,
            item_type: item.item_type,
            title: new.title,
            is_checked: new.is_checked,
        }
    }

    fn from_partial(new: NewTodoItem, item: &Item) -> (r: TodoItem) {
        TodoItem {
            id: item.id,
            item_type: item.item_type,
            title: new.title,
            is_checked: new.is_checked,
        }
    }

    open spec fn spec_update(self, u: UpdateTodoItem) -> TodoItem {
        TodoItem { title: u.title, ..self }
    }

    fn apply_update(self, u: UpdateTodoItem) -> (r: TodoItem) {
        TodoItem {
            id: self.id,
            item_type: self.item_type,
            title: u.title,
            is_checked: self.is_checked,
        }
    }

    fn duplicate(&self) -> (r: TodoItem) {
        TodoItem {
            id: self.id,
            item_type: self.item_type,
            title: self.title.clone(),
            is_checked: self.is_checked,
        }
    }

    proof fn lemma_keys(new: NewTodoItem, item: Item, row: TodoItem, u: UpdateTodoItem) {
    }
}

} // verus!
