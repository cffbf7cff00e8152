//! To-do lists.

use vstd::prelude::*;

use crate::items::{Item, ItemModel, ItemType, PAGE_TYPE, TODO_TYPE};

verus! {

/// A to-do list placed on a page.
#[derive(Clone, Debug, PartialEq, Eq)]
pub struct Todo {
    pub id: u128,
    pub item_type: ItemType,
    pub title: String,
    pub coord_x: i32,
    pub coord_y: i32,
}

/// The payload of a new to-do list; `todo_id` names the page it sits on.
#[derive(Clone, Debug, PartialEq, Eq)]
pub struct NewTodo {
    pub title: String,
    pub todo_id: u128,
    pub coord_x: i32,
    pub coord_y: i32,
}

#[derive(Clone, Debug, PartialEq, Eq)]
pub struct UpdateTodo {
    pub title: String,
    pub coord_x: i32,
    pub coord_y: i32,
}

impl ItemModel for Todo {
    type New = NewTodo;

    type Update = UpdateTodo;

    open spec fn kind() -> ItemType {
        TODO_TYPE
    }

    fn item_type() -> (r: ItemType) {
        TODO_TYPE
    }

    open spec fn row_id(&self) -> u128 {
        self.id
    }

    open spec fn row_type(&self) -> ItemType {
        self.item_type
    }

    fn id(&self) -> (r: u128) {
        self.id
    }

    fn row_item_type(&self) -> (r: ItemType) {
        self.item_type
    }

    open spec fn spec_parent(new: &NewTodo) -> Option<(u128, ItemType)> {
        Some((new.todo_id, PAGE_TYPE))
    }

    fn parent(new: &NewTodo) -> (r: Option<(u128, ItemType)>) {
        Some((new.todo_id, PAGE_TYPE))
    }

    open spec fn spec_from_partial(new: NewTodo, item: Item) -> Todo {
        Todo {
            id: item.id,
            item_type: item.item_type,
            title: new.title,
            coord_x: new.coord_x,
            coord_y: new.coord_y,
        }
    }

    fn from_partial(new: NewTodo, item: &Item) -> (r: Todo) {
        Todo {
            id: item.id,
            item_type: item.item_type,
            title: new.title,
            coord_x: new.coord_x,
            coord_y: new.coord_y,
        }
    }

    open spec fn spec_update(self, u: UpdateTodo) -> Todo {
        Todo { title: u.title, coord_x: u.coord_x, coord_y: u.coord_y, ..self }
    }

    fn apply_update(self, u: UpdateTodo) -> (r: Todo) {
        Todo {
            id: self.id,
            item_type: self.item_type,
            title: u.title,
            coord_x: u.coord_x,
            coord_y: u.coord_y,
        }
    }

    fn duplicate(&self) -> (r: Todo) {
        Todo {
            id: self.id,
            item_type: self.item_type,
            title: self.title.clone(),
            coord_x: self.coord_x,
            coord_y: self.coord_y,
        }
    }

    proof fn lemma_keys(new: NewTodo, item: Item, row: Todo, u: UpdateTodo) {
    }
}

} // verus!
