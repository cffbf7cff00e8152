//! Per-kind entry points of the store, each a thin call of the generic
//! dispatcher that mints a fresh id and a timestamp.

use vstd::prelude::*;

use crate::crud::{minted, spec_create, spec_delete, spec_find, spec_update, Crudder};
use crate::database::{lemma_index_push, lemma_index_remove, Database};
use crate::error::CrudError;
use crate::items::{ItemTypeNames, PAGE_TYPE, TEXT_FIELD_TYPE, TODO_ITEM_TYPE, TODO_TYPE};
use crate::outside::{new_v4_id, now_timestamp};
use crate::page::{NewPage, Page, UpdatePage};
use crate::text_field::{NewTextField, TextField, UpdateTextField};
use crate::todo::{NewTodo, Todo, UpdateTodo};
use crate::todo_item::{NewTodoItem, TodoItem, UpdateTodoItem};
use crate::wf::{lemma_create_keeps_wf, lemma_delete_keeps_wf, lemma_update_keeps_wf};

verus! {

impl Database {
    /// Creates a page owned by `caller` under a fresh random id, stamped
    /// with the current time. Fails, changing nothing, if the id is already
    /// in use or the requested parent is not indexed.
    pub fn create_page(&mut self, new: NewPage, caller: u128) -> (r: Result<Page, CrudError>)
        ensures
            exists|id: u128, now: i64|
                (final(self).items@, final(self).pages@, r) == #[trigger] spec_create::<Page>(
                    old(self).items@,
                    old(self).pages@,
                    new,
                    caller,
                    id,
                    now,
                ),
            final(self).same_except(*old(self), ItemTypeNames::Page),
            old(self).wf() ==> final(self).wf(),
    {
        let id = new_v4_id();
        let now = now_timestamp();
        let ghost payload = new;
        let r = Crudder::<Page>::create(&mut self.items, &mut self.pages, new, caller, id, now);
        assert((self.items@, self.pages@, r) == spec_create::<Page>(
            old(self).items@,
            old(self).pages@,
            payload,
            caller,
            id,
            now,
        ));
        proof {
            if old(self).wf() {
                lemma_create_keeps_wf::<Page>(old(self).items@, old(self).pages@, payload, caller, id, now);
                if r is Ok {
                    lemma_index_push(*old(self), minted::<Page>(payload, caller, id, now));
                }
            }
        }
        r
    }

    /// The page `id`, if it belongs to `caller`; `NotFound` otherwise.
    pub fn find_page(&self, id: u128, caller: u128) -> (r: Result<Page, CrudError>)
        ensures
            r == spec_find::<Page>(self.items@, self.pages@, id, caller),
    {
        Crudder::<Page>::find(&self.items, &self.pages, id, caller)
    }

    /// Updates the page `id`, if it belongs to `caller`; `NotFound`
    /// otherwise, changing nothing.
    pub fn update_page(&mut self, id: u128, u: UpdatePage, caller: u128) -> (r: Result<Page, CrudError>)
        ensures
            (final(self).pages@, r) == spec_update::<Page>(old(self).items@, old(self).pages@, id, u, caller),
            final(self).items@ == old(self).items@,
            final(self).same_except(*old(self), ItemTypeNames::Page),
            old(self).wf() ==> final(self).wf(),
    {
        let ghost change = u;
        let r = Crudder::<Page>::update(&self.items, &mut self.pages, id, u, caller);
        proof {
            if old(self).wf() {
                lemma_update_keeps_wf::<Page>(old(self).items@, old(self).pages@, id, change, caller);
            }
        }
        r
    }

    /// Deletes the page `id` with its index row, if it belongs to
    /// `caller`; `NotFound` otherwise, changing nothing.
    pub fn delete_page(&mut self, id: u128, caller: u128) -> (r: Result<(), CrudError>)
        ensures
            (final(self).items@, final(self).pages@, r) == spec_delete::<Page>(old(self).items@, old(self).pages@, id, caller),
            final(self).same_except(*old(self), ItemTypeNames::Page),
            old(self).wf() ==> final(self).wf(),
    {
        let r = Crudder::<Page>::delete(&mut self.items, &mut self.pages, id, caller);
        proof {
            if old(self).wf() && r is Ok {
                lemma_delete_keeps_wf::<Page>(old(self).items@, old(self).pages@, id, caller);
                lemma_index_remove(*old(self), id, PAGE_TYPE);
            }
        }
        r
    }

    /// Creates a todo owned by `caller` under a fresh random id, stamped
    /// with the current time. Fails, changing nothing, if the id is already
    /// in use or the requested parent is not indexed.
    pub fn create_todo(&mut self, new: NewTodo, caller: u128) -> (r: Result<Todo, CrudError>)
        ensures
            exists|id: u128, now: i64|
                (final(self).items@, final(self).todos@, r) == #[trigger] spec_create::<Todo>(
                    old(self).items@,
                    old(self).todos@,
                    new,
                    caller,
                    id,
                    now,
                ),
            final(self).same_except(*old(self), ItemTypeNames::Todo),
            old(self).wf() ==> final(self).wf(),
    {
        let id = new_v4_id();
        let now = now_timestamp();
        let ghost payload = new;
        let r = Crudder::<Todo>::create(&mut self.items, &mut self.todos, new, caller, id, now);
        assert((self.items@, self.todos@, r) == spec_create::<Todo>(
            old(self).items@,
            old(self).todos@,
            payload,
            caller,
            id,
            now,
        ));
        proof {
            if old(self).wf() {
                lemma_create_keeps_wf::<Todo>(old(self).items@, old(self).todos@, payload, caller, id, now);
                if r is Ok {
                    lemma_index_push(*old(self), minted::<Todo>(payload, caller, id, now));
                }
            }
        }
        r
    }

    /// The todo `id`, if it belongs to `caller`; `NotFound` otherwise.
    pub fn find_todo(&self, id: u128, caller: u128) -> (r: Result<Todo, CrudError>)
        ensures
            r == spec_find::<Todo>(self.items@, self.todos@, id, caller),
    {
        Crudder::<Todo>::find(&self.items, &self.todos, id, caller)
    }

    /// Updates the todo `id`, if it belongs to `caller`; `NotFound`
    /// otherwise, changing nothing.
    pub fn update_todo(&mut self, id: u128, u: UpdateTodo, caller: u128) -> (r: Result<Todo, CrudError>)
        ensures
            (final(self).todos@, r) == spec_update::<Todo>(old(self).items@, old(self).todos@, id, u, caller),
            final(self).items@ == old(self).items@,
            final(self).same_except(*old(self), ItemTypeNames::Todo),
            old(self).wf() ==> final(self).wf(),
    {
        let ghost change = u;
        let r = Crudder::<Todo>::update(&self.items, &mut self.todos, id, u, caller);
        proof {
            if old(self).wf() {
                lemma_update_keeps_wf::<Todo>(old(self).items@, old(self).todos@, id, change, caller);
            }
        }
        r
    }

    /// Deletes the todo `id` with its index row, if it belongs to
    /// `caller`; `NotFound` otherwise, changing nothing.
    pub fn delete_todo(&mut self, id: u128, caller: u128) -> (r: Result<(), CrudError>)
        ensures
            (final(self).items@, final(self).todos@, r) == spec_delete::<Todo>(old(self).items@, old(self).todos@, id, caller),
            final(self).same_except(*old(self), ItemTypeNames::Todo),
            old(self).wf() ==> final(self).wf(),
    {
        let r = Crudder::<Todo>::delete(&mut self.items, &mut self.todos, id, caller);
        proof {
            if old(self).wf() && r is Ok {
                lemma_delete_keeps_wf::<Todo>(old(self).items@, old(self).todos@, id, caller);
                lemma_index_remove(*old(self), id, TODO_TYPE);
            }
        }
        r
    }

    /// Creates a todo item owned by `caller` under a fresh random id, stamped
    /// with the current time. Fails, changing nothing, if the id is already
    /// in use or the requested parent is not indexed.
    pub fn create_todo_item(&mut self, new: NewTodoItem, caller: u128) -> (r: Result<TodoItem, CrudError>)
        ensures
            exists|id: u128, now: i64|
                (final(self).items@, final(self).todo_items@, r) == #[trigger] spec_create::<TodoItem>(
                    old(self).items@,
                    old(self).todo_items@,
                    new,
                    caller,
                    id,
                    now,
                ),
            final(self).same_except(*old(self), ItemTypeNames::TodoItem),
            old(self).wf() ==> final(self).wf(),
    {
        let id = new_v4_id();
        let now = now_timestamp();
        let ghost payload = new;
        let r = Crudder::<TodoItem>::create(&mut self.items, &mut self.todo_items, new, caller, id, now);
        assert((self.items@, self.todo_items@, r) == spec_create::<TodoItem>(
            old(self).items@,
            old(self).todo_items@,
            payload,
            caller,
            id,
            now,
        ));
        proof {
            if old(self).wf() {
                lemma_create_keeps_wf::<TodoItem>(old(self).items@, old(self).todo_items@, payload, caller, id, now);
                if r is Ok {
                    lemma_index_push(*old(self), minted::<TodoItem>(payload, caller, id, now));
                }
            }
        }
        r
    }

    /// The todo item `id`, if it belongs to `caller`; `NotFound` otherwise.
    pub fn find_todo_item(&self, id: u128, caller: u128) -> (r: Result<TodoItem, CrudError>)
        ensures
            r == spec_find::<TodoItem>(self.items@, self.todo_items@, id, caller),
    {
        Crudder::<TodoItem>::find(&self.items, &self.todo_items, id, caller)
    }

    /// Updates the todo item `id`, if it belongs to `caller`; `NotFound`
    /// otherwise, changing nothing.
    pub fn update_todo_item(&mut self, id: u128, u: UpdateTodoItem, caller: u128) -> (r: Result<TodoItem, CrudError>)
        ensures
            (final(self).todo_items@, r) == spec_update::<TodoItem>(old(self).items@, old(self).todo_items@, id, u, caller),
            final(self).items@ == old(self).items@,
            final(self).same_except(*old(self), ItemTypeNames::TodoItem),
            old(self).wf() ==> final(self).wf(),
    {
        let ghost change = u;
        let r = Crudder::<TodoItem>::update(&self.items, &mut self.todo_items, id, u, caller);
        proof {
            if old(self).wf() {
                lemma_update_keeps_wf::<TodoItem>(old(self).items@, old(self).todo_items@, id, change, caller);
            }
        }
        r
    }

    /// Deletes the todo item `id` with its index row, if it belongs to
    /// `caller`; `NotFound` otherwise, changing nothing.
    pub fn delete_todo_item(&mut self, id: u128, caller: u128) -> (r: Result<(), CrudError>)
        ensures
            (final(self).items@, final(self).todo_items@, r) == spec_delete::<TodoItem>(old(self).items@, old(self).todo_items@, id, caller),
            final(self).same_except(*old(self), ItemTypeNames::TodoItem),
            old(self).wf() ==> final(self).wf(),
    {
        let r = Crudder::<TodoItem>::delete(&mut self.items, &mut self.todo_items, id, caller);
        proof {
            if old(self).wf() && r is Ok {
                lemma_delete_keeps_wf::<TodoItem>(old(self).items@, old(self).todo_items@, id, caller);
                lemma_index_remove(*old(self), id, TODO_ITEM_TYPE);
            }
        }
        r
    }

    /// Creates a text field owned by `caller` under a fresh random id, stamped
    /// with the current time. Fails, changing nothing, if the id is already
    /// in use or the requested parent is not indexed.
    pub fn create_text_field(&mut self, new: NewTextField, caller: u128) -> (r: Result<TextField, CrudError>)
        ensures
            exists|id: u128, now: i64|
                (final(self).items@, final(self).text_fields@, r) == #[trigger] spec_create::<TextField>(
                    old(self).items@,
                    old(self).text_fields@,
                    new,
                    caller,
                    id,
                    now,
                ),
            final(self).same_except(*old(self), ItemTypeNames::TextField),
            old(self).wf() ==> final(self).wf(),
    {
        let id = new_v4_id();
        let now = now_timestamp();
        let ghost payload = new;
        let r = Crudder::<TextField>::create(&mut self.items, &mut self.text_fields, new, caller, id, now);
        assert((self.items@, self.text_fields@, r) == spec_create::<TextField>(
            old(self).items@,
            old(self).text_fields@,
            payload,
            caller,
            id,
            now,
        ));
        proof {
            if old(self).wf() {
                lemma_create_keeps_wf::<TextField>(old(self).items@, old(self).text_fields@, payload, caller, id, now);
                if r is Ok {
                    lemma_index_push(*old(self), minted::<TextField>(payload, caller, id, now));
                }
            }
        }
        r
    }

    /// The text field `id`, if it belongs to `caller`; `NotFound` otherwise.
    pub fn find_text_field(&self, id: u128, caller: u128) -> (r: Result<TextField, CrudError>)
        ensures
            r == spec_find::<TextField>(self.items@, self.text_fields@, id, caller),
    {
        Crudder::<TextField>::find(&self.items, &self.text_fields, id, caller)
    }

    /// Updates the text field `id`, if it belongs to `caller`; `NotFound`
    /// otherwise, changing nothing.
    pub fn update_text_field(&mut self, id: u128, u: UpdateTextField, caller: u128) -> (r: Result<TextField, CrudError>)
        ensures
            (final(self).text_fields@, r) == spec_update::<TextField>(old(self).items@, old(self).text_fields@, id, u, caller),
            final(self).items@ == old(self).items@,
            final(self).same_except(*old(self), ItemTypeNames::TextField),
            old(self).wf() ==> final(self).wf(),
    {
        let ghost change = u;
        let r = Crudder::<TextField>::update(&self.items, &mut self.text_fields, id, u, caller);
        proof {
            if old(self).wf() {
                lemma_update_keeps_wf::<TextField>(old(self).items@, old(self).text_fields@, id, change, caller);
            }
        }
        r
    }

    /// Deletes the text field `id` with its index row, if it belongs to
    /// `caller`; `NotFound` otherwise, changing nothing.
    pub fn delete_text_field(&mut self, id: u128, caller: u128) -> (r: Result<(), CrudError>)
        ensures
            (final(self).items@, final(self).text_fields@, r) == spec_delete::<TextField>(old(self).items@, old(self).text_fields@, id, caller),
            final(self).same_except(*old(self), ItemTypeNames::TextField),
            old(self).wf() ==> final(self).wf(),
    {
        let r = Crudder::<TextField>::delete(&mut self.items, &mut self.text_fields, id, caller);
        proof {
            if old(self).wf() && r is Ok {
                lemma_delete_keeps_wf::<TextField>(old(self).items@, old(self).text_fields@, id, caller);
                lemma_index_remove(*old(self), id, TEXT_FIELD_TYPE);
            }
        }
        r
    }

}

} // verus!
