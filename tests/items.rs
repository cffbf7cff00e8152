use journali_api::crud::Crudder;
use journali_api::database::{Database, Items};
use journali_api::error::CrudError;
use journali_api::index::UpdateParentRequest;
use journali_api::items::{
    Item, ItemTypeNames, PAGE_TYPE, TEXT_FIELD_TYPE, TODO_ITEM_TYPE, TODO_TYPE,
};
use journali_api::page::{NewPage, Page, UpdatePage};
use journali_api::text_field::{NewTextField, TextField, UpdateTextField};
use journali_api::todo::{NewTodo, Todo, UpdateTodo};
use journali_api::todo_item::{NewTodoItem, UpdateTodoItem};

const ALICE: u128 = 1;
const BOB: u128 = 2;

fn page(title: &str) -> NewPage {
    NewPage { title: title.to_string() }
}

#[test]
fn test_create_page() {
    let mut db = Database::new();
    let created = db.create_page(page("testpage"), ALICE).unwrap();
    assert_eq!(created.title, "testpage");
    assert_eq!(created.item_type, 100);
}

#[test]
fn kind_discriminators_are_fixed() {
    assert_eq!(ItemTypeNames::Page.code(), 100);
    assert_eq!(ItemTypeNames::Todo.code(), 200);
    assert_eq!(ItemTypeNames::TodoItem.code(), 210);
    assert_eq!(ItemTypeNames::TextField.code(), 300);
    assert_eq!(ItemTypeNames::from_code(210), Some(ItemTypeNames::TodoItem));
    assert_eq!(ItemTypeNames::from_code(101), None);
    assert_eq!((PAGE_TYPE, TODO_TYPE, TODO_ITEM_TYPE, TEXT_FIELD_TYPE), (100, 200, 210, 300));
}

#[test]
fn error_statuses() {
    assert_eq!(CrudError::NotFound.status(), 404);
    assert_eq!(CrudError::Conflict.status(), 409);
    assert_eq!(CrudError::InvalidInput.status(), 400);
    assert_eq!(CrudError::Unauthorized.status(), 401);
    assert_eq!(CrudError::InvalidParent.status(), 400);
    assert_eq!(CrudError::Internal.status(), 500);
}

#[test]
fn created_ids_are_unique_across_kinds() {
    let mut db = Database::new();
    let p = db.create_page(page("a"), ALICE).unwrap();
    let t = db
        .create_todo(NewTodo { title: "list".into(), todo_id: p.id, coord_x: 1, coord_y: 2 }, ALICE)
        .unwrap();
    let f = db
        .create_text_field(
            NewTextField { text: "hi".into(), page_id: p.id, coord_x: 0, coord_y: 0 },
            ALICE,
        )
        .unwrap();
    let e = db
        .create_todo_item(NewTodoItem { title: "milk".into(), todo_id: t.id, is_checked: false }, ALICE)
        .unwrap();
    let ids = [p.id, t.id, f.id, e.id];
    for i in 0..ids.len() {
        for j in 0..ids.len() {
            if i != j {
                assert_ne!(ids[i], ids[j]);
            }
        }
    }
    assert_eq!(db.items.len(), 4);
}

#[test]
fn create_with_taken_id_conflicts_across_kinds() {
    let mut db = Database::new();
    let r = Crudder::<Page>::create(&mut db.items, &mut db.pages, page("a"), ALICE, 7, 1000);
    assert_eq!(r.unwrap().id, 7);
    let again = Crudder::<Todo>::create(
        &mut db.items,
        &mut db.todos,
        NewTodo { title: "t".into(), todo_id: 7, coord_x: 0, coord_y: 0 },
        ALICE,
        7,
        1001,
    );
    assert_eq!(again, Err(CrudError::Conflict));
    assert_eq!(db.items.len(), 1);
    assert_eq!(db.todos.len(), 0);
}

#[test]
fn created_index_row_records_kind_owner_and_time() {
    let mut db = Database::new();
    let p = Crudder::<Page>::create(&mut db.items, &mut db.pages, page("a"), ALICE, 5, 1234).unwrap();
    assert_eq!(
        db.items[0],
        Item {
            id: 5,
            item_type: 100,
            parent_id: None,
            parent_type: None,
            created_at: 1234,
            updated_at: 1234,
            owner_id: ALICE,
        }
    );
    assert_eq!(p, Page { id: 5, item_type: 100, title: "a".into() });
}

#[test]
fn owner_finds_and_others_do_not() {
    let mut db = Database::new();
    let p = db.create_page(page("mine"), ALICE).unwrap();
    assert_eq!(db.find_page(p.id, ALICE), Ok(p.clone()));
    assert_eq!(db.find_page(p.id, BOB), Err(CrudError::NotFound));
    assert_eq!(db.find_page(p.id + 1, ALICE), Err(CrudError::NotFound));
}

#[test]
fn find_checks_the_kind() {
    let mut db = Database::new();
    let p = db.create_page(page("mine"), ALICE).unwrap();
    assert_eq!(db.find_todo(p.id, ALICE), Err(CrudError::NotFound));
    assert_eq!(db.delete_todo(p.id, ALICE), Err(CrudError::NotFound));
    assert_eq!(db.items.len(), 1);
}

#[test]
fn round_trip_keeps_every_payload_field() {
    let mut db = Database::new();
    let p = db.create_page(page("home"), ALICE).unwrap();
    let t = db
        .create_todo(NewTodo { title: "chores".into(), todo_id: p.id, coord_x: -3, coord_y: 42 }, ALICE)
        .unwrap();
    let found = db.find_todo(t.id, ALICE).unwrap();
    assert_eq!(found, t);
    assert_eq!((found.title.as_str(), found.coord_x, found.coord_y), ("chores", -3, 42));
    let f = db
        .create_text_field(
            NewTextField { text: "note".into(), page_id: p.id, coord_x: 5, coord_y: 6 },
            ALICE,
        )
        .unwrap();
    assert_eq!(
        db.find_text_field(f.id, ALICE).unwrap(),
        TextField { id: f.id, item_type: 300, text: "note".into(), coord_x: 5, coord_y: 6 }
    );
    let e = db
        .create_todo_item(NewTodoItem { title: "milk".into(), todo_id: t.id, is_checked: true }, ALICE)
        .unwrap();
    let found = db.find_todo_item(e.id, ALICE).unwrap();
    assert_eq!((found.title.as_str(), found.is_checked), ("milk", true));
}

#[test]
fn child_needs_an_indexed_parent() {
    let mut db = Database::new();
    let r = db.create_text_field(
        NewTextField { text: "orphan".into(), page_id: 12345, coord_x: 0, coord_y: 0 },
        ALICE,
    );
    assert_eq!(r, Err(CrudError::InvalidParent));
    assert!(db.items.is_empty());
    assert!(db.text_fields.is_empty());
    let r = db.create_todo_item(NewTodoItem { title: "x".into(), todo_id: 1, is_checked: false }, ALICE);
    assert_eq!(r, Err(CrudError::InvalidParent));
}

#[test]
fn delete_missing_is_not_found_every_time() {
    let mut db = Database::new();
    assert_eq!(db.delete_page(99, ALICE), Err(CrudError::NotFound));
    assert_eq!(db.delete_page(99, ALICE), Err(CrudError::NotFound));
    let p = db.create_page(page("x"), ALICE).unwrap();
    assert_eq!(db.delete_page(p.id, BOB), Err(CrudError::NotFound));
    assert_eq!(db.find_page(p.id, ALICE), Ok(p.clone()));
    assert_eq!(db.delete_page(p.id, ALICE), Ok(()));
    assert_eq!(db.find_page(p.id, ALICE), Err(CrudError::NotFound));
    assert_eq!(db.delete_page(p.id, ALICE), Err(CrudError::NotFound));
    assert!(db.items.is_empty());
    assert!(db.pages.is_empty());
}

#[test]
fn failed_child_write_leaves_no_index_row() {
    let mut db = Database::new();
    db.pages.push(Page { id: 77, item_type: 100, title: "stale".into() });
    let r = Crudder::<Page>::create(&mut db.items, &mut db.pages, page("new"), ALICE, 77, 1);
    assert_eq!(r, Err(CrudError::Conflict));
    assert!(db.items.iter().all(|it| it.id != 77));
    assert_eq!(db.pages.len(), 1);
}

#[test]
fn update_replaces_payload_fields_only() {
    let mut db = Database::new();
    let p = db.create_page(page("old"), ALICE).unwrap();
    let t = db
        .create_todo(NewTodo { title: "a".into(), todo_id: p.id, coord_x: 1, coord_y: 1 }, ALICE)
        .unwrap();
    let e = db
        .create_todo_item(NewTodoItem { title: "e".into(), todo_id: t.id, is_checked: true }, ALICE)
        .unwrap();
    let f = db
        .create_text_field(NewTextField { text: "t".into(), page_id: p.id, coord_x: 0, coord_y: 0 }, ALICE)
        .unwrap();
    assert_eq!(
        db.update_page(p.id, UpdatePage { title: "new".into() }, ALICE),
        Ok(Page { id: p.id, item_type: 100, title: "new".into() })
    );
    assert_eq!(db.update_page(p.id, UpdatePage { title: "evil".into() }, BOB), Err(CrudError::NotFound));
    assert_eq!(db.find_page(p.id, ALICE).unwrap().title, "new");
    let t2 = db.update_todo(t.id, UpdateTodo { title: "b".into(), coord_x: 8, coord_y: 9 }, ALICE).unwrap();
    assert_eq!((t2.title.as_str(), t2.coord_x, t2.coord_y), ("b", 8, 9));
    let e2 = db.update_todo_item(e.id, UpdateTodoItem { title: "eggs".into() }, ALICE).unwrap();
    assert_eq!((e2.title.as_str(), e2.is_checked), ("eggs", true));
    let f2 = db
        .update_text_field(f.id, UpdateTextField { text: "u".into(), coord_x: 3, coord_y: 4 }, ALICE)
        .unwrap();
    assert_eq!(f2, TextField { id: f.id, item_type: 300, text: "u".into(), coord_x: 3, coord_y: 4 });
}

#[test]
fn children_come_back_newest_first() {
    let mut db = Database::new();
    let p = Crudder::<Page>::create(&mut db.items, &mut db.pages, page("root"), ALICE, 1, 0).unwrap();
    for (id, text) in [(10u128, "c1"), (11, "c2"), (12, "c3")] {
        Crudder::<TextField>::create(
            &mut db.items,
            &mut db.text_fields,
            NewTextField { text: text.into(), page_id: p.id, coord_x: 0, coord_y: 0 },
            ALICE,
            id,
            0,
        )
        .unwrap();
    }
    let kids = db.find_by_parent(p.id, ALICE).unwrap();
    let texts: Vec<String> = kids
        .into_iter()
        .map(|k| match k {
            Items::TextField(f) => f.text,
            _ => panic!("unexpected kind"),
        })
        .collect();
    assert_eq!(texts, vec!["c3", "c2", "c1"]);
    assert_eq!(db.find_by_parent(p.id, BOB), Err(CrudError::NotFound));
}

#[test]
fn children_of_other_users_are_listed_too() {
    let mut db = Database::new();
    let p = db.create_page(page("shared root"), ALICE).unwrap();
    let theirs = db
        .create_text_field(NewTextField { text: "bob's".into(), page_id: p.id, coord_x: 0, coord_y: 0 }, BOB)
        .unwrap();
    assert_eq!(db.find_by_parent(p.id, ALICE), Ok(vec![Items::TextField(theirs)]));
    assert_eq!(db.find_by_parent(p.id, BOB), Err(CrudError::NotFound));
}

#[test]
fn todo_list_needs_an_indexed_page() {
    let mut db = Database::new();
    let r = db.create_todo(NewTodo { title: "x".into(), todo_id: 5, coord_x: 0, coord_y: 0 }, ALICE);
    assert_eq!(r, Err(CrudError::InvalidParent));
    let p = db.create_page(page("p"), ALICE).unwrap();
    let t = db.create_todo(NewTodo { title: "x".into(), todo_id: p.id, coord_x: 0, coord_y: 0 }, ALICE).unwrap();
    let row = db.items.iter().find(|it| it.id == t.id).unwrap();
    assert_eq!((row.parent_id, row.parent_type), (Some(p.id), Some(100)));
}

#[test]
fn children_of_mixed_kinds_resolve() {
    let mut db = Database::new();
    let p = db.create_page(page("root"), ALICE).unwrap();
    let q = db.create_page(page("elsewhere"), ALICE).unwrap();
    let t = db
        .create_todo(NewTodo { title: "list".into(), todo_id: q.id, coord_x: 0, coord_y: 0 }, ALICE)
        .unwrap();
    assert_eq!(db.find_by_parent(q.id, ALICE).unwrap(), vec![Items::Todo(t.clone())]);
    let f = db
        .create_text_field(NewTextField { text: "txt".into(), page_id: p.id, coord_x: 0, coord_y: 0 }, ALICE)
        .unwrap();
    db.update_item_parent(t.id, &UpdateParentRequest { parent_id: p.id, parent_type: 100 }, ALICE)
        .unwrap();
    let kids = db.find_by_parent(p.id, ALICE).unwrap();
    assert_eq!(kids, vec![Items::TextField(f), Items::Todo(t)]);
}

#[test]
fn missing_child_row_is_internal() {
    let mut db = Database::new();
    let p = db.create_page(page("root"), ALICE).unwrap();
    let f = db
        .create_text_field(NewTextField { text: "txt".into(), page_id: p.id, coord_x: 0, coord_y: 0 }, ALICE)
        .unwrap();
    db.text_fields.clear();
    assert_eq!(db.find_by_parent(p.id, ALICE), Err(CrudError::Internal));
    assert_eq!(db.find_text_field(f.id, ALICE), Err(CrudError::NotFound));
}

#[test]
fn reparenting_rules() {
    let mut db = Database::new();
    let p = db.create_page(page("a"), ALICE).unwrap();
    let q = db.create_page(page("b"), ALICE).unwrap();
    let req = UpdateParentRequest { parent_id: q.id, parent_type: 100 };
    assert_eq!(db.update_item_parent(p.id, &req, BOB), Err(CrudError::NotFound));
    let bad = UpdateParentRequest { parent_id: 424242, parent_type: 100 };
    assert_eq!(db.update_item_parent(p.id, &bad, ALICE), Err(CrudError::InvalidParent));
    let own = UpdateParentRequest { parent_id: p.id, parent_type: 100 };
    assert_eq!(db.update_item_parent(p.id, &own, ALICE), Err(CrudError::InvalidParent));
    let moved = db.update_item_parent(p.id, &req, ALICE).unwrap();
    assert_eq!((moved.parent_id, moved.parent_type), (Some(q.id), Some(100)));
    assert_eq!(moved.owner_id, ALICE);
}

#[test]
fn generic_dispatcher_find_and_delete() {
    let mut db = Database::new();
    Crudder::<Page>::create(&mut db.items, &mut db.pages, page("z"), ALICE, 3, 0).unwrap();
    assert_eq!(Crudder::<Page>::find(&db.items, &db.pages, 3, ALICE).unwrap().title, "z");
    assert_eq!(Crudder::<Page>::delete(&mut db.items, &mut db.pages, 3, BOB), Err(CrudError::NotFound));
    assert_eq!(Crudder::<Page>::delete(&mut db.items, &mut db.pages, 3, ALICE), Ok(()));
    assert!(db.items.is_empty() && db.pages.is_empty());
}

#[test]
fn find_and_then_hands_the_row_on() {
    let mut db = Database::new();
    Crudder::<Page>::create(&mut db.items, &mut db.pages, page("long title"), ALICE, 4, 0).unwrap();
    let len = Crudder::<Page>::find_and_then(&db.items, &db.pages, 4, ALICE, |p: Page| p.title.len());
    assert_eq!(len, Ok(10));
    let none = Crudder::<Page>::find_and_then(&db.items, &db.pages, 4, BOB, |p: Page| p.title.len());
    assert_eq!(none, Err(CrudError::NotFound));
}

#[test]
fn index_row_create_checks_id_and_parent() {
    let mut items: Vec<Item> = Vec::new();
    let root = Item {
        id: 1,
        item_type: 100,
        parent_id: None,
        parent_type: None,
        created_at: 0,
        updated_at: 0,
        owner_id: ALICE,
    };
    assert_eq!(root.create(&mut items), Ok(root));
    assert_eq!(root.create(&mut items), Err(CrudError::Conflict));
    let half = Item { id: 2, parent_id: Some(1), parent_type: None, ..root };
    assert_eq!(half.create(&mut items), Err(CrudError::InvalidParent));
    let wrong_kind = Item { id: 2, parent_id: Some(1), parent_type: Some(200), ..root };
    assert_eq!(wrong_kind.create(&mut items), Err(CrudError::InvalidParent));
    let child = Item { id: 2, item_type: 300, parent_id: Some(1), parent_type: Some(100), ..root };
    assert_eq!(child.create(&mut items), Ok(child));
    assert_eq!(items, vec![root, child]);
    assert!(Item::has_owner(&items, 2, 300, ALICE));
    assert!(!Item::has_owner(&items, 2, 300, BOB));
    assert!(!Item::has_owner(&items, 2, 100, ALICE));
    assert_eq!(Item::delete(&mut items, 2, 100), Err(CrudError::NotFound));
    assert_eq!(Item::delete(&mut items, 2, 300), Ok(()));
    assert_eq!(items, vec![root]);
}

#[test]
fn reparenting_cannot_close_a_loop() {
    let mut db = Database::new();
    let a = db.create_page(page("a"), ALICE).unwrap();
    let b = db.create_page(page("b"), ALICE).unwrap();
    let c = db.create_page(page("c"), ALICE).unwrap();
    db.update_item_parent(b.id, &UpdateParentRequest { parent_id: a.id, parent_type: 100 }, ALICE).unwrap();
    db.update_item_parent(c.id, &UpdateParentRequest { parent_id: b.id, parent_type: 100 }, ALICE).unwrap();
    let under_grandchild = UpdateParentRequest { parent_id: c.id, parent_type: 100 };
    assert_eq!(db.update_item_parent(a.id, &under_grandchild, ALICE), Err(CrudError::InvalidParent));
    assert_eq!(db.items[0].parent_id, None);
}
