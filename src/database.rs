//! The whole store, its invariant, listing children of a parent, and the
//! operations that need a fresh id, the clock or a signature.

use vstd::prelude::*;

use crate::crud::ids_unique;
use crate::error::CrudError;
use crate::index::{
    first_key, id_owned, is_first_owned_id, owned_position, key_present, reparented, without_key, would_cycle,
    UpdateParentRequest,
};
use crate::items::{
    spec_from_code, Item, ItemModel, ItemType, ItemTypeNames, PAGE_TYPE, TEXT_FIELD_TYPE,
    TODO_ITEM_TYPE, TODO_TYPE,
};
use crate::jwt::{clamp_i64, expiry_at, Jwt, Token, ISSUER, TOKEN_LIFETIME};
use crate::outside::{new_v4_id, now_timestamp, signed_token, verify_of};
use crate::page::Page;
use crate::table::{first_row, has_row, lemma_first_row, row_position};
use crate::tags::{tag_create_outcome, tags_unique, NewTag, Tag, TagsItem};
use crate::text_field::TextField;
use crate::todo::Todo;
use crate::todo_item::TodoItem;
use crate::users::{
    is_first_login, is_first_user, login, login_match, name_taken, name_taken_by_other,
    registration_conflict, user_id_used,
    users_unique, LoginUser, NewUser, UpdateUser, User,
};
use crate::wf::{lemma_push_other_kind, lemma_remove_key, lemma_same_keys, same_keys, table_wf};

verus! {

/// A resolved content object of any kind.
#[derive(Clone, Debug, PartialEq, Eq)]
pub enum Items {
    Page(Page),
    Todo(Todo),
    TodoItem(TodoItem),
    TextField(TextField),
}

/// The whole store: users, the item index, one table per kind of content
/// object, tags and their association rows.
pub struct Database {
    pub users: Vec<User>,
    pub items: Vec<Item>,
    pub pages: Vec<Page>,
    pub todos: Vec<Todo>,
    pub todo_items: Vec<TodoItem>,
    pub text_fields: Vec<TextField>,
    pub tags: Vec<Tag>,
    pub tags_items: Vec<TagsItem>,
}

/// Every index row whose recorded parent is `pid`, whoever owns it, in the
/// order they were indexed.
pub open spec fn children_of(items: Seq<Item>, pid: u128) -> Seq<Item>
    decreases items.len(),
{
    if items.len() == 0 {
        Seq::empty()
    } else {
        let rest = children_of(items.drop_last(), pid);
        let last = items.last();
        if last.parent_id == Some(pid) {
            rest.push(last)
        } else {
            rest
        }
    }
}

/// Children are listed newest first: three children of `pid`, whoever owns
/// them, indexed one after another under a parent that had none come back
/// as the third, the second, then the first (`find_by_parent` lists
/// position `k` of its result from `kids[kids.len() - 1 - k]`).
pub proof fn lemma_children_newest_first(
    items: Seq<Item>,
    c1: Item,
    c2: Item,
    c3: Item,
    pid: u128,
)
    requires
        children_of(items, pid).len() == 0,
        c1.parent_id == Some(pid),
        c2.parent_id == Some(pid),
        c3.parent_id == Some(pid),
    ensures
        ({
            let kids = children_of(items.push(c1).push(c2).push(c3), pid);
            &&& kids.len() == 3
            &&& kids[kids.len() - 1 - 0] == c3
            &&& kids[kids.len() - 1 - 1] == c2
            &&& kids[kids.len() - 1 - 2] == c1
        }),
{
    let s1 = items.push(c1);
    let s2 = s1.push(c2);
    let s3 = s2.push(c3);
    assert(s1.drop_last() =~= items);
    assert(s2.drop_last() =~= s1);
    assert(s3.drop_last() =~= s2);
    assert(children_of(s1, pid) =~= seq![c1]);
    assert(children_of(s2, pid) =~= seq![c1, c2]);
    assert(children_of(s3, pid) =~= seq![c1, c2, c3]);
}

/// The typed row that an index row stands for, if its table holds it.
pub open spec fn resolve(db: Database, it: Item) -> Option<Items> {
    if it.item_type == PAGE_TYPE && has_row(db.pages@, it.id, PAGE_TYPE) {
        Some(Items::Page(db.pages@[first_row(db.pages@, it.id, PAGE_TYPE)]))
    } else if it.item_type == TODO_TYPE && has_row(db.todos@, it.id, TODO_TYPE) {
        Some(Items::Todo(db.todos@[first_row(db.todos@, it.id, TODO_TYPE)]))
    } else if it.item_type == TODO_ITEM_TYPE && has_row(db.todo_items@, it.id, TODO_ITEM_TYPE) {
        Some(Items::TodoItem(db.todo_items@[first_row(db.todo_items@, it.id, TODO_ITEM_TYPE)]))
    } else if it.item_type == TEXT_FIELD_TYPE && has_row(db.text_fields@, it.id, TEXT_FIELD_TYPE) {
        Some(Items::TextField(db.text_fields@[first_row(db.text_fields@, it.id, TEXT_FIELD_TYPE)]))
    } else {
        None
    }
}

/// Every index row carries one of the four known discriminators.
pub open spec fn kinds_known(items: Seq<Item>) -> bool {
    forall|i: int| 0 <= i < items.len() ==> #[trigger] spec_from_code(items[i].item_type) is Some
}

/// Taking out an index row keeps the discriminators known.
pub proof fn lemma_remove_keeps_kinds(items: Seq<Item>, id: u128, kind: ItemType)
    requires
        kinds_known(items),
    ensures
        kinds_known(without_key(items, id, kind)),
{
    let k = first_key(items, id, kind);
    if 0 <= k {
        let items2 = items.remove(k);
        assert forall|i: int| 0 <= i < items2.len() implies #[trigger] spec_from_code(items2[i].item_type) is Some by {
            let a = if i < k { i } else { i + 1 };
            assert(items2[i] == items[a]);
        }
    }
}

/// Adding an index row of a known kind to a well-formed store keeps the
/// index ids unique where the id is new, keeps every kind known, and keeps
/// each typed table of another kind in agreement.
pub proof fn lemma_index_push(db: Database, item: Item)
    requires
        db.wf(),
        spec_from_code(item.item_type) is Some,
    ensures
        kinds_known(db.items@.push(item)),
        item.item_type != PAGE_TYPE ==> table_wf(db.items@.push(item), db.pages@),
        item.item_type != TODO_TYPE ==> table_wf(db.items@.push(item), db.todos@),
        item.item_type != TODO_ITEM_TYPE ==> table_wf(db.items@.push(item), db.todo_items@),
        item.item_type != TEXT_FIELD_TYPE ==> table_wf(db.items@.push(item), db.text_fields@),
{
    let items2 = db.items@.push(item);
    assert forall|i: int| 0 <= i < items2.len() implies #[trigger] spec_from_code(items2[i].item_type) is Some by {
        if i < db.items@.len() {
            assert(items2[i] == db.items@[i]);
        }
    }
    if item.item_type != PAGE_TYPE {
        lemma_push_other_kind::<Page>(db.items@, db.pages@, item);
    }
    if item.item_type != TODO_TYPE {
        lemma_push_other_kind::<Todo>(db.items@, db.todos@, item);
    }
    if item.item_type != TODO_ITEM_TYPE {
        lemma_push_other_kind::<TodoItem>(db.items@, db.todo_items@, item);
    }
    if item.item_type != TEXT_FIELD_TYPE {
        lemma_push_other_kind::<TextField>(db.items@, db.text_fields@, item);
    }
}

/// Taking the first index row of a key out of a well-formed store keeps
/// the index ids unique, keeps every kind known, and keeps each typed table
/// of another kind in agreement.
pub proof fn lemma_index_remove(db: Database, id: u128, kind: ItemType)
    requires
        db.wf(),
    ensures
        ids_unique(without_key(db.items@, id, kind)),
        kinds_known(without_key(db.items@, id, kind)),
        kind != PAGE_TYPE ==> table_wf(without_key(db.items@, id, kind), db.pages@),
        kind != TODO_TYPE ==> table_wf(without_key(db.items@, id, kind), db.todos@),
        kind != TODO_ITEM_TYPE ==> table_wf(without_key(db.items@, id, kind), db.todo_items@),
        kind != TEXT_FIELD_TYPE ==> table_wf(without_key(db.items@, id, kind), db.text_fields@),
{
    lemma_remove_keeps_kinds(db.items@, id, kind);
    if kind != PAGE_TYPE {
        lemma_remove_key::<Page>(db.items@, db.pages@, id, kind);
    }
    if kind != TODO_TYPE {
        lemma_remove_key::<Todo>(db.items@, db.todos@, id, kind);
    }
    if kind != TODO_ITEM_TYPE {
        lemma_remove_key::<TodoItem>(db.items@, db.todo_items@, id, kind);
    }
    if kind != TEXT_FIELD_TYPE {
        lemma_remove_key::<TextField>(db.items@, db.text_fields@, id, kind);
    }
}

impl Database {
    /// The store's invariant: user ids and usernames are unique, tag ids are
    /// unique, index ids are unique, every index row has a known kind, and
    /// each typed table agrees with the index.
    pub open spec fn wf(self) -> bool {
        &&& users_unique(self.users@)
        &&& tags_unique(self.tags@)
        &&& ids_unique(self.items@)
        &&& kinds_known(self.items@)
        &&& table_wf(self.items@, self.pages@)
        &&& table_wf(self.items@, self.todos@)
        &&& table_wf(self.items@, self.todo_items@)
        &&& table_wf(self.items@, self.text_fields@)
    }

    /// The tables other than the item index and the table of `kind` are
    /// the same in `self` and `other`.
    pub open spec fn same_except(self, other: Database, kind: ItemTypeNames) -> bool {
        &&& (kind != ItemTypeNames::Page ==> self.pages@ == other.pages@)
        &&& (kind != ItemTypeNames::Todo ==> self.todos@ == other.todos@)
        &&& (kind != ItemTypeNames::TodoItem ==> self.todo_items@ == other.todo_items@)
        &&& (kind != ItemTypeNames::TextField ==> self.text_fields@ == other.text_fields@)
        &&& self.users@ == other.users@
        &&& self.tags@ == other.tags@
        &&& self.tags_items@ == other.tags_items@
    }

    /// Everything but the users is the same in `self` and `other`.
    pub open spec fn content_same(self, other: Database) -> bool {
        &&& self.items@ == other.items@
        &&& self.pages@ == other.pages@
        &&& self.todos@ == other.todos@
        &&& self.todo_items@ == other.todo_items@
        &&& self.text_fields@ == other.text_fields@
        &&& self.tags@ == other.tags@
        &&& self.tags_items@ == other.tags_items@
    }

    pub fn new() -> (r: Database)
        ensures
            r.users@.len() == 0,
            r.items@.len() == 0,
            r.tags@.len() == 0,
            r.tags_items@.len() == 0,
            r.pages@.len() == 0,
            r.todos@.len() == 0,
            r.todo_items@.len() == 0,
            r.text_fields@.len() == 0,
            r.wf(),
    {
        Database {
            users: Vec::new(),
            items: Vec::new(),
            pages: Vec::new(),
            todos: Vec::new(),
            todo_items: Vec::new(),
            text_fields: Vec::new(),
            tags: Vec::new(),
            tags_items: Vec::new(),
        }
    }

    fn resolve_item(&self, it: &Item) -> (r: Option<Items>)
        ensures
            r == resolve(*self, *it),
    {
        if it.item_type == PAGE_TYPE {
            if let Some(i) = row_position(&self.pages, it.id, PAGE_TYPE) {
                proof {
                    lemma_first_row(self.pages@, i as int, it.id, PAGE_TYPE);
                }
                return Some(Items::Page(self.pages[i].duplicate()));
            }
        } else if it.item_type == TODO_TYPE {
            if let Some(i) = row_position(&self.todos, it.id, TODO_TYPE) {
                proof {
                    lemma_first_row(self.todos@, i as int, it.id, TODO_TYPE);
                }
                return Some(Items::Todo(self.todos[i].duplicate()));
            }
        } else if it.item_type == TODO_ITEM_TYPE {
            if let Some(i) = row_position(&self.todo_items, it.id, TODO_ITEM_TYPE) {
                proof {
                    lemma_first_row(self.todo_items@, i as int, it.id, TODO_ITEM_TYPE);
                }
                return Some(Items::TodoItem(self.todo_items[i].duplicate()));
            }
        } else if it.item_type == TEXT_FIELD_TYPE {
            if let Some(i) = row_position(&self.text_fields, it.id, TEXT_FIELD_TYPE) {
                proof {
                    lemma_first_row(self.text_fields@, i as int, it.id, TEXT_FIELD_TYPE);
                }
                return Some(Items::TextField(self.text_fields[i].duplicate()));
            }
        }
        None
    }

    /// Registers a user under a fresh random id. Fails with `Conflict` if
    /// the username (or, by chance, the id) is taken, with `Internal` if
    /// hashing failed; nothing changes then.
    pub fn register(&mut self, new: &NewUser) -> (r: Result<User, CrudError>)
        ensures
            name_taken(old(self).users@, new.username@) ==> r == Err::<User, CrudError>(CrudError::Conflict),
            r matches Ok(u) ==> {
                &&& !name_taken(old(self).users@, new.username@)
                &&& !user_id_used(old(self).users@, u.id)
                &&& u.username@ == new.username@
                &&& verify_of(new.password@, u.password@) == Some(true)
                &&& final(self).users@ == old(self).users@.push(u)
            },
            r is Err ==> final(self).users@ == old(self).users@,
            r matches Err(e) ==> e == CrudError::Conflict || e == CrudError::Internal,
            exists|id: u128|
                (r == Err::<User, CrudError>(CrudError::Conflict)) == #[trigger] registration_conflict(
                    old(self).users@,
                    new.username@,
                    id,
                ) && (r matches Ok(u) ==> u.id == id),
            final(self).content_same(*old(self)),
            old(self).wf() ==> final(self).wf(),
    {
        let id = new_v4_id();
        let r = User::create(&mut self.users, new, id);
        assert(registration_conflict(old(self).users@, new.username@, id) == (r == Err::<User, CrudError>(
            CrudError::Conflict,
        )));
        r
    }

    /// Applies a partial update to the user `id` on behalf of `caller`, who
    /// may only update themself: any other id is `NotFound`. Otherwise as
    /// `User::update`.
    pub fn update_user(&mut self, id: u128, upd: UpdateUser, caller: u128) -> (r: Result<User, CrudError>)
        ensures
            caller != id ==> r == Err::<User, CrudError>(CrudError::NotFound),
            caller == id && !user_id_used(old(self).users@, id) ==> r == Err::<User, CrudError>(
                CrudError::NotFound,
            ),
            caller == id && user_id_used(old(self).users@, id) && (upd.username matches Some(n)
                && name_taken_by_other(old(self).users@, n@, id)) ==> r == Err::<User, CrudError>(
                CrudError::Conflict,
            ),
            r is Err ==> final(self).users@ == old(self).users@,
            r matches Ok(u) ==> exists|i: int|
                {
                    &&& #[trigger] is_first_user(old(self).users@, i, id)
                    &&& u.id == id
                    &&& u.username == (match upd.username {
                        Some(n) => n,
                        None => old(self).users@[i].username,
                    })
                    &&& (upd.password is None ==> u.password == old(self).users@[i].password)
                    &&& (upd.password matches Some(p) ==> verify_of(p@, u.password@) == Some(true))
                    &&& final(self).users@ == old(self).users@.update(i, u)
                },
            final(self).content_same(*old(self)),
            old(self).wf() ==> final(self).wf(),
    {
        if caller != id {
            return Err(CrudError::NotFound);
        }
        User::update(&mut self.users, id, upd)
    }

    /// Checks a login and issues, at the current time, the claims of a token
    /// for the user it names. Fails with `Unauthorized` if no stored user
    /// matches.
    pub fn login(&self, attempt: &LoginUser) -> (r: Result<Jwt, CrudError>)
        ensures
            r matches Ok(t) ==> exists|i: int, now: i64|
                #![trigger self.users@[i], expiry_at(now)]
                is_first_login(self.users@, i, *attempt) && t.sub == self.users@[i].id && t.iss@ == ISSUER@
                    && t.exp == expiry_at(now),
            r matches Err(e) ==> e == CrudError::Unauthorized && forall|i: int|
                0 <= i < self.users@.len() ==> !#[trigger] login_match(self.users@[i], *attempt),
    {
        let now = now_timestamp();
        let r = login(&self.users, attempt, now);
        proof {
            if let Ok(t) = &r {
                let i = choose|i: int|
                    is_first_login(self.users@, i, *attempt) && t.sub == #[trigger] self.users@[i].id
                        && t.iss@ == ISSUER@ && t.exp == clamp_i64(now + TOKEN_LIFETIME);
                assert(is_first_login(self.users@, i, *attempt) && t.sub == self.users@[i].id
                    && t.iss@ == ISSUER@ && t.exp == expiry_at(now));
            }
        }
        r
    }

    /// Checks a login and signs, with `secret`, a token issued at the
    /// current time for the user it names. Fails with `Unauthorized`, and
    /// only then, if no stored user matches.
    pub fn issue_token(&self, attempt: &LoginUser, secret: &str) -> (r: Result<Token, CrudError>)
        ensures
            r matches Ok(tok) ==> tok.token@.len() > 0 && exists|i: int, now: i64|
                #![trigger self.users@[i], expiry_at(now)]
                is_first_login(self.users@, i, *attempt) && tok.token@ == signed_token(
                    ISSUER@,
                    expiry_at(now),
                    self.users@[i].id,
                    secret@,
                ),
            r is Ok <==> exists|i: int| 0 <= i < self.users@.len() && #[trigger] login_match(self.users@[i], *attempt),
            r matches Err(e) ==> e == CrudError::Unauthorized && forall|i: int|
                0 <= i < self.users@.len() ==> !#[trigger] login_match(self.users@[i], *attempt),
    {
        match self.login(attempt) {
            Ok(claims) => {
                let tok = claims.tokenize(secret);
                proof {
                    let (i, now) = choose|i: int, now: i64|
                        #![trigger self.users@[i], expiry_at(now)]
                        is_first_login(self.users@, i, *attempt) && claims.sub == self.users@[i].id
                            && claims.iss@ == ISSUER@ && claims.exp == expiry_at(now);
                    assert(login_match(self.users@[i], *attempt));
                    assert(tok.token@ == signed_token(
                        ISSUER@,
                        expiry_at(now),
                        self.users@[i].id,
                        secret@,
                    ));
                }
                Ok(tok)
            },
            Err(e) => Err(e),
        }
    }

    /// Creates a tag of `caller` under a fresh random id. Fails with
    /// `Conflict`, changing nothing, if the id is taken.
    pub fn create_tag(&mut self, new: NewTag, caller: u128) -> (r: Result<Tag, CrudError>)
        ensures
            exists|id: u128| #[trigger] tag_create_outcome(old(self).tags@, final(self).tags@, r, new, caller, id),
            final(self).users@ == old(self).users@,
            final(self).items@ == old(self).items@,
            final(self).pages@ == old(self).pages@,
            final(self).todos@ == old(self).todos@,
            final(self).todo_items@ == old(self).todo_items@,
            final(self).text_fields@ == old(self).text_fields@,
            final(self).tags_items@ == old(self).tags_items@,
            old(self).wf() ==> final(self).wf(),
    {
        let id = new_v4_id();
        let ghost payload = new;
        let r = Tag::create(&mut self.tags, new, caller, id);
        assert(tag_create_outcome(old(self).tags@, self.tags@, r, payload, caller, id));
        r
    }

    /// Moves the item `id` of `caller` under another parent, stamping it
    /// with the current time. Fails with `NotFound` if `caller` has no item
    /// with this id, with `InvalidParent` if the parent is not indexed, or
    /// is the item itself or lies below it; nothing changes then.
    pub fn update_item_parent(&mut self, id: u128, form: &UpdateParentRequest, caller: u128) -> (r:
        Result<Item, CrudError>)
        ensures
            !id_owned(old(self).items@, id, caller) ==> r == Err::<Item, CrudError>(CrudError::NotFound),
            id_owned(old(self).items@, id, caller) && (would_cycle(old(self).items@, id, form.parent_id) || !key_present(
                old(self).items@,
                form.parent_id,
                form.parent_type,
            )) ==> r == Err::<Item, CrudError>(CrudError::InvalidParent),
            r is Err ==> final(self).items@ == old(self).items@,
            r is Ok <==> id_owned(old(self).items@, id, caller) && !would_cycle(old(self).items@, id, form.parent_id) && key_present(
                old(self).items@,
                form.parent_id,
                form.parent_type,
            ),
            final(self).same_except(*old(self), ItemTypeNames::Page),
            final(self).pages@ == old(self).pages@,
            old(self).wf() ==> final(self).wf(),
            r matches Ok(it) ==> exists|i: int, now: i64|
                #[trigger] is_first_owned_id(old(self).items@, i, id, caller) && it == #[trigger] reparented(
                    old(self).items@[i],
                    *form,
                    now,
                ) && final(self).items@ == old(self).items@.update(i, it),
    {
        let now = now_timestamp();
        let r = Item::update_parent(&mut self.items, id, form, caller, now);
        proof {
            if let Ok(it) = r {
                let i = choose|i: int|
                    #[trigger] is_first_owned_id(old(self).items@, i, id, caller) && it == reparented(
                        old(self).items@[i],
                        *form,
                        now,
                    ) && self.items@ == old(self).items@.update(i, it);
                assert(is_first_owned_id(old(self).items@, i, id, caller) && it == reparented(
                    old(self).items@[i],
                    *form,
                    now,
                ));
                if old(self).wf() {
                    assert(same_keys(old(self).items@, self.items@)) by {
                        assert forall|j: int| 0 <= j < old(self).items@.len() implies (#[trigger] old(self).items@[j]).id
                            == self.items@[j].id && old(self).items@[j].item_type == self.items@[j].item_type by {
                            if j != i {
                                assert(self.items@[j] == old(self).items@[j]);
                            }
                        }
                    }
                    lemma_same_keys::<Page>(old(self).items@, self.items@, self.pages@);
                    lemma_same_keys::<Todo>(old(self).items@, self.items@, self.todos@);
                    lemma_same_keys::<TodoItem>(old(self).items@, self.items@, self.todo_items@);
                    lemma_same_keys::<TextField>(old(self).items@, self.items@, self.text_fields@);
                    assert forall|j: int| 0 <= j < self.items@.len() implies #[trigger] spec_from_code(
                        self.items@[j].item_type,
                    ) is Some by {
                        assert(spec_from_code(old(self).items@[j].item_type) is Some);
                        if j != i {
                            assert(self.items@[j] == old(self).items@[j]);
                        }
                    }
                }
            }
        }
        r
    }

    /// Every child of `pid`, whoever owns it, each resolved into its typed
    /// row, the most recently indexed first. Only the owner of `pid` may
    /// list them: fails with `NotFound` if `caller` owns no item with the id
    /// `pid`, and with `Internal` if some child has no typed row.
    pub fn find_by_parent(&self, pid: u128, caller: u128) -> (r: Result<Vec<Items>, CrudError>)
        ensures
            !id_owned(self.items@, pid, caller) ==> r == Err::<Vec<Items>, CrudError>(CrudError::NotFound),
            id_owned(self.items@, pid, caller) ==> ({
                let kids = children_of(self.items@, pid);
                match r {
                    Ok(v) => {
                        &&& v@.len() == kids.len()
                        &&& forall|k: int|
                            0 <= k < kids.len() ==> resolve(*self, #[trigger] kids[kids.len() - 1 - k])
                                == Some(v@[k])
                    },
                    Err(e) => {
                        &&& e == CrudError::Internal
                        &&& exists|k: int| 0 <= k < kids.len() && resolve(*self, #[trigger] kids[k]) is None
                    },
                }
            }),
    {
        match owned_position(&self.items, pid, caller) {
            None => return Err(CrudError::NotFound),
            Some(j) => {
                assert(self.items@[j as int].id == pid && self.items@[j as int].owner_id == caller);
            },
        }
        let mut kids: Vec<Item> = Vec::new();
        let mut i: usize = 0;
        while i < self.items.len()
            invariant
                i <= self.items@.len(),
                id_owned(self.items@, pid, caller),
                kids@ == children_of(self.items@.subrange(0, i as int), pid),
            decreases self.items@.len() - i,
        {
            let it = self.items[i];
            proof {
                assert(self.items@.subrange(0, i as int + 1).drop_last() =~= self.items@.subrange(0, i as int));
            }
            if it.parent_id == Some(pid) {
                kids.push(it);
            }
            i += 1;
        }
        proof {
            assert(self.items@.subrange(0, self.items@.len() as int) =~= self.items@);
        }
        let ghost all = kids@;
        let n = kids.len();
        let mut out: Vec<Items> = Vec::new();
        let mut k: usize = 0;
        while k < n
            invariant
                n == all.len(),
                id_owned(self.items@, pid, caller),
                kids@ == all,
                all == children_of(self.items@, pid),
                k <= n,
                out@.len() == k,
                forall|m: int| 0 <= m < k ==> resolve(*self, #[trigger] all[n - 1 - m]) == Some(out@[m]),
            decreases n - k,
        {
            match self.resolve_item(&kids[n - 1 - k]) {
                Some(x) => {
                    out.push(x);
                },
                None => {
                    return Err(CrudError::Internal);
                },
            }
            k += 1;
        }
        Ok(out)
    }
}

} // verus!
