use journali_api::database::Database;
use journali_api::error::CrudError;
use journali_api::jwt::{Jwt, Token, ISSUER, TOKEN_LIFETIME};
use journali_api::page::NewPage;
use journali_api::tags::{NewTag, Tag, TagsItem, TagsItemRequest, UpdateTag};
use journali_api::users::{accepts, authenticate, LoginUser, NewUser, UpdateUser, User};

fn new_user(name: &str, password: &str) -> NewUser {
    NewUser { username: name.into(), password: password.into() }
}

fn login_of(name: &str, password: &str) -> LoginUser {
    LoginUser { username: name.into(), password: password.into() }
}

#[test]
fn test_register() {
    let mut db = Database::new();
    let user = db.register(&new_user("sailor jack", "black pearl")).unwrap();
    assert_eq!(user.username, "sailor jack");
    assert_ne!(user.password, "black pearl");
    assert!(bcrypt::verify("black pearl", &user.password).unwrap());
}

#[test]
fn test_login() {
    let mut db = Database::new();
    db.register(&new_user("sailor2", "black pearl")).unwrap();
    let token = db.issue_token(&login_of("sailor2", "black pearl"), "secret").unwrap();
    assert!(!token.token.is_empty());
    let claims = db.login(&login_of("sailor2", "black pearl")).unwrap();
    assert_eq!(claims.iss, "journali.nl");
}

#[test]
fn login_scenario() {
    let mut db = Database::new();
    let alice = db.register(&new_user("alice", "s3cret")).unwrap();
    let claims = db.login(&login_of("alice", "s3cret")).unwrap();
    assert_eq!(claims.sub(), alice.id);
    assert_eq!(claims.iss, ISSUER);
    assert_eq!(db.login(&login_of("alice", "wrong")), Err(CrudError::Unauthorized));
    assert_eq!(CrudError::Unauthorized.status(), 401);
    assert_eq!(db.login(&login_of("nobody", "s3cret")), Err(CrudError::Unauthorized));
}

#[test]
fn duplicate_username_conflicts() {
    let mut db = Database::new();
    db.register(&new_user("bob", "one")).unwrap();
    assert_eq!(db.register(&new_user("bob", "two")), Err(CrudError::Conflict));
    assert_eq!(db.users.len(), 1);
}

#[test]
fn insert_keeps_hash_and_rejects_taken_id() {
    let mut users: Vec<User> = Vec::new();
    let u = User::insert(&mut users, new_user("x", "hash"), 5).unwrap();
    assert_eq!(u, User { id: 5, username: "x".into(), password: "hash".into() });
    assert_eq!(User::insert(&mut users, new_user("y", "hash"), 5), Err(CrudError::Conflict));
    assert_eq!(User::find_by_id(&users, 5), Ok(u));
    assert_eq!(User::find_by_id(&users, 6), Err(CrudError::NotFound));
}

#[test]
fn verdicts() {
    assert!(accepts(Some(true)));
    assert!(!accepts(Some(false)));
    assert!(!accepts(None));
}

#[test]
fn verify_password_uses_the_stored_hash() {
    let mut users: Vec<User> = Vec::new();
    let u = User::create(&mut users, &new_user("carol", "pw"), 1).unwrap();
    assert!(u.verify_password(&login_of("carol", "pw")));
    assert!(!u.verify_password(&login_of("carol", "pW")));
    let garbled = User { id: 2, username: "dan".into(), password: "not a hash".into() };
    assert!(!garbled.verify_password(&login_of("dan", "not a hash")));
    assert_eq!(User::find(&users, &login_of("carol", "pw")).unwrap().id, 1);
    assert_eq!(User::find(&users, &login_of("carol", "no")), Err(CrudError::NotFound));
}

#[test]
fn hashing_a_registration_keeps_the_username() {
    let hashed = new_user("erin", "pw").hash_password().unwrap();
    assert_eq!(hashed.username, "erin");
    assert!(bcrypt::verify("pw", &hashed.password).unwrap());
}

#[test]
fn user_update_is_partial() {
    let mut db = Database::new();
    let a = db.register(&new_user("a", "pa")).unwrap();
    let b = db.register(&new_user("b", "pb")).unwrap();
    let upd = UpdateUser { username: Some("b".into()), password: None };
    assert_eq!(User::update(&mut db.users, a.id, upd), Err(CrudError::Conflict));
    let upd = UpdateUser { username: None, password: None };
    assert_eq!(User::update(&mut db.users, 999, upd), Err(CrudError::NotFound));
    let upd = UpdateUser { username: Some("anna".into()), password: None };
    let a2 = User::update(&mut db.users, a.id, upd).unwrap();
    assert_eq!((a2.username.as_str(), a2.password.as_str()), ("anna", a.password.as_str()));
    let upd = UpdateUser { username: None, password: Some("fresh".into()) };
    let b2 = User::update(&mut db.users, b.id, upd).unwrap();
    assert_eq!(b2.username, "b");
    assert!(bcrypt::verify("fresh", &b2.password).unwrap());
    assert!(db.login(&login_of("b", "fresh")).is_ok());
}

#[test]
fn authenticate_resolves_the_subject() {
    let mut db = Database::new();
    let a = db.register(&new_user("a", "pa")).unwrap();
    let claims = a.into_jwt(1_000);
    assert_eq!(claims.exp, 1_000 + 30 * 86400);
    assert_eq!(authenticate(&db.users, &claims), Ok(a));
    let stranger = Jwt::new("journali.nl".into(), TOKEN_LIFETIME, 42, 0);
    assert_eq!(authenticate(&db.users, &stranger), Err(CrudError::Unauthorized));
}

#[test]
fn jwt_expiry_saturates() {
    let j = Jwt::new("i".into(), 10, 3, i64::MAX - 5);
    assert_eq!(j.exp, i64::MAX);
    let j = Jwt::new("i".into(), -10, 3, i64::MIN + 5);
    assert_eq!(j.exp, i64::MIN);
    let j = Jwt::new("i".into(), 10, 3, 100);
    assert_eq!((j.exp, j.sub(), j.iss.as_str()), (110, 3, "i"));
    assert_eq!(Token::new("abc".into()).token, "abc");
}

#[test]
fn test_create_tag() {
    let mut db = Database::new();
    let tag = db.create_tag(NewTag { name: "school".into(), color: "0xFFFFFF".into() }, 1).unwrap();
    assert_eq!((tag.name.as_str(), tag.color.as_str(), tag.owner_id), ("school", "0xFFFFFF", 1));
}

#[test]
fn tag_scenario() {
    let mut db = Database::new();
    let user = 1;
    let tag = db.create_tag(NewTag { name: "school".into(), color: "0xFFFFFF".into() }, user).unwrap();
    let page = db.create_page(NewPage { title: "notes".into() }, user).unwrap();
    let reqs = vec![TagsItemRequest { id: page.id, item_type: 100 }];
    let added = TagsItem::add_items(&db.tags, &db.items, &mut db.tags_items, tag.id, &reqs, user);
    assert_eq!(added, Ok(1));
    assert_eq!(
        TagsItem::find_all(&db.tags_items, tag.id),
        vec![TagsItem { tag_id: tag.id, item_id: page.id, item_type: 100 }]
    );
    let listed = Tag::find_all(&db.tags, &db.tags_items, user);
    assert_eq!(listed[0].items, vec![(page.id, 100)]);
    let removed = TagsItem::delete_items(&db.tags, &mut db.tags_items, tag.id, &reqs, user);
    assert_eq!(removed, Ok(1));
    assert!(db.tags_items.is_empty());
    let listed = Tag::find_all(&db.tags, &db.tags_items, user);
    assert_eq!(listed.len(), 1);
    assert_eq!(listed[0].id, tag.id);
    assert!(listed[0].items.is_empty());
}

#[test]
fn tagging_is_owner_scoped() {
    let mut db = Database::new();
    let tag = db.create_tag(NewTag { name: "t".into(), color: "c".into() }, 1).unwrap();
    let mine = db.create_page(NewPage { title: "mine".into() }, 1).unwrap();
    let theirs = db.create_page(NewPage { title: "theirs".into() }, 2).unwrap();
    let reqs = vec![TagsItemRequest { id: mine.id, item_type: 100 }];
    assert_eq!(
        TagsItem::add_items(&db.tags, &db.items, &mut db.tags_items, tag.id, &reqs, 2),
        Err(CrudError::NotFound)
    );
    let foreign = vec![TagsItemRequest { id: theirs.id, item_type: 100 }];
    assert_eq!(
        TagsItem::add_items(&db.tags, &db.items, &mut db.tags_items, tag.id, &foreign, 1),
        Err(CrudError::NotFound)
    );
    let twice = vec![reqs[0], reqs[0]];
    assert_eq!(
        TagsItem::add_items(&db.tags, &db.items, &mut db.tags_items, tag.id, &twice, 1),
        Err(CrudError::Conflict)
    );
    assert!(db.tags_items.is_empty());
    assert_eq!(TagsItem::add_items(&db.tags, &db.items, &mut db.tags_items, tag.id, &reqs, 1), Ok(1));
    assert_eq!(
        TagsItem::add_items(&db.tags, &db.items, &mut db.tags_items, tag.id, &reqs, 1),
        Err(CrudError::Conflict)
    );
    assert_eq!(
        TagsItem::delete_items(&db.tags, &mut db.tags_items, tag.id, &reqs, 2),
        Err(CrudError::NotFound)
    );
    assert_eq!(db.tags_items.len(), 1);
}

#[test]
fn tag_update_and_delete() {
    let mut db = Database::new();
    let tag = db.create_tag(NewTag { name: "t".into(), color: "c".into() }, 1).unwrap();
    let other = db.create_tag(NewTag { name: "o".into(), color: "c".into() }, 2).unwrap();
    let page = db.create_page(NewPage { title: "p".into() }, 1).unwrap();
    let reqs = vec![TagsItemRequest { id: page.id, item_type: 100 }];
    TagsItem::add_items(&db.tags, &db.items, &mut db.tags_items, tag.id, &reqs, 1).unwrap();
    let upd = UpdateTag { name: "u".into(), color: "d".into() };
    assert_eq!(Tag::update(&mut db.tags, tag.id, upd.clone(), 2), Err(CrudError::NotFound));
    let t2 = Tag::update(&mut db.tags, tag.id, upd, 1).unwrap();
    assert_eq!(t2, Tag { id: tag.id, name: "u".into(), color: "d".into(), owner_id: 1 });
    assert_eq!(Tag::delete(&mut db.tags, &mut db.tags_items, tag.id, 2), Err(CrudError::NotFound));
    assert_eq!(Tag::delete(&mut db.tags, &mut db.tags_items, tag.id, 1), Ok(()));
    assert!(db.tags_items.is_empty());
    assert_eq!(db.tags.len(), 1);
    assert_eq!(Tag::find_all(&db.tags, &db.tags_items, 1).len(), 0);
    assert_eq!(Tag::find_all(&db.tags, &db.tags_items, 2)[0].id, other.id);
    let fresh = Tag::create(&mut db.tags, NewTag { name: "n".into(), color: "c".into() }, 1, other.id);
    assert_eq!(fresh, Err(CrudError::Conflict));
    let t = Tag::from_partial(NewTag { name: "n".into(), color: "c".into() }, 9, 8);
    assert_eq!(t, Tag { id: 8, name: "n".into(), color: "c".into(), owner_id: 9 });
}

#[test]
fn users_update_only_themselves() {
    let mut db = Database::new();
    let a = db.register(&new_user("a", "pa")).unwrap();
    let b = db.register(&new_user("b", "pb")).unwrap();
    let upd = UpdateUser { username: Some("evil".into()), password: None };
    assert_eq!(db.update_user(b.id, upd, a.id), Err(CrudError::NotFound));
    let upd = UpdateUser { username: Some("bee".into()), password: None };
    assert_eq!(db.update_user(b.id, upd, b.id).unwrap().username, "bee");
}

#[test]
fn issued_token_is_signed_for_the_user() {
    let mut db = Database::new();
    let alice = db.register(&new_user("alice", "s3cret")).unwrap();
    let token = db.issue_token(&login_of("alice", "s3cret"), "topsecret").unwrap();
    assert!(!token.token.is_empty());
    assert_eq!(token.token.matches('.').count(), 2);
    let mut validation = jsonwebtoken::Validation::default();
    validation.set_issuer(&["journali.nl"]);
    let data = jsonwebtoken::decode::<std::collections::HashMap<String, serde_json::Value>>(
        &token.token,
        &jsonwebtoken::DecodingKey::from_secret(b"topsecret"),
        &validation,
    )
    .unwrap();
    let sub = data.claims["sub"].as_str().unwrap().to_string();
    assert_eq!(uuid::Uuid::parse_str(&sub).unwrap().as_u128(), alice.id);
    assert_eq!(db.issue_token(&login_of("alice", "wrong"), "topsecret"), Err(CrudError::Unauthorized));
}

#[test]
fn tokenize_is_deterministic() {
    let claims = Jwt::new("journali.nl".into(), 60, 7, 1_000);
    let a = claims.tokenize("k");
    let b = claims.tokenize("k");
    assert!(!a.token.is_empty());
    assert_eq!(a, b);
    assert_ne!(claims.tokenize("other"), a);
}
