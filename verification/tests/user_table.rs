use axum_tenancy::user::{insert, insert_with_id, load_all_sorted, load_by_id, update, UserTable};
use axum_tenancy::user_core::{SortDirection, User, UserError, UserId, UserSort};

#[test]
fn insert_user_no_dup_user_name() {
    let mut tx = UserTable::new();
    let user_result = insert(
        &mut tx,
        "Dave",
        "Dave Warnock",
        true,
        "dwarnock@test.com",
        "01234567891",
    );
    assert_eq!(&user_result.is_ok(), &true);
    assert!(insert(
        &mut tx,
        "Dave",
        "not Dave Warnock",
        true,
        "dwarnock@test.com",
        "01234567891"
    )
    .is_err());
}

#[test]
fn insert_user_no_dup_display_name() {
    let mut tx = UserTable::new();
    let user_result = insert(
        &mut tx,
        "Dave",
        "Dave Warnock",
        true,
        "dwarnock@test.com",
        "01234567891",
    );
    assert_eq!(&user_result.is_ok(), &true);
    assert!(insert(
        &mut tx,
        "NotDave",
        "Dave Warnock",
        true,
        "dwarnock@test.com",
        "01234567891"
    )
    .is_err());
}

#[test]
fn insert_then_check_load_user() {
    let mut tx = UserTable::new();
    let user_result = insert(
        &mut tx,
        "Dave",
        "Dave Warnock",
        true,
        "dwarnock@test.com",
        "01234567891",
    );
    assert_eq!(&user_result.is_ok(), &true);

    let inserted_uuid = user_result.unwrap_or_default();
    assert_ne!(&inserted_uuid.to_string(), "");

    let load_result = load_by_id(&tx, inserted_uuid);
    assert_eq!(&load_result.is_ok(), &true);

    let loaded_user = load_result.unwrap_or_default();
    assert_eq!(&loaded_user.user_id, &inserted_uuid);
    assert_eq!(&loaded_user.user_name.to_string(), &"Dave");
    assert_eq!(&loaded_user.display_name.to_string(), &"Dave Warnock");
    assert_eq!(&loaded_user.is_admin, &true);
    assert_eq!(&loaded_user.email.to_string(), &"dwarnock@test.com");
    assert_eq!(&loaded_user.mobile_phone.to_string(), &"01234567891");
}

#[test]
fn insert_update_then_check() {
    let mut tx = UserTable::new();
    let insert_result = insert(
        &mut tx,
        "Dave",
        "Dave Warnock",
        true,
        "dwarnock@test.com",
        "01234567891",
    );
    assert_eq!(&insert_result.is_ok(), &true);

    let inserted_uuid = insert_result.unwrap_or_default();
    assert_ne!(&inserted_uuid.to_string(), "");

    let update_result = update(
        &mut tx,
        &inserted_uuid,
        "not Dave",
        "not Dave Warnock",
        false,
        "not dwarnock@test.com",
        "6601234567891",
    );
    assert_eq!(&update_result.is_ok(), &true);
    let rows_affected = update_result.unwrap();
    assert_eq!(rows_affected, 1);

    let load_result = load_by_id(&tx, inserted_uuid);
    assert_eq!(&load_result.is_ok(), &true);

    let loaded_user = load_result.unwrap_or_default();
    assert_eq!(&loaded_user.user_id, &inserted_uuid);
    assert_eq!(&loaded_user.user_name.to_string(), &"not Dave");
    assert_eq!(&loaded_user.display_name.to_string(), &"not Dave Warnock");
    assert_eq!(&loaded_user.is_admin, &false);
    assert_eq!(&loaded_user.email.to_string(), &"not dwarnock@test.com");
    assert_eq!(&loaded_user.mobile_phone.to_string(), &"6601234567891");
}

#[test]
fn insert_two_check_load_all() {
    let mut tx = UserTable::new();
    let user_result1 = insert(
        &mut tx,
        "zDave",
        "Dave Warnock",
        true,
        "dwarnock@test.com",
        "01234567891",
    );
    assert_eq!(&user_result1.is_ok(), &true);

    let inserted_uuid1 = user_result1.unwrap_or_default();
    assert_ne!(&inserted_uuid1.to_string(), "");

    let user_result2 = insert(
        &mut tx,
        "Dave2",
        "Dave Warnock2",
        false,
        "dwarnock@test.com2",
        "012345678912",
    );
    assert_eq!(&user_result2.is_ok(), &true);

    let inserted_uuid2 = user_result2.unwrap_or_default();
    assert_ne!(&inserted_uuid2.to_string(), "");

    let load_result = load_all_sorted(&tx, UserSort::UserName, SortDirection::Asc);
    assert_eq!(&load_result.is_ok(), &true);
    let vec_users = &load_result.unwrap();
    assert_eq!(&vec_users.len(), &2usize);

    let loaded_user2 = &vec_users[0];
    assert_eq!(&loaded_user2.user_id, &inserted_uuid2);
    assert_eq!(&loaded_user2.user_name.to_string(), &"Dave2");
    assert_eq!(&loaded_user2.display_name.to_string(), &"Dave Warnock2");
    assert_eq!(&loaded_user2.is_admin, &false);
    assert_eq!(&loaded_user2.email.to_string(), &"dwarnock@test.com2");
    assert_eq!(&loaded_user2.mobile_phone.to_string(), &"012345678912");

    let loaded_user1 = &vec_users[1];
    assert_eq!(&loaded_user1.user_id, &inserted_uuid1);
    assert_eq!(&loaded_user1.user_name.to_string(), &"zDave");
    assert_eq!(&loaded_user1.display_name.to_string(), &"Dave Warnock");
    assert_eq!(&loaded_user1.is_admin, &true);
    assert_eq!(&loaded_user1.email.to_string(), &"dwarnock@test.com");
    assert_eq!(&loaded_user1.mobile_phone.to_string(), &"01234567891");
}

#[test]
fn insert_two_check_sort_desc() {
    let mut tx = UserTable::new();
    let user_result1 = insert(
        &mut tx,
        "zDave",
        "Dave Warnock",
        true,
        "dwarnock@test.com",
        "01234567891",
    );
    assert_eq!(&user_result1.is_ok(), &true);

    let inserted_uuid1 = user_result1.unwrap_or_default();
    assert_ne!(&inserted_uuid1.to_string(), "");

    let user_result2 = insert(
        &mut tx,
        "Dave2",
        "Dave Warnock2",
        false,
        "dwarnock@test.com2",
        "012345678912",
    );
    assert_eq!(&user_result2.is_ok(), &true);

    let inserted_uuid2 = user_result2.unwrap_or_default();
    assert_ne!(&inserted_uuid2.to_string(), "");

    let load_result = load_all_sorted(&tx, UserSort::DisplayName, SortDirection::Desc);
    assert_eq!(&load_result.is_ok(), &true);
    let vec_users = &load_result.unwrap();
    assert_eq!(&vec_users.len(), &2usize);

    let loaded_user2 = &vec_users[0];
    assert_eq!(&loaded_user2.user_id, &inserted_uuid2);
    assert_eq!(&loaded_user2.user_name.to_string(), &"Dave2");
    assert_eq!(&loaded_user2.display_name.to_string(), &"Dave Warnock2");
    assert_eq!(&loaded_user2.is_admin, &false);
    assert_eq!(&loaded_user2.email.to_string(), &"dwarnock@test.com2");
    assert_eq!(&loaded_user2.mobile_phone.to_string(), &"012345678912");

    let loaded_user1 = &vec_users[1];
    assert_eq!(&loaded_user1.user_id, &inserted_uuid1);
    assert_eq!(&loaded_user1.user_name.to_string(), &"zDave");
    assert_eq!(&loaded_user1.display_name.to_string(), &"Dave Warnock");
    assert_eq!(&loaded_user1.is_admin, &true);
    assert_eq!(&loaded_user1.email.to_string(), &"dwarnock@test.com");
    assert_eq!(&loaded_user1.mobile_phone.to_string(), &"01234567891");
}

fn names(users: &[User]) -> Vec<String> {
    users.iter().map(|user| user.user_name.clone()).collect()
}

#[test]
fn new_table_is_empty() {
    let table = UserTable::new();
    assert_eq!(table.len(), 0);
    let listed = load_all_sorted(&table, UserSort::UserName, SortDirection::Asc).unwrap();
    assert!(listed.is_empty());
}

#[test]
fn inserted_id_is_random_and_not_nil() {
    let mut table = UserTable::new();
    let id = insert(&mut table, "Dave", "Dave Warnock", false, "", "").unwrap();
    assert!(!id.is_nil());
    assert_ne!(id, UserId::nil());
    assert_eq!(
        id.as_u128() & 0x0000_0000_0000_f000_c000_0000_0000_0000,
        0x0000_0000_0000_4000_8000_0000_0000_0000
    );
    assert_eq!(table.len(), 1);
}

#[test]
fn insert_keeps_admin_flag_either_way() {
    let mut table = UserTable::new();
    let admin = insert(&mut table, "a", "A", true, "a@x", "1").unwrap();
    let plain = insert(&mut table, "b", "B", false, "b@x", "2").unwrap();
    assert_ne!(admin, plain);
    assert!(load_by_id(&table, admin).unwrap().is_admin);
    assert!(!load_by_id(&table, plain).unwrap().is_admin);
}

#[test]
fn duplicate_user_name_leaves_first_row_unaffected() {
    let mut table = UserTable::new();
    let first = insert(&mut table, "Dave", "Dave Warnock", true, "dwarnock@test.com", "01234567891")
        .unwrap();
    let second = insert(&mut table, "Dave", "not Dave Warnock", false, "other@test.com", "999");
    assert!(matches!(second, Err(UserError::UniqueConstraintViolation)));
    assert_eq!(table.len(), 1);
    let kept = load_by_id(&table, first).unwrap();
    assert_eq!(kept.user_name, "Dave");
    assert_eq!(kept.display_name, "Dave Warnock");
    assert!(kept.is_admin);
    assert_eq!(kept.email, "dwarnock@test.com");
    assert_eq!(kept.mobile_phone, "01234567891");
}

#[test]
fn duplicate_display_name_leaves_first_row_unaffected() {
    let mut table = UserTable::new();
    let first = insert(&mut table, "Dave", "Dave Warnock", true, "dwarnock@test.com", "01234567891")
        .unwrap();
    let second = insert(&mut table, "NotDave", "Dave Warnock", false, "other@test.com", "999");
    assert!(matches!(second, Err(UserError::UniqueConstraintViolation)));
    assert_eq!(table.len(), 1);
    let kept = load_by_id(&table, first).unwrap();
    assert_eq!(kept.user_name, "Dave");
    assert_eq!(kept.email, "dwarnock@test.com");
}

#[test]
fn same_email_and_phone_are_accepted() {
    let mut table = UserTable::new();
    assert!(insert(&mut table, "a", "A", true, "same@test.com", "0123").is_ok());
    assert!(insert(&mut table, "b", "B", true, "same@test.com", "0123").is_ok());
    assert_eq!(table.len(), 2);
}

#[test]
fn insert_with_id_uses_the_given_id() {
    let mut table = UserTable::new();
    let id = UserId::from_u128(0x1234_5678_9abc_4def_8123_4567_89ab_cdef);
    assert_eq!(insert_with_id(&mut table, id, "Dave", "Dave Warnock", true, "e", "p").ok(), Some(id));
    let loaded = load_by_id(&table, id).unwrap();
    assert_eq!(loaded.user_id, id);
    assert_eq!(loaded.user_name, "Dave");
    assert_eq!(loaded.display_name, "Dave Warnock");
    assert_eq!(loaded.email, "e");
    assert_eq!(loaded.mobile_phone, "p");
}

#[test]
fn insert_with_id_refuses_an_id_in_use() {
    let mut table = UserTable::new();
    let id = UserId::from_u128(7);
    assert_eq!(insert_with_id(&mut table, id, "a", "A", true, "", "").ok(), Some(id));
    assert!(matches!(insert_with_id(&mut table, id, "b", "B", true, "", ""), Err(UserError::UniqueConstraintViolation)));
    assert_eq!(table.len(), 1);
    assert_eq!(load_by_id(&table, id).unwrap().user_name, "a");
}

#[test]
fn load_by_id_of_unknown_id_is_not_found() {
    let mut table = UserTable::new();
    let empty = load_by_id(&table, UserId::from_u128(0x0f0e_0d0c_0b0a_4908_8706_0504_0302_0100));
    assert!(matches!(empty, Err(UserError::NotFound)));
    let id = insert(&mut table, "Dave", "Dave Warnock", true, "", "").unwrap();
    let other = UserId::from_u128(id.as_u128() ^ 1);
    assert!(matches!(load_by_id(&table, other), Err(UserError::NotFound)));
    assert!(matches!(load_by_id(&table, UserId::nil()), Err(UserError::NotFound)));
}

#[test]
fn load_by_id_twice_gives_the_same() {
    let mut table = UserTable::new();
    let id = insert(&mut table, "Dave", "Dave Warnock", true, "dwarnock@test.com", "0123").unwrap();
    let first = load_by_id(&table, id).unwrap();
    let second = load_by_id(&table, id).unwrap();
    assert_eq!(first.user_id, second.user_id);
    assert_eq!(first.user_name, second.user_name);
    assert_eq!(first.display_name, second.display_name);
    assert_eq!(first.is_admin, second.is_admin);
    assert_eq!(first.email, second.email);
    assert_eq!(first.mobile_phone, second.mobile_phone);
    let missing = UserId::from_u128(1);
    assert!(matches!(load_by_id(&table, missing), Err(UserError::NotFound)));
    assert!(matches!(load_by_id(&table, missing), Err(UserError::NotFound)));
}

#[test]
fn update_of_unknown_id_changes_nothing() {
    let mut table = UserTable::new();
    let id = insert(&mut table, "Dave", "Dave Warnock", true, "e", "p").unwrap();
    let other = UserId::from_u128(id.as_u128() ^ 1);
    assert!(matches!(update(&mut table, &other, "Dave", "Dave Warnock", false, "x", "y"), Ok(0)));
    assert_eq!(table.len(), 1);
    let kept = load_by_id(&table, id).unwrap();
    assert_eq!(kept.user_name, "Dave");
    assert!(kept.is_admin);
    assert_eq!(kept.email, "e");
}

#[test]
fn update_refuses_a_name_of_another_user() {
    let mut table = UserTable::new();
    let first = insert(&mut table, "Dave", "Dave Warnock", true, "user1@test.com", "01231").unwrap();
    let second = insert(&mut table, "Eve", "Eve Smith", false, "user2@test.com", "01232").unwrap();
    assert!(matches!(update(&mut table, &second, "Dave", "Eve Smith", false, "user2@test.com", "01232"), Err(UserError::UniqueConstraintViolation)));
    assert!(matches!(update(&mut table, &second, "Eve", "Dave Warnock", false, "user2@test.com", "01232"), Err(UserError::UniqueConstraintViolation)));
    let kept = load_by_id(&table, second).unwrap();
    assert_eq!(kept.user_name, "Eve");
    assert_eq!(kept.display_name, "Eve Smith");
    assert_eq!(load_by_id(&table, first).unwrap().user_name, "Dave");
}

#[test]
fn update_may_keep_its_own_names() {
    let mut table = UserTable::new();
    let id = insert(&mut table, "Dave", "Dave Warnock", true, "e", "p").unwrap();
    assert!(matches!(update(&mut table, &id, "Dave", "Dave Warnock", false, "new", "p"), Ok(1)));
    let loaded = load_by_id(&table, id).unwrap();
    assert!(!loaded.is_admin);
    assert_eq!(loaded.email, "new");
}

#[test]
fn update_leaves_other_users_alone() {
    let mut table = UserTable::new();
    let first = insert(&mut table, "a", "A", true, "user1@test.com", "01231").unwrap();
    let second = insert(&mut table, "b", "B", true, "user2@test.com", "01232").unwrap();
    assert!(matches!(update(&mut table, &first, "c", "C", false, "user3@test.com", "01233"), Ok(1)));
    assert_eq!(table.len(), 2);
    let other = load_by_id(&table, second).unwrap();
    assert_eq!(other.user_name, "b");
    assert_eq!(other.display_name, "B");
    assert_eq!(other.email, "user2@test.com");
    let listed = load_all_sorted(&table, UserSort::UserName, SortDirection::Asc).unwrap();
    assert_eq!(names(&listed), vec!["b".to_string(), "c".to_string()]);
}

#[test]
fn listing_orders_by_each_key_and_direction() {
    let mut table = UserTable::new();
    insert(&mut table, "carol", "Zed", true, "", "").unwrap();
    insert(&mut table, "alice", "Yan", true, "", "").unwrap();
    insert(&mut table, "bob", "Xi", true, "", "").unwrap();
    let by_name = load_all_sorted(&table, UserSort::UserName, SortDirection::Asc).unwrap();
    assert_eq!(names(&by_name), vec!["alice", "bob", "carol"]);
    let by_name_desc = load_all_sorted(&table, UserSort::UserName, SortDirection::Desc).unwrap();
    assert_eq!(names(&by_name_desc), vec!["carol", "bob", "alice"]);
    let by_display = load_all_sorted(&table, UserSort::DisplayName, SortDirection::Asc).unwrap();
    assert_eq!(names(&by_display), vec!["bob", "alice", "carol"]);
    let by_display_desc =
        load_all_sorted(&table, UserSort::DisplayName, SortDirection::Desc).unwrap();
    assert_eq!(names(&by_display_desc), vec!["carol", "alice", "bob"]);
}

#[test]
fn listing_puts_a_prefix_first_and_capitals_before_small_letters() {
    let mut table = UserTable::new();
    insert(&mut table, "dave", "1", true, "", "").unwrap();
    insert(&mut table, "Dave2", "2", true, "", "").unwrap();
    insert(&mut table, "Dave", "3", true, "", "").unwrap();
    insert(&mut table, "\u{e9}mile", "4", true, "", "").unwrap();
    let listed = load_all_sorted(&table, UserSort::UserName, SortDirection::Asc).unwrap();
    assert_eq!(names(&listed), vec!["Dave", "Dave2", "dave", "\u{e9}mile"]);
}

#[test]
fn default_user_is_a_fresh_admin_without_text() {
    let user = User::default();
    assert!(!user.user_id.is_nil());
    assert_eq!(user.user_name, "");
    assert_eq!(user.display_name, "");
    assert!(user.is_admin);
    assert_eq!(user.email, "");
    assert_eq!(user.mobile_phone, "");
    assert_ne!(User::default().user_id, user.user_id);
}

#[test]
fn user_clone_keeps_every_field() {
    let user = User {
        user_id: UserId::from_u128(5),
        user_name: "Dave".to_string(),
        display_name: "Dave Warnock".to_string(),
        is_admin: false,
        email: "dwarnock@test.com".to_string(),
        mobile_phone: "01234567891".to_string(),
    };
    let copy = user.clone();
    assert_eq!(copy.user_id, user.user_id);
    assert_eq!(copy.user_name, "Dave");
    assert_eq!(copy.display_name, "Dave Warnock");
    assert!(!copy.is_admin);
    assert_eq!(copy.email, "dwarnock@test.com");
    assert_eq!(copy.mobile_phone, "01234567891");
}

#[test]
fn user_id_text_is_the_hyphenated_uuid() {
    let id = UserId::from_u128(0xa1a2a3a4_b1b2_c1c2_d1d2_d3d4d5d6d7d8);
    assert_eq!(id.to_string(), "a1a2a3a4-b1b2-c1c2-d1d2-d3d4d5d6d7d8");
    assert_eq!(UserId::nil().to_string(), "00000000-0000-0000-0000-000000000000");
    assert_eq!(UserId::default(), UserId::nil());
    assert_eq!(id.as_u128(), 0xa1a2a3a4_b1b2_c1c2_d1d2_d3d4d5d6d7d8);
}
