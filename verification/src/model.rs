//! The user table as a mathematical value: a sequence of rows, the rules
//! that every table obeys, and what each operation makes of it.

use vstd::prelude::*;
use crate::text::{lemma_name_order_total, lemma_name_order_transitive, name_less};
use crate::user_core::{SortDirection, UserError, UserRecord, UserSort};

verus! {

/// One row of the user table: the user and the stored credential, which no
/// operation of this library ever sets.
pub struct RowRecord {
    pub user: UserRecord,
    pub hash_password: Seq<char>,
}

/// The row that an insert or an update writes for the given values.
pub open spec fn written_row(
    user_id: u128,
    user_name: Seq<char>,
    display_name: Seq<char>,
    is_admin: bool,
    email: Seq<char>,
    mobile_phone: Seq<char>,
) -> RowRecord {
    RowRecord {
        user: UserRecord { user_id, user_name, display_name, is_admin, email, mobile_phone },
        hash_password: Seq::empty(),
    }
}

/// Some row has the identifier `user_id`.
pub open spec fn holds_id(rows: Seq<RowRecord>, user_id: u128) -> bool {
    exists|i: int| 0 <= i < rows.len() && #[trigger] rows[i].user.user_id == user_id
}

/// Some row has the user name `user_name`.
pub open spec fn holds_user_name(rows: Seq<RowRecord>, user_name: Seq<char>) -> bool {
    exists|i: int| 0 <= i < rows.len() && #[trigger] rows[i].user.user_name == user_name
}

/// Some row has the display name `display_name`.
pub open spec fn holds_display_name(rows: Seq<RowRecord>, display_name: Seq<char>) -> bool {
    exists|i: int| 0 <= i < rows.len() && #[trigger] rows[i].user.display_name == display_name
}

/// The rules of the table: no two rows share an identifier, a user name or a
/// display name, and every stored credential is empty.
pub open spec fn consistent(rows: Seq<RowRecord>) -> bool {
    &&& forall|i: int, j: int|
        0 <= i < j < rows.len() ==> {
            &&& (#[trigger] rows[i]).user.user_id != (#[trigger] rows[j]).user.user_id
            &&& rows[i].user.user_name != rows[j].user.user_name
            &&& rows[i].user.display_name != rows[j].user.display_name
        }
    &&& forall|i: int| 0 <= i < rows.len() ==> (#[trigger] rows[i]).hash_password.len() == 0
}

/// The place of a row with the identifier `user_id`, where there is one.
pub open spec fn position_of(rows: Seq<RowRecord>, user_id: u128) -> int {
    choose|i: int| 0 <= i < rows.len() && #[trigger] rows[i].user.user_id == user_id
}

/// The user with the identifier `user_id`, if the table holds one.
pub open spec fn lookup(rows: Seq<RowRecord>, user_id: u128) -> Option<UserRecord> {
    if holds_id(rows, user_id) {
        Some(rows[position_of(rows, user_id)].user)
    } else {
        None
    }
}

/// What a load by identifier answers: the user, or `NotFound`.
pub open spec fn load_result(rows: Seq<RowRecord>, user_id: u128) -> Result<UserRecord, UserError> {
    match lookup(rows, user_id) {
        Some(user) => Ok(user),
        None => Err(UserError::NotFound),
    }
}

/// The table takes a new row with these values: neither the identifier nor
/// either name is in use.
pub open spec fn admits(
    rows: Seq<RowRecord>,
    user_id: u128,
    user_name: Seq<char>,
    display_name: Seq<char>,
) -> bool {
    &&& !holds_id(rows, user_id)
    &&& !holds_user_name(rows, user_name)
    &&& !holds_display_name(rows, display_name)
}

/// A row of another user than `user_id` has one of the two names.
pub open spec fn clashes(
    rows: Seq<RowRecord>,
    user_id: u128,
    user_name: Seq<char>,
    display_name: Seq<char>,
) -> bool {
    exists|i: int|
        0 <= i < rows.len() && (#[trigger] rows[i]).user.user_id != user_id && (rows[i].user.user_name
            == user_name || rows[i].user.display_name == display_name)
}

/// The users of the table, in the order of its rows.
pub open spec fn users_of(rows: Seq<RowRecord>) -> Seq<UserRecord> {
    rows.map_values(|row: RowRecord| row.user)
}

/// The text by which `user` is ordered under the key `sort`.
pub open spec fn sort_key(user: UserRecord, sort: UserSort) -> Seq<char> {
    match sort {
        UserSort::UserName => user.user_name,
        UserSort::DisplayName => user.display_name,
    }
}

/// `a` must stand before `b` in a listing by `sort` in `direction`.
pub open spec fn precedes(
    a: UserRecord,
    b: UserRecord,
    sort: UserSort,
    direction: SortDirection,
) -> bool {
    match direction {
        SortDirection::Asc => name_less(sort_key(a, sort), sort_key(b, sort)),
        SortDirection::Desc => name_less(sort_key(b, sort), sort_key(a, sort)),
    }
}

/// No user of `users` stands behind one that it must precede.
pub open spec fn ordered(users: Seq<UserRecord>, sort: UserSort, direction: SortDirection) -> bool {
    forall|i: int, j: int|
        0 <= i < j < users.len() ==> !precedes(#[trigger] users[j], #[trigger] users[i], sort, direction)
}

/// `users` is the listing of the table by `sort` in `direction`: the users
/// of the table, each as often as the table holds it, in order.
pub open spec fn is_listing(
    users: Seq<UserRecord>,
    rows: Seq<RowRecord>,
    sort: UserSort,
    direction: SortDirection,
) -> bool {
    &&& users.to_multiset() == users_of(rows).to_multiset()
    &&& ordered(users, sort, direction)
}

/// Where a user is put into an ordered sequence behind everything that it
/// need not precede and in front of something that it must precede, the
/// sequence stays ordered.
pub proof fn lemma_insert_keeps_order(
    users: Seq<UserRecord>,
    place: int,
    user: UserRecord,
    sort: UserSort,
    direction: SortDirection,
)
    requires
        ordered(users, sort, direction),
        0 <= place <= users.len(),
        forall|j: int| 0 <= j < place ==> !precedes(user, #[trigger] users[j], sort, direction),
        place < users.len() ==> precedes(user, users[place], sort, direction),
    ensures
        ordered(users.insert(place, user), sort, direction),
{
    let grown = users.insert(place, user);
    assert forall|i: int, j: int| 0 <= i < j < grown.len() implies !precedes(
        #[trigger] grown[j],
        #[trigger] grown[i],
        sort,
        direction,
    ) by {
        if i == place {
            let next = users[place];
            let later = users[j - 1];
            assert(grown[j] == later);
            lemma_name_order_total(sort_key(user, sort), sort_key(next, sort));
            if precedes(later, user, sort, direction) {
                match direction {
                    SortDirection::Asc => lemma_name_order_transitive(
                        sort_key(later, sort),
                        sort_key(user, sort),
                        sort_key(next, sort),
                    ),
                    SortDirection::Desc => lemma_name_order_transitive(
                        sort_key(next, sort),
                        sort_key(user, sort),
                        sort_key(later, sort),
                    ),
                }
                assert(precedes(later, next, sort, direction));
                assert(place < j - 1);
            }
        } else if j == place {
            assert(grown[i] == users[i]);
        } else {
            let a = if i < place { i } else { i - 1 };
            let b = if j < place { j } else { j - 1 };
            assert(grown[i] == users[a]);
            assert(grown[j] == users[b]);
        }
    }
}

/// Putting a value into a sequence adds it once to what the sequence holds.
pub proof fn lemma_insert_adds_one<A>(items: Seq<A>, place: int, item: A)
    requires
        0 <= place <= items.len(),
    ensures
        items.insert(place, item).to_multiset() == items.to_multiset().insert(item),
{
    let grown = items.insert(place, item);
    assert(grown.remove(place) =~= items);
    vstd::seq_lib::to_multiset_remove(grown, place);
    grown.to_multiset_ensures();
    assert(grown.contains(item)) by {
        assert(grown[place] == item);
    }
    assert(grown.to_multiset() =~= items.to_multiset().insert(item));
}

} // verus!
