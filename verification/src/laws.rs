//! What holds of the user table whatever it contains: how the operations
//! follow one another.

use vstd::prelude::*;
use crate::model::{
    admits, clashes, consistent, holds_display_name, holds_id, holds_user_name, is_listing,
    load_result, lookup, ordered, position_of, precedes, sort_key, users_of, written_row,
    RowRecord,
};
use crate::text::lemma_name_order_total;
use crate::user_core::{SortDirection, UserError, UserRecord, UserSort};

verus! {

/// In a consistent table a row is found under its own identifier.
pub proof fn lemma_lookup_finds_row(rows: Seq<RowRecord>, place: int)
    requires
        consistent(rows),
        0 <= place < rows.len(),
    ensures
        holds_id(rows, rows[place].user.user_id),
        position_of(rows, rows[place].user.user_id) == place,
        lookup(rows, rows[place].user.user_id) == Some(rows[place].user),
{
    let user_id = rows[place].user.user_id;
    assert(rows[place].user.user_id == user_id);
    if position_of(rows, user_id) < place {
    } else if position_of(rows, user_id) > place {
    }
}

/// A user that the table admits is stored as given and loaded as stored:
/// after the insert the table is consistent and a lookup under the new
/// identifier gives exactly the values that were inserted, while every other
/// identifier gives what it gave before.
pub proof fn lemma_insert_then_load(
    rows: Seq<RowRecord>,
    user_id: u128,
    user_name: Seq<char>,
    display_name: Seq<char>,
    is_admin: bool,
    email: Seq<char>,
    mobile_phone: Seq<char>,
)
    requires
        consistent(rows),
        admits(rows, user_id, user_name, display_name),
    ensures
        ({
            let row = written_row(user_id, user_name, display_name, is_admin, email, mobile_phone);
            let after = rows.push(row);
            &&& consistent(after)
            &&& lookup(after, user_id) == Some(
                (UserRecord { user_id, user_name, display_name, is_admin, email, mobile_phone }),
            )
            &&& forall|other: u128| other != user_id ==> lookup(after, other) == lookup(rows, other)
        }),
{
    let row = written_row(user_id, user_name, display_name, is_admin, email, mobile_phone);
    let after = rows.push(row);
    assert forall|i: int, j: int| 0 <= i < j < after.len() implies {
        &&& (#[trigger] after[i]).user.user_id != (#[trigger] after[j]).user.user_id
        &&& after[i].user.user_name != after[j].user.user_name
        &&& after[i].user.display_name != after[j].user.display_name
    } by {
        if j == rows.len() {
            assert(rows[i].user.user_id != user_id);
            assert(rows[i].user.user_name != user_name);
            assert(rows[i].user.display_name != display_name);
        } else {
            assert(after[i] == rows[i] && after[j] == rows[j]);
        }
    }
    assert(consistent(after));
    lemma_lookup_finds_row(after, rows.len() as int);
    assert forall|other: u128| other != user_id implies lookup(after, other) == lookup(
        rows,
        other,
    ) by {
        if holds_id(rows, other) {
            let place = position_of(rows, other);
            assert(after[place] == rows[place]);
            lemma_lookup_finds_row(after, place);
        } else if holds_id(after, other) {
            let place = position_of(after, other);
            assert(place < rows.len());
            assert(rows[place].user.user_id == other);
        }
    }
}

/// Once a user is stored, the table admits no other row with its user name
/// and none with its display name, under whatever identifier.
pub proof fn lemma_names_stay_taken(
    rows: Seq<RowRecord>,
    stored: RowRecord,
    user_id: u128,
    user_name: Seq<char>,
    display_name: Seq<char>,
)
    requires
        user_name == stored.user.user_name || display_name == stored.user.display_name,
    ensures
        !admits(rows.push(stored), user_id, user_name, display_name),
{
    let after = rows.push(stored);
    let last = rows.len() as int;
    assert(after[last] == stored);
    if user_name == stored.user.user_name {
        assert(after[last].user.user_name == user_name);
        assert(holds_user_name(after, user_name));
    } else {
        assert(after[last].user.display_name == display_name);
        assert(holds_display_name(after, display_name));
    }
}

/// An update that names an existing user and clashes with no other leaves a
/// consistent table in which that user has exactly the new values under the
/// old identifier, and every other user is as before.
pub proof fn lemma_update_then_load(
    rows: Seq<RowRecord>,
    user_id: u128,
    user_name: Seq<char>,
    display_name: Seq<char>,
    is_admin: bool,
    email: Seq<char>,
    mobile_phone: Seq<char>,
)
    requires
        consistent(rows),
        holds_id(rows, user_id),
        !clashes(rows, user_id, user_name, display_name),
    ensures
        ({
            let row = written_row(user_id, user_name, display_name, is_admin, email, mobile_phone);
            let after = rows.update(position_of(rows, user_id), row);
            &&& consistent(after)
            &&& after.len() == rows.len()
            &&& lookup(after, user_id) == Some(
                (UserRecord { user_id, user_name, display_name, is_admin, email, mobile_phone }),
            )
            &&& forall|other: u128| other != user_id ==> lookup(after, other) == lookup(rows, other)
        }),
{
    let row = written_row(user_id, user_name, display_name, is_admin, email, mobile_phone);
    let place = position_of(rows, user_id);
    let after = rows.update(place, row);
    assert forall|i: int, j: int| 0 <= i < j < after.len() implies {
        &&& (#[trigger] after[i]).user.user_id != (#[trigger] after[j]).user.user_id
        &&& after[i].user.user_name != after[j].user.user_name
        &&& after[i].user.display_name != after[j].user.display_name
    } by {
        assert(rows[i].user.user_id != rows[j].user.user_id);
    }
    assert(consistent(after));
    lemma_lookup_finds_row(after, place);
    assert forall|other: u128| other != user_id implies lookup(after, other) == lookup(
        rows,
        other,
    ) by {
        if holds_id(rows, other) {
            let at = position_of(rows, other);
            assert(after[at] == rows[at]);
            lemma_lookup_finds_row(after, at);
        } else if holds_id(after, other) {
            let at = position_of(after, other);
            assert(rows[at].user.user_id == other);
        }
    }
}

/// A load fails exactly for the identifiers that no row has, and then with
/// `NotFound`; on an empty table every load fails so.
pub proof fn lemma_load_fails_iff_absent(rows: Seq<RowRecord>, user_id: u128)
    ensures
        load_result(rows, user_id) is Err <==> !holds_id(rows, user_id),
        load_result(rows, user_id) is Err ==> load_result(rows, user_id) == Err::<
            UserRecord,
            UserError,
        >(UserError::NotFound),
        rows.len() == 0 ==> load_result(rows, user_id) is Err,
{
}

/// Two loads of one identifier from a table that has not changed in between
/// answer the same.
pub proof fn lemma_load_repeatable(
    rows: Seq<RowRecord>,
    user_id: u128,
    first: Result<UserRecord, UserError>,
    second: Result<UserRecord, UserError>,
)
    requires
        first == load_result(rows, user_id),
        second == load_result(rows, user_id),
    ensures
        first == second,
{
}

/// No two users of `users` have the same text under the key `sort`.
pub open spec fn keys_differ(users: Seq<UserRecord>, sort: UserSort) -> bool {
    forall|i: int, j: int|
        0 <= i < j < users.len() ==> sort_key(#[trigger] users[i], sort) != sort_key(
            #[trigger] users[j],
            sort,
        )
}

/// Two ordered sequences that hold the same users, no two of them with the
/// same key, are the same sequence.
pub proof fn lemma_order_is_unique(
    a: Seq<UserRecord>,
    b: Seq<UserRecord>,
    sort: UserSort,
    direction: SortDirection,
)
    requires
        a.to_multiset() == b.to_multiset(),
        ordered(a, sort, direction),
        ordered(b, sort, direction),
        keys_differ(a, sort),
    ensures
        a == b,
    decreases a.len(),
{
    a.to_multiset_ensures();
    b.to_multiset_ensures();
    if a.len() == 0 {
        assert(a =~= b);
    } else {
        assert(a.contains(a[0]));
        assert(b.contains(b[0]));
        assert(b.contains(a[0])) by {
            assert(a.to_multiset().count(a[0]) > 0);
            assert(b.to_multiset().count(a[0]) > 0);
        }
        assert(a.contains(b[0])) by {
            assert(b.to_multiset().count(b[0]) > 0);
            assert(a.to_multiset().count(b[0]) > 0);
        }
        let j = choose|j: int| 0 <= j < b.len() && b[j] == a[0];
        let i = choose|i: int| 0 <= i < a.len() && a[i] == b[0];
        if i != 0 && j != 0 {
            assert(!precedes(b[j], b[0], sort, direction));
            assert(!precedes(a[i], a[0], sort, direction));
            lemma_name_order_total(sort_key(a[0], sort), sort_key(b[0], sort));
            assert(sort_key(a[0], sort) == sort_key(a[i], sort));
        }
        assert(a[0] == b[0]);
        let rest_a = a.remove(0);
        let rest_b = b.remove(0);
        assert(rest_a.to_multiset() == rest_b.to_multiset());
        assert forall|x: int, y: int| 0 <= x < y < rest_a.len() implies !precedes(
            #[trigger] rest_a[y],
            #[trigger] rest_a[x],
            sort,
            direction,
        ) by {
            assert(rest_a[x] == a[x + 1] && rest_a[y] == a[y + 1]);
        }
        assert forall|x: int, y: int| 0 <= x < y < rest_b.len() implies !precedes(
            #[trigger] rest_b[y],
            #[trigger] rest_b[x],
            sort,
            direction,
        ) by {
            assert(rest_b[x] == b[x + 1] && rest_b[y] == b[y + 1]);
        }
        assert forall|x: int, y: int| 0 <= x < y < rest_a.len() implies sort_key(
            #[trigger] rest_a[x],
            sort,
        ) != sort_key(#[trigger] rest_a[y], sort) by {
            assert(rest_a[x] == a[x + 1] && rest_a[y] == a[y + 1]);
        }
        lemma_order_is_unique(rest_a, rest_b, sort, direction);
        assert(a =~= b) by {
            assert forall|k: int| 0 <= k < a.len() implies a[k] == b[k] by {
                if k > 0 {
                    assert(rest_a[k - 1] == a[k]);
                    assert(rest_b[k - 1] == b[k]);
                }
            }
        }
    }
}

/// A consistent table has one listing for each key and direction: any two
/// sequences that are listings of it are equal, user for user.
pub proof fn lemma_listing_is_unique(
    rows: Seq<RowRecord>,
    first: Seq<UserRecord>,
    second: Seq<UserRecord>,
    sort: UserSort,
    direction: SortDirection,
)
    requires
        consistent(rows),
        is_listing(first, rows, sort, direction),
        is_listing(second, rows, sort, direction),
    ensures
        first == second,
        first.len() == rows.len(),
{
    let users = users_of(rows);
    assert(users.no_duplicates()) by {
        assert forall|i: int, j: int| 0 <= i < users.len() && 0 <= j < users.len() && i
            != j implies users[i] != users[j] by {
            if i < j {
                assert(rows[i].user.user_id != rows[j].user.user_id);
            } else {
                assert(rows[j].user.user_id != rows[i].user.user_id);
            }
        }
    }
    users.lemma_multiset_has_no_duplicates();
    first.lemma_multiset_has_no_duplicates_conv();
    first.to_multiset_ensures();
    users.to_multiset_ensures();
    assert forall|i: int, j: int| 0 <= i < j < first.len() implies sort_key(
        #[trigger] first[i],
        sort,
    ) != sort_key(#[trigger] first[j], sort) by {
        assert(first.contains(first[i]));
        assert(first.contains(first[j]));
        assert(users.contains(first[i])) by {
            assert(first.to_multiset().count(first[i]) > 0);
            assert(users.to_multiset().count(first[i]) > 0);
        }
        assert(users.contains(first[j])) by {
            assert(first.to_multiset().count(first[j]) > 0);
            assert(users.to_multiset().count(first[j]) > 0);
        }
        let p = choose|p: int| 0 <= p < users.len() && users[p] == first[i];
        let q = choose|q: int| 0 <= q < users.len() && users[q] == first[j];
        assert(first[i] != first[j]);
        if p < q {
            assert(rows[p].user.user_name != rows[q].user.user_name);
        } else {
            assert(rows[q].user.user_name != rows[p].user.user_name);
        }
    }
    lemma_order_is_unique(first, second, sort, direction);
}

} // verus!
