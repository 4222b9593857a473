//! The user table and its four operations: insert, load by identifier,
//! sorted listing and update.

use vstd::prelude::*;
use vstd::string::*;
use crate::ident::fresh_user_id;
use crate::model::{
    admits, clashes, consistent, holds_display_name, holds_id, holds_user_name, is_listing,
    lemma_insert_adds_one, lemma_insert_keeps_order, load_result, ordered, position_of,
    precedes, users_of, written_row, RowRecord,
};
use crate::text::{str_equal, str_less};
use crate::user_core::{
    has_random_layout, records_of, result_view, SortDirection, User, UserError, UserId, UserSort,
};

verus! {

/// A row as the table keeps it.
struct StoredRow {
    user: User,
    hash_password: String,
}

impl View for StoredRow {
    type V = RowRecord;

    closed spec fn view(&self) -> RowRecord {
        RowRecord { user: self.user@, hash_password: self.hash_password@ }
    }
}

/// The user table within one unit of work, held in memory.
pub struct UserTable {
    rows: Vec<StoredRow>,
}

impl View for UserTable {
    type V = Seq<RowRecord>;

    closed spec fn view(&self) -> Seq<RowRecord> {
        self.rows@.map_values(|row: StoredRow| row@)
    }
}

impl UserTable {
    #[verifier::type_invariant]
    spec fn obeys_rules(self) -> bool {
        consistent(self@)
    }

    /// The empty table.
    pub fn new() -> (table: UserTable)
        ensures
            table@ == Seq::<RowRecord>::empty(),
            consistent(table@),
    {
        let table = UserTable { rows: Vec::new() };
        assert(table@ =~= Seq::<RowRecord>::empty());
        table
    }

    /// The number of users in the table.
    pub fn len(&self) -> (count: usize)
        ensures
            consistent(self@),
            count == self@.len(),
    {
        proof {
            use_type_invariant(self);
        }
        self.rows.len()
    }
}

/// Builds the row that holds the given values and an empty credential.
fn make_row(
    user_id: UserId,
    user_name: &str,
    display_name: &str,
    is_admin: bool,
    email: &str,
    mobile_phone: &str,
) -> (row: StoredRow)
    ensures
        row@ == written_row(
            user_id.bits,
            user_name@,
            display_name@,
            is_admin,
            email@,
            mobile_phone@,
        ),
{
    StoredRow {
        user: User {
            user_id,
            user_name: String::from_str(user_name),
            display_name: String::from_str(display_name),
            is_admin,
            email: String::from_str(email),
            mobile_phone: String::from_str(mobile_phone),
        },
        hash_password: String::new(),
    }
}

/// Inserts a user under the identifier `user_id`.
///
/// The row is written if and only if neither the identifier nor either name
/// is in use; otherwise the table stays as it was and the call fails with
/// `UniqueConstraintViolation`.
pub fn insert_with_id(
    table: &mut UserTable,
    user_id: UserId,
    user_name: &str,
    display_name: &str,
    is_admin: bool,
    email: &str,
    mobile_phone: &str,
) -> (result: Result<UserId, UserError>)
    ensures
        consistent(old(table)@),
        consistent(final(table)@),
        admits(old(table)@, user_id.bits, user_name@, display_name@) ==> {
            &&& result == Ok::<UserId, UserError>(user_id)
            &&& final(table)@ == old(table)@.push(
                written_row(
                    user_id.bits,
                    user_name@,
                    display_name@,
                    is_admin,
                    email@,
                    mobile_phone@,
                ),
            )
        },
        !admits(old(table)@, user_id.bits, user_name@, display_name@) ==> {
            &&& result == Err::<UserId, UserError>(UserError::UniqueConstraintViolation)
            &&& final(table)@ == old(table)@
        },
{
    proof {
        use_type_invariant(&*table);
    }
    let mut i: usize = 0;
    while i < table.rows.len()
        invariant
            i <= table.rows.len(),
            *table == *old(table),
            consistent(table@),
            admits(table@.take(i as int), user_id.bits, user_name@, display_name@),
        decreases table.rows.len() - i,
    {
        let row = &table.rows[i];
        let same_id = row.user.user_id.bits == user_id.bits;
        let same_user_name = str_equal(row.user.user_name.as_str(), user_name);
        let same_display_name = str_equal(row.user.display_name.as_str(), display_name);
        if same_id || same_user_name || same_display_name {
            proof {
                let found = table@[i as int];
                assert(found == row@);
                if found.user.user_id == user_id.bits {
                    assert(holds_id(table@, user_id.bits));
                } else if found.user.user_name == user_name@ {
                    assert(holds_user_name(table@, user_name@));
                } else {
                    assert(found.user.display_name == display_name@);
                    assert(holds_display_name(table@, display_name@));
                }
            }
            return Err(UserError::UniqueConstraintViolation);
        }
        proof {
            let before = table@.take(i as int);
            let after = table@.take(i + 1);
            assert(after =~= before.push(table@[i as int]));
            assert(forall|k: int| 0 <= k < after.len() ==> after[k] == table@[k]);
        }
        i += 1;
    }
    assert(table@.take(i as int) =~= table@);
    let row = make_row(user_id, user_name, display_name, is_admin, email, mobile_phone);
    let mut rows: Vec<StoredRow> = Vec::new();
    std::mem::swap(&mut rows, &mut table.rows);
    rows.push(row);
    proof {
        let grown = rows@.map_values(|row: StoredRow| row@);
        assert(grown =~= old(table)@.push(row@));
        assert(consistent(grown));
    }
    table.rows = rows;
    Ok(user_id)
}

/// Inserts a user under a freshly generated identifier and returns it.
///
/// Whatever identifier was drawn, the call either writes exactly the row
/// with the given values and an empty credential, or fails with
/// `UniqueConstraintViolation` and leaves the table as it was. It fails
/// whenever one of the names is in use, and otherwise only if the drawn
/// identifier is in use already.
///
/// The identifier is drawn from the operating system's random source; where
/// that source gives no bytes, the draw panics.
pub fn insert(
    table: &mut UserTable,
    user_name: &str,
    display_name: &str,
    is_admin: bool,
    email: &str,
    mobile_phone: &str,
) -> (result: Result<UserId, UserError>)
    ensures
        consistent(old(table)@),
        consistent(final(table)@),
        match result {
            Ok(user_id) => {
                &&& user_id.bits != 0
                &&& has_random_layout(user_id.bits)
                &&& admits(old(table)@, user_id.bits, user_name@, display_name@)
                &&& final(table)@ == old(table)@.push(
                    written_row(
                        user_id.bits,
                        user_name@,
                        display_name@,
                        is_admin,
                        email@,
                        mobile_phone@,
                    ),
                )
            },
            Err(error) => {
                &&& error == UserError::UniqueConstraintViolation
                &&& final(table)@ == old(table)@
                &&& (holds_user_name(old(table)@, user_name@) || holds_display_name(
                    old(table)@,
                    display_name@,
                ) || exists|bits: u128| has_random_layout(bits) && holds_id(old(table)@, bits))
            },
        },
        holds_user_name(old(table)@, user_name@) || holds_display_name(old(table)@, display_name@)
            ==> result is Err,
{
    let user_id = fresh_user_id();
    insert_with_id(table, user_id, user_name, display_name, is_admin, email, mobile_phone)
}

/// Loads the user with the identifier `user_id`, or fails with `NotFound`
/// where the table holds none.
pub fn load_by_id(table: &UserTable, user_id: UserId) -> (result: Result<User, UserError>)
    ensures
        consistent(table@),
        result_view(result) == load_result(table@, user_id.bits),
{
    proof {
        use_type_invariant(table);
    }
    let mut i: usize = 0;
    while i < table.rows.len()
        invariant
            i <= table.rows.len(),
            consistent(table@),
            !holds_id(table@.take(i as int), user_id.bits),
        decreases table.rows.len() - i,
    {
        let row = &table.rows[i];
        if row.user.user_id.bits == user_id.bits {
            proof {
                assert(table@[i as int] == row@);
                assert(table@[i as int].user.user_id == user_id.bits);
                assert(holds_id(table@, user_id.bits));
                assert(position_of(table@, user_id.bits) == i);
            }
            return Ok(row.user.clone());
        }
        proof {
            let before = table@.take(i as int);
            let after = table@.take(i + 1);
            assert(forall|k: int| 0 <= k < before.len() ==> before[k] == table@[k]);
            assert(forall|k: int| 0 <= k < after.len() ==> after[k] == table@[k]);
            assert(table@[i as int] == row@);
        }
        i += 1;
    }
    assert(table@.take(i as int) =~= table@);
    Err(UserError::NotFound)
}

/// Overwrites every field but the identifier of the user `user_id`, and
/// returns the number of rows changed.
///
/// Where no user has the identifier, nothing changes and the count is 0.
/// Where another user has one of the two names, nothing changes and the call
/// fails with `UniqueConstraintViolation`. Otherwise the user's row is
/// replaced by the given values with an empty credential, and the count is 1.
pub fn update(
    table: &mut UserTable,
    user_id: &UserId,
    user_name: &str,
    display_name: &str,
    is_admin: bool,
    email: &str,
    mobile_phone: &str,
) -> (result: Result<u64, UserError>)
    ensures
        consistent(old(table)@),
        consistent(final(table)@),
        !holds_id(old(table)@, user_id.bits) ==> {
            &&& result == Ok::<u64, UserError>(0)
            &&& final(table)@ == old(table)@
        },
        holds_id(old(table)@, user_id.bits) && clashes(
            old(table)@,
            user_id.bits,
            user_name@,
            display_name@,
        ) ==> {
            &&& result == Err::<u64, UserError>(UserError::UniqueConstraintViolation)
            &&& final(table)@ == old(table)@
        },
        holds_id(old(table)@, user_id.bits) && !clashes(
            old(table)@,
            user_id.bits,
            user_name@,
            display_name@,
        ) ==> {
            &&& result == Ok::<u64, UserError>(1)
            &&& final(table)@ == old(table)@.update(
                position_of(old(table)@, user_id.bits),
                written_row(
                    user_id.bits,
                    user_name@,
                    display_name@,
                    is_admin,
                    email@,
                    mobile_phone@,
                ),
            )
        },
{
    proof {
        use_type_invariant(&*table);
    }
    let mut place: Option<usize> = None;
    let mut clash = false;
    let mut i: usize = 0;
    while i < table.rows.len()
        invariant
            i <= table.rows.len(),
            *table == *old(table),
            consistent(table@),
            match place {
                Some(p) => p < i && table@[p as int].user.user_id == user_id.bits,
                None => !holds_id(table@.take(i as int), user_id.bits),
            },
            clash == clashes(table@.take(i as int), user_id.bits, user_name@, display_name@),
        decreases table.rows.len() - i,
    {
        let row = &table.rows[i];
        let same_id = row.user.user_id.bits == user_id.bits;
        let same_user_name = str_equal(row.user.user_name.as_str(), user_name);
        let same_display_name = str_equal(row.user.display_name.as_str(), display_name);
        proof {
            let before = table@.take(i as int);
            let after = table@.take(i + 1);
            assert(table@[i as int] == row@);
            assert(forall|k: int| 0 <= k < before.len() ==> before[k] == table@[k]);
            assert(forall|k: int| 0 <= k < after.len() ==> after[k] == table@[k]);
            assert(after[i as int] == table@[i as int]);
            if clashes(before, user_id.bits, user_name@, display_name@) {
                let k = choose|k: int|
                    0 <= k < before.len() && (#[trigger] before[k]).user.user_id != user_id.bits
                        && (before[k].user.user_name == user_name@ || before[k].user.display_name
                        == display_name@);
                assert(after[k] == before[k]);
            }
        }
        if same_id {
            place = Some(i);
        } else if same_user_name || same_display_name {
            clash = true;
        }
        i += 1;
    }
    assert(table@.take(i as int) =~= table@);
    match place {
        None => Ok(0),
        Some(p) => {
            proof {
                assert(holds_id(table@, user_id.bits));
                assert(position_of(table@, user_id.bits) == p);
            }
            if clash {
                Err(UserError::UniqueConstraintViolation)
            } else {
                let row = make_row(*user_id, user_name, display_name, is_admin, email, mobile_phone);
                let mut rows: Vec<StoredRow> = Vec::new();
                std::mem::swap(&mut rows, &mut table.rows);
                rows.set(p, row);
                proof {
                    let before = old(table)@;
                    let after = rows@.map_values(|row: StoredRow| row@);
                    assert(after =~= before.update(p as int, row@));
                    assert forall|a: int, b: int| 0 <= a < b < after.len() implies {
                        &&& (#[trigger] after[a]).user.user_id != (#[trigger] after[b]).user.user_id
                        &&& after[a].user.user_name != after[b].user.user_name
                        &&& after[a].user.display_name != after[b].user.display_name
                    } by {
                        assert(before[a].user.user_id != before[b].user.user_id);
                    }
                    assert(consistent(after));
                }
                table.rows = rows;
                Ok(1)
            }
        },
    }
}

/// Whether `a` must stand before `b` in a listing by `sort` in `direction`.
fn must_precede(a: &User, b: &User, sort: UserSort, direction: SortDirection) -> (before: bool)
    ensures
        before == precedes(a@, b@, sort, direction),
{
    match sort {
        UserSort::UserName => match direction {
            SortDirection::Asc => str_less(a.user_name.as_str(), b.user_name.as_str()),
            SortDirection::Desc => str_less(b.user_name.as_str(), a.user_name.as_str()),
        },
        UserSort::DisplayName => match direction {
            SortDirection::Asc => str_less(a.display_name.as_str(), b.display_name.as_str()),
            SortDirection::Desc => str_less(b.display_name.as_str(), a.display_name.as_str()),
        },
    }
}

/// Lists every user of the table, ordered by `sort` in `direction`.
///
/// The call always succeeds; an empty table gives an empty listing.
pub fn load_all_sorted(table: &UserTable, sort: UserSort, direction: SortDirection) -> (result:
    Result<Vec<User>, UserError>)
    ensures
        consistent(table@),
        match result {
            Ok(users) => is_listing(records_of(users@), table@, sort, direction),
            Err(_) => false,
        },
{
    proof {
        use_type_invariant(table);
    }
    let mut listed: Vec<User> = Vec::new();
    let mut i: usize = 0;
    assert(records_of(listed@) =~= users_of(table@.take(0)));
    while i < table.rows.len()
        invariant
            i <= table.rows.len(),
            records_of(listed@).to_multiset() == users_of(table@.take(i as int)).to_multiset(),
            ordered(records_of(listed@), sort, direction),
        decreases table.rows.len() - i,
    {
        let row = &table.rows[i];
        let mut place: usize = 0;
        while place < listed.len() && !must_precede(&row.user, &listed[place], sort, direction)
            invariant
                place <= listed.len(),
                forall|j: int|
                    0 <= j < place ==> !precedes(
                        row.user@,
                        #[trigger] records_of(listed@)[j],
                        sort,
                        direction,
                    ),
            decreases listed.len() - place,
        {
            place += 1;
        }
        let ghost shorter = records_of(listed@);
        listed.insert(place, row.user.clone());
        proof {
            assert(records_of(listed@) =~= shorter.insert(place as int, row.user@));
            lemma_insert_keeps_order(shorter, place as int, row.user@, sort, direction);
            lemma_insert_adds_one(shorter, place as int, row.user@);
            let before = users_of(table@.take(i as int));
            assert(table@[i as int] == row@);
            assert(users_of(table@.take(i + 1)) =~= before.push(row.user@));
            vstd::seq_lib::to_multiset_build(before, row.user@);
        }
        i += 1;
    }
    assert(table@.take(i as int) =~= table@);
    Ok(listed)
}

} // verus!
