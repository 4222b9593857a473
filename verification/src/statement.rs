//! The statements that carry the four operations to a relational store:
//! their SQL text and the values bound to its placeholders, in order.

use vstd::prelude::*;
use vstd::string::*;
use crate::user_core::{SortDirection, UserId, UserSort};

verus! {

/// A value bound to a placeholder of a statement.
#[derive(Debug)]
pub enum SqlValue {
    Id(UserId),
    Text(String),
    Flag(bool),
}

/// What a bound value holds.
pub enum SqlValueRecord {
    Id(u128),
    Text(Seq<char>),
    Flag(bool),
}

impl View for SqlValue {
    type V = SqlValueRecord;

    open spec fn view(&self) -> SqlValueRecord {
        match self {
            SqlValue::Id(user_id) => SqlValueRecord::Id(user_id.bits),
            SqlValue::Text(text) => SqlValueRecord::Text(text@),
            SqlValue::Flag(flag) => SqlValueRecord::Flag(*flag),
        }
    }
}

/// One statement: its text, and the values for `$1`, `$2`, … in that order.
#[derive(Debug)]
pub struct Statement {
    pub sql: String,
    pub params: Vec<SqlValue>,
}

/// What a statement holds.
pub struct StatementRecord {
    pub sql: Seq<char>,
    pub params: Seq<SqlValueRecord>,
}

impl View for Statement {
    type V = StatementRecord;

    open spec fn view(&self) -> StatementRecord {
        StatementRecord {
            sql: self.sql@,
            params: self.params@.map_values(|value: SqlValue| value@),
        }
    }
}

/// The text of the insert statement.
pub open spec fn insert_sql() -> Seq<char> {
    "INSERT INTO \"user\" (user_id, user_name, hash_password, display_name, is_admin, email, mobile_phone) VALUES ($1, $2, $3, $4, $5, $6, $7)"@
}

/// The text of the statement that loads one user.
pub open spec fn load_by_id_sql() -> Seq<char> {
    "SELECT user_id, user_name, display_name, is_admin, email, mobile_phone FROM \"user\" WHERE user_id = $1"@
}

/// The text of the update statement.
pub open spec fn update_sql() -> Seq<char> {
    "UPDATE \"user\" SET user_name = $2, hash_password = $3, display_name = $4, is_admin = $5, email = $6, mobile_phone = $7 WHERE user_id = $1"@
}

/// The text of the listing by `sort` in `direction`: the column and the
/// keyword are part of the text itself.
pub open spec fn load_all_sorted_sql(sort: UserSort, direction: SortDirection) -> Seq<char> {
    "SELECT user_id, user_name, display_name, is_admin, email, mobile_phone FROM \"user\" ORDER BY "@
        + sort.column() + " "@ + direction.keyword()
}

/// The values that an insert or an update binds: the identifier, the user
/// name, an empty credential, then the other fields.
pub open spec fn row_params(
    user_id: u128,
    user_name: Seq<char>,
    display_name: Seq<char>,
    is_admin: bool,
    email: Seq<char>,
    mobile_phone: Seq<char>,
) -> Seq<SqlValueRecord> {
    seq![
        SqlValueRecord::Id(user_id),
        SqlValueRecord::Text(user_name),
        SqlValueRecord::Text(Seq::empty()),
        SqlValueRecord::Text(display_name),
        SqlValueRecord::Flag(is_admin),
        SqlValueRecord::Text(email),
        SqlValueRecord::Text(mobile_phone),
    ]
}

/// Collects the values that an insert or an update binds.
fn bind_row(
    user_id: UserId,
    user_name: &str,
    display_name: &str,
    is_admin: bool,
    email: &str,
    mobile_phone: &str,
) -> (params: Vec<SqlValue>)
    ensures
        params@.map_values(|value: SqlValue| value@) == row_params(
            user_id.bits,
            user_name@,
            display_name@,
            is_admin,
            email@,
            mobile_phone@,
        ),
{
    let mut params: Vec<SqlValue> = Vec::new();
    params.push(SqlValue::Id(user_id));
    params.push(SqlValue::Text(String::from_str(user_name)));
    params.push(SqlValue::Text(String::new()));
    params.push(SqlValue::Text(String::from_str(display_name)));
    params.push(SqlValue::Flag(is_admin));
    params.push(SqlValue::Text(String::from_str(email)));
    params.push(SqlValue::Text(String::from_str(mobile_phone)));
    assert(params@.map_values(|value: SqlValue| value@) =~= row_params(
        user_id.bits,
        user_name@,
        display_name@,
        is_admin,
        email@,
        mobile_phone@,
    ));
    params
}

/// The statement that inserts a user under the identifier `user_id`, with an
/// empty credential.
pub fn insert_statement(
    user_id: UserId,
    user_name: &str,
    display_name: &str,
    is_admin: bool,
    email: &str,
    mobile_phone: &str,
) -> (statement: Statement)
    ensures
        statement@.sql == insert_sql(),
        statement@.params == row_params(
            user_id.bits,
            user_name@,
            display_name@,
            is_admin,
            email@,
            mobile_phone@,
        ),
{
    Statement {
        sql: String::from_str(
            "INSERT INTO \"user\" (user_id, user_name, hash_password, display_name, is_admin, email, mobile_phone) VALUES ($1, $2, $3, $4, $5, $6, $7)",
        ),
        params: bind_row(user_id, user_name, display_name, is_admin, email, mobile_phone),
    }
}

/// The statement that loads the user with the identifier `user_id`.
pub fn load_by_id_statement(user_id: UserId) -> (statement: Statement)
    ensures
        statement@.sql == load_by_id_sql(),
        statement@.params == seq![SqlValueRecord::Id(user_id.bits)],
{
    let mut params: Vec<SqlValue> = Vec::new();
    params.push(SqlValue::Id(user_id));
    assert(params@.map_values(|value: SqlValue| value@) =~= seq![SqlValueRecord::Id(user_id.bits)]);
    Statement {
        sql: String::from_str(
            "SELECT user_id, user_name, display_name, is_admin, email, mobile_phone FROM \"user\" WHERE user_id = $1",
        ),
        params,
    }
}

/// The statement that lists every user by `sort` in `direction`. The column
/// and the direction are chosen in the text; nothing is bound.
///
/// The text names no collation, so the store compares names by the
/// collation of its column. That is the byte order of `crate::text` on
/// SQLite, and on PostgreSQL where the column has the `C` collation.
pub fn load_all_sorted_statement(sort: UserSort, direction: SortDirection) -> (statement: Statement)
    ensures
        statement@.sql == load_all_sorted_sql(sort, direction),
        statement@.params == Seq::<SqlValueRecord>::empty(),
{
    let mut sql = String::from_str(
        "SELECT user_id, user_name, display_name, is_admin, email, mobile_phone FROM \"user\" ORDER BY ",
    );
    sql.append(sort.as_str());
    sql.append(" ");
    sql.append(direction.as_str());
    let params: Vec<SqlValue> = Vec::new();
    assert(params@.map_values(|value: SqlValue| value@) =~= Seq::<SqlValueRecord>::empty());
    Statement { sql, params }
}

/// The statement that overwrites every field but the identifier of the user
/// `user_id`, with an empty credential.
pub fn update_statement(
    user_id: UserId,
    user_name: &str,
    display_name: &str,
    is_admin: bool,
    email: &str,
    mobile_phone: &str,
) -> (statement: Statement)
    ensures
        statement@.sql == update_sql(),
        statement@.params == row_params(
            user_id.bits,
            user_name@,
            display_name@,
            is_admin,
            email@,
            mobile_phone@,
        ),
{
    Statement {
        sql: String::from_str(
            "UPDATE \"user\" SET user_name = $2, hash_password = $3, display_name = $4, is_admin = $5, email = $6, mobile_phone = $7 WHERE user_id = $1",
        ),
        params: bind_row(user_id, user_name, display_name, is_admin, email, mobile_phone),
    }
}

} // verus!
