//! The vocabulary of the user table: identifiers, the `User` record, the
//! errors of its operations, sort keys and sort directions.

use vstd::prelude::*;
use vstd::string::*;
use crate::ident::{format_hyphenated, fresh_user_id, hyphenated_text};

verus! {

/// The identifier of a user: the 128 bits of a UUID, most significant first.
#[derive(Clone, Copy, Debug, PartialEq, Eq, Hash, Structural)]
pub struct UserId {
    pub bits: u128,
}

/// Mask of the version and variant bits of a UUID.
pub const LAYOUT_MASK: u128 = 0x0000_0000_0000_f000_c000_0000_0000_0000u128;

/// The version and variant bits of a random (version 4) UUID.
pub const RANDOM_LAYOUT: u128 = 0x0000_0000_0000_4000_8000_0000_0000_0000u128;

/// Whether `bits` carry version 4 and the standard variant, as every
/// generated identifier does.
pub open spec fn has_random_layout(bits: u128) -> bool {
    bits & LAYOUT_MASK == RANDOM_LAYOUT
}

/// An identifier with the layout of a generated one is never nil.
pub proof fn lemma_random_layout_not_nil(bits: u128)
    requires
        has_random_layout(bits),
    ensures
        bits != 0,
{
    assert(bits & 0x0000_0000_0000_f000_c000_0000_0000_0000u128
        == 0x0000_0000_0000_4000_8000_0000_0000_0000u128 ==> bits != 0) by (bit_vector);
}

impl UserId {
    /// The nil identifier, which is never generated.
    pub fn nil() -> (id: UserId)
        ensures
            id.bits == 0,
    {
        UserId { bits: 0 }
    }

    /// The identifier with the given bits.
    pub fn from_u128(bits: u128) -> (id: UserId)
        ensures
            id.bits == bits,
    {
        UserId { bits }
    }

    /// The bits of this identifier.
    pub fn as_u128(&self) -> (bits: u128)
        ensures
            bits == self.bits,
    {
        self.bits
    }

    /// Whether this is the nil identifier.
    pub fn is_nil(&self) -> (nil: bool)
        ensures
            nil == (self.bits == 0),
    {
        self.bits == 0
    }

    /// The identifier as text, in the hyphenated form of a UUID.
    pub fn to_string(&self) -> (text: String)
        ensures
            text@ == hyphenated_text(self.bits),
    {
        format_hyphenated(self.bits)
    }
}

impl Default for UserId {
    /// The nil identifier.
    fn default() -> (id: UserId)
        ensures
            id.bits == 0,
    {
        UserId { bits: 0 }
    }
}

/// A user of the application, as the user table hands it out.
#[derive(Debug)]
pub struct User {
    pub user_id: UserId,
    pub user_name: String,
    pub display_name: String,
    pub is_admin: bool,
    pub email: String,
    pub mobile_phone: String,
}

/// What a `User` holds, as mathematical values.
pub struct UserRecord {
    pub user_id: u128,
    pub user_name: Seq<char>,
    pub display_name: Seq<char>,
    pub is_admin: bool,
    pub email: Seq<char>,
    pub mobile_phone: Seq<char>,
}

impl View for User {
    type V = UserRecord;

    open spec fn view(&self) -> UserRecord {
        UserRecord {
            user_id: self.user_id.bits,
            user_name: self.user_name@,
            display_name: self.display_name@,
            is_admin: self.is_admin,
            email: self.email@,
            mobile_phone: self.mobile_phone@,
        }
    }
}

/// What a sequence of users holds, user by user.
pub open spec fn records_of(users: Seq<User>) -> Seq<UserRecord> {
    users.map_values(|user: User| user@)
}

/// What the result of a load holds.
pub open spec fn result_view(result: Result<User, UserError>) -> Result<UserRecord, UserError> {
    match result {
        Ok(user) => Ok(user@),
        Err(error) => Err(error),
    }
}

impl Clone for User {
    fn clone(&self) -> (copy: User)
        ensures
            copy@ == self@,
    {
        User {
            user_id: self.user_id,
            user_name: self.user_name.clone(),
            display_name: self.display_name.clone(),
            is_admin: self.is_admin,
            email: self.email.clone(),
            mobile_phone: self.mobile_phone.clone(),
        }
    }
}

impl Default for User {
    /// An administrator with a fresh identifier and every text field empty.
    ///
    /// The identifier is drawn from the operating system's random source;
    /// where that source gives no bytes, the draw panics.
    fn default() -> (user: User)
        ensures
            has_random_layout(user@.user_id),
            user@.user_id != 0,
            user@.user_name == Seq::<char>::empty(),
            user@.display_name == Seq::<char>::empty(),
            user@.is_admin,
            user@.email == Seq::<char>::empty(),
            user@.mobile_phone == Seq::<char>::empty(),
    {
        User {
            user_id: fresh_user_id(),
            user_name: String::new(),
            display_name: String::new(),
            is_admin: true,
            email: String::new(),
            mobile_phone: String::new(),
        }
    }
}

/// The error type of the database driver, carried through unread.
#[verifier::external_type_specification]
#[verifier::external_body]
pub struct ExDriverError(sqlx::Error);

/// Why an operation on the user table failed.
#[derive(Debug)]
pub enum UserError {
    /// The user name or the display name belongs to another user already, or
    /// the identifier does.
    UniqueConstraintViolation,
    /// No user has the identifier asked for.
    NotFound,
    /// The store failed for a reason of its own. The driver's error is
    /// handed on, so that the caller can judge whether to try again.
    StorageFailure { cause: sqlx::Error },
    /// An insert changed a number of rows other than one.
    IntegrityViolation { rows_affected: u64 },
}

/// The direction in which a listing is ordered.
#[derive(Clone, Copy, Debug, PartialEq, Eq, Structural)]
pub enum SortDirection {
    Asc,
    Desc,
}

impl SortDirection {
    /// The SQL keyword of this direction.
    pub open spec fn keyword(self) -> Seq<char> {
        match self {
            SortDirection::Asc => "ASC"@,
            SortDirection::Desc => "DESC"@,
        }
    }

    /// The SQL keyword of this direction, `ASC` or `DESC`.
    pub fn as_str(&self) -> (text: &'static str)
        ensures
            text@ == self.keyword(),
    {
        match self {
            SortDirection::Asc => "ASC",
            SortDirection::Desc => "DESC",
        }
    }
}

/// The column by which a listing is ordered.
#[derive(Clone, Copy, Debug, PartialEq, Eq, Structural)]
pub enum UserSort {
    UserName,
    DisplayName,
}

impl UserSort {
    /// The name of the column that this key selects.
    pub open spec fn column(self) -> Seq<char> {
        match self {
            UserSort::UserName => "user_name"@,
            UserSort::DisplayName => "display_name"@,
        }
    }

    /// The name of the column that this key selects.
    pub fn as_str(&self) -> (text: &'static str)
        ensures
            text@ == self.column(),
    {
        match self {
            UserSort::UserName => "user_name",
            UserSort::DisplayName => "display_name",
        }
    }
}

} // verus!
