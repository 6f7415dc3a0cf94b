//! The profile a session shows for its user, and the decisions around
//! looking it up and saving it. The database is the caller's.

use vstd::prelude::*;

verus! {

/// The database key of a registered user.
#[derive(Debug, Clone)]
pub struct UserId(pub i32);

/// What a user has told the board about themselves.
#[derive(Debug, Clone)]
pub struct UserInfo {
    pub id: Option<UserId>,
    pub handle: String,
    pub contact: String,
}

/// What a [`UserInfo`] is to the contracts.
pub struct UserInfoView {
    pub id: Option<i32>,
    pub handle: Seq<char>,
    pub contact: Seq<char>,
}

impl View for UserInfo {
    type V = UserInfoView;

    open spec fn view(&self) -> UserInfoView {
        UserInfoView {
            id: match self.id {
                Some(id) => Some(id.0),
                None => None,
            },
            handle: self.handle@,
            contact: self.contact@,
        }
    }
}

impl Default for UserInfo {
    /// An unregistered user: no key, empty handle, empty contact.
    fn default() -> (info: Self)
        ensures
            info@ == (UserInfoView { id: None, handle: Seq::empty(), contact: Seq::empty() }),
    {
        UserInfo { id: None, handle: String::new(), contact: String::new() }
    }
}

/// Why a session has no profile.
#[derive(Debug, Clone, Copy, PartialEq, Eq, Structural)]
pub enum UserUtilError {
    /// The session came without a public key.
    KeyNotPresent,
    /// The key is not in the database.
    NotRegistered,
    /// The key is in the database and the user it belongs to is not.
    DatabaseConsistencyError,
}

impl UserUtilError {
    /// The error in words.
    pub fn message(&self) -> (text: &'static str)
        ensures
            text@ == match self {
                UserUtilError::KeyNotPresent => "Key not present"@,
                UserUtilError::NotRegistered => "User not registered"@,
                UserUtilError::DatabaseConsistencyError => "Key is present but user is not"@,
            },
    {
        match self {
            UserUtilError::KeyNotPresent => "Key not present",
            UserUtilError::NotRegistered => "User not registered",
            UserUtilError::DatabaseConsistencyError => "Key is present but user is not",
        }
    }
}

/// A row of the table of users.
#[derive(Debug, Clone)]
pub struct UserRecord {
    pub id: i32,
    pub handle: String,
    pub contact: Option<String>,
}

/// The profile that the lookups amount to, or the reason why there is none.
pub open spec fn profile_of(has_key: bool, key_known: bool, user: Option<UserRecord>) -> Result<
    UserInfoView,
    UserUtilError,
> {
    if !has_key {
        Err(UserUtilError::KeyNotPresent)
    } else if !key_known {
        Err(UserUtilError::NotRegistered)
    } else {
        match user {
            Some(record) => Ok(
                UserInfoView {
                    id: Some(record.id),
                    handle: record.handle@,
                    contact: match record.contact {
                        Some(contact) => contact@,
                        None => Seq::empty(),
                    },
                },
            ),
            None => Err(UserUtilError::DatabaseConsistencyError),
        }
    }
}

/// What the outcome of a lookup is to the contracts.
pub open spec fn profile_view(profile: Result<UserInfo, UserUtilError>) -> Result<
    UserInfoView,
    UserUtilError,
> {
    match profile {
        Ok(info) => Ok(info@),
        Err(e) => Err(e),
    }
}

/// Makes the profile of a session from what the database holds: whether
/// the session has a key, whether the key is known, and the user that the
/// key belongs to. A user without contact has an empty one.
pub fn user_profile(has_key: bool, key_known: bool, user: Option<UserRecord>) -> (profile: Result<
    UserInfo,
    UserUtilError,
>)
    ensures
        profile_view(profile) == profile_of(has_key, key_known, user),
{
    if !has_key {
        Err(UserUtilError::KeyNotPresent)
    } else if !key_known {
        Err(UserUtilError::NotRegistered)
    } else {
        match user {
            Some(record) => {
                let contact = match record.contact {
                    Some(contact) => contact,
                    None => String::new(),
                };
                Ok(UserInfo { id: Some(UserId(record.id)), handle: record.handle, contact })
            },
            None => Err(UserUtilError::DatabaseConsistencyError),
        }
    }
}

/// How a profile is saved.
#[derive(Debug, Clone, Copy, PartialEq, Eq, Structural)]
pub enum SavePlan {
    /// The session's user exists: change its handle and contact.
    Update,
    /// No user exists for the session's key: insert the user, then the key.
    Insert,
}

/// Decides how to save the profile of a session: only a session with a
/// key has one; it is updated where the lookup found a user and inserted
/// where it found none.
pub fn save_plan(has_key: bool, found: bool) -> (plan: Result<SavePlan, UserUtilError>)
    ensures
        plan == (if !has_key {
            Err::<SavePlan, UserUtilError>(UserUtilError::KeyNotPresent)
        } else if found {
            Ok::<SavePlan, UserUtilError>(SavePlan::Update)
        } else {
            Ok::<SavePlan, UserUtilError>(SavePlan::Insert)
        }),
{
    if !has_key {
        Err(UserUtilError::KeyNotPresent)
    } else if found {
        Ok(SavePlan::Update)
    } else {
        Ok(SavePlan::Insert)
    }
}

/// The greeting of the home screen, by name where the user has a profile.
pub open spec fn welcome_text(handle: Option<Seq<char>>) -> Seq<char> {
    match handle {
        Some(name) => "Welcome to the Future, "@ + name + "."@,
        None => "Welcome to the Future"@,
    }
}

/// What a handle that may be missing is to the contracts.
pub open spec fn handle_view(handle: Option<&str>) -> Option<Seq<char>> {
    match handle {
        Some(name) => Some(name@),
        None => None,
    }
}

/// The greeting of the home screen.
pub fn welcome(handle: Option<&str>) -> (greeting: String)
    ensures
        greeting@ == welcome_text(handle_view(handle)),
{
    match handle {
        Some(name) => {
            let mut greeting = String::new();
            greeting.append("Welcome to the Future, ");
            greeting.append(name);
            greeting.append(".");
            assert(greeting@ =~= welcome_text(Some(name@)));
            greeting
        },
        None => "Welcome to the Future".to_owned(),
    }
}

} // verus!
