//! What the administration surface accepts: new accounts, changes to an
//! account's access, and changes to a node's record.
use vstd::prelude::*;

use crate::text::{lowercase, to_lowercase, trim, trimmed};
use crate::visibility::ADMINISTRATOR;

verus! {

/// Longest name a person or a node may have, in characters.
pub const MAX_NAME_CHARS: usize = 100;

/// Longest e-mail address, in characters.
pub const MAX_EMAIL_CHARS: usize = 320;

/// Shortest password an account may be given, in characters.
pub const MIN_PASSWORD_CHARS: usize = 12;

/// Why a new account was refused.
#[derive(Debug, Clone, Copy, PartialEq, Eq, Structural)]
pub enum AccountRefusal {
    /// The address is empty or has no `@`.
    MissingEmail,
    /// The address is longer than [`MAX_EMAIL_CHARS`].
    EmailTooLong,
    /// The name is empty or longer than [`MAX_NAME_CHARS`].
    BadName,
    /// The password is shorter than [`MIN_PASSWORD_CHARS`].
    ShortPassword,
}

/// A new account as it is stored: the address trimmed and lowercased, the
/// name and the role trimmed.
#[derive(Debug, Clone)]
pub struct NewAccount {
    pub email: String,
    pub full_name: String,
    pub role: String,
}

/// What a request for a new account is answered, checked in order: the
/// address, its length, the name, the password.
pub open spec fn account_check(email: Seq<char>, full_name: Seq<char>, password: Seq<char>) -> Option<
    AccountRefusal,
> {
    let address = lowercase(trimmed(email));
    let name = trimmed(full_name);
    if address.len() == 0 || !address.contains('@') {
        Some(AccountRefusal::MissingEmail)
    } else if address.len() > MAX_EMAIL_CHARS {
        Some(AccountRefusal::EmailTooLong)
    } else if name.len() == 0 || name.len() > MAX_NAME_CHARS {
        Some(AccountRefusal::BadName)
    } else if password.len() < MIN_PASSWORD_CHARS {
        Some(AccountRefusal::ShortPassword)
    } else {
        None
    }
}

fn has_at_sign(text: &str) -> (found: bool)
    ensures
        found == text@.contains('@'),
{
    let length = text.unicode_len();
    let mut i: usize = 0;
    while i < length
        invariant
            length == text@.len(),
            i <= length,
            forall|k: int| 0 <= k < i ==> text@[k] != '@',
        decreases length - i,
    {
        if text.get_char(i) == '@' {
            assert(text@[i as int] == '@');
            return true;
        }
        i = i + 1;
    }
    false
}

/// Check a request for a new account and put it in the form it is stored in.
pub fn check_new_account(email: &str, full_name: &str, role: &str, password: &str) -> (checked:
    Result<NewAccount, AccountRefusal>)
    ensures
        match account_check(email@, full_name@, password@) {
            Some(refusal) => checked == Err::<NewAccount, AccountRefusal>(refusal),
            None => checked matches Ok(account) && account.email@ == lowercase(trimmed(email@))
                && account.full_name@ == trimmed(full_name@) && account.role@ == trimmed(role@),
        },
{
    let address = to_lowercase(trim(email));
    let name = trim(full_name);
    if address.as_str().unicode_len() == 0 || !has_at_sign(address.as_str()) {
        return Err(AccountRefusal::MissingEmail);
    }
    if address.as_str().unicode_len() > MAX_EMAIL_CHARS {
        return Err(AccountRefusal::EmailTooLong);
    }
    let name_length = name.unicode_len();
    if name_length == 0 || name_length > MAX_NAME_CHARS {
        return Err(AccountRefusal::BadName);
    }
    if password.unicode_len() < MIN_PASSWORD_CHARS {
        return Err(AccountRefusal::ShortPassword);
    }
    Ok(NewAccount { email: address, full_name: name.to_string(), role: trim(role).to_string() })
}

/// Whether a change would take an administrator's own access away: it is
/// their own account, and it deactivates it or gives it another role.
pub fn removes_own_access(actor: i64, id: i64, deactivated: Option<bool>, role: Option<&str>) -> (removes: bool)
    ensures
        removes == (id == actor && (deactivated == Some(true) || (role matches Some(r) && r@
            != ADMINISTRATOR@))),
{
    let losing = match deactivated {
        Some(true) => true,
        _ => match role {
            Some(r) => !crate::text::same_text(r, ADMINISTRATOR),
            None => false,
        },
    };
    id == actor && losing
}

/// Where a position in a node's record stands, as far as the checks on it go.
#[derive(Debug, Clone, Copy, PartialEq, Eq, Structural)]
pub enum PositionCheck {
    /// Neither a latitude nor a longitude.
    Absent,
    /// Both, on the globe.
    OnTheGlobe,
    /// Both, but not a point on the globe.
    OffTheGlobe,
    /// Only one of the two.
    Half,
}

/// Why a change to a node's record was refused.
#[derive(Debug, Clone, Copy, PartialEq, Eq, Structural)]
pub enum NodeUpdateRefusal {
    /// The editor neither administers nor owns the node.
    NotOwner,
    /// Only an administrator may hand a node to somebody else.
    OwnerChangeNotAllowed,
    /// The name is empty or longer than [`MAX_NAME_CHARS`].
    BadName,
    /// The position is not a point on the globe.
    PositionOffTheGlobe,
    /// The position has a latitude or a longitude but not both.
    PositionHalf,
}

/// A node name as stored, if it is acceptable.
pub open spec fn good_name(name: Seq<char>) -> bool {
    0 < trimmed(name).len() <= MAX_NAME_CHARS
}

/// What a change to a node's record is answered, checked in order: the
/// editor's right, the owner change, the name, the position.
pub open spec fn node_update_check(
    may_edit: bool,
    is_admin: bool,
    owner_given: bool,
    name: Option<Seq<char>>,
    position: PositionCheck,
) -> Option<NodeUpdateRefusal> {
    if !may_edit {
        Some(NodeUpdateRefusal::NotOwner)
    } else if owner_given && !is_admin {
        Some(NodeUpdateRefusal::OwnerChangeNotAllowed)
    } else if name matches Some(n) && !good_name(n) {
        Some(NodeUpdateRefusal::BadName)
    } else if position == PositionCheck::OffTheGlobe {
        Some(NodeUpdateRefusal::PositionOffTheGlobe)
    } else if position == PositionCheck::Half {
        Some(NodeUpdateRefusal::PositionHalf)
    } else {
        None
    }
}

/// Check a name for a node, trimming it.
pub fn check_node_name(name: &str) -> (checked: Option<String>)
    ensures
        good_name(name@) ==> (checked matches Some(n) && n@ == trimmed(name@)),
        !good_name(name@) ==> checked is None,
{
    let trimmed_name = trim(name);
    let length = trimmed_name.unicode_len();
    if length == 0 || length > MAX_NAME_CHARS {
        None
    } else {
        Some(trimmed_name.to_string())
    }
}

/// Check a change to a node's record; the new name, trimmed, when one is given.
pub fn check_node_update(
    may_edit: bool,
    is_admin: bool,
    owner_given: bool,
    name: Option<&str>,
    position: PositionCheck,
) -> (checked: Result<Option<String>, NodeUpdateRefusal>)
    ensures
        ({
            let asked = match name {
                Some(n) => Some(n@),
                None => None,
            };
            match node_update_check(may_edit, is_admin, owner_given, asked, position) {
                Some(refusal) => checked == Err::<Option<String>, NodeUpdateRefusal>(refusal),
                None => checked matches Ok(new_name) && match name {
                    Some(n) => new_name matches Some(t) && t@ == trimmed(n@),
                    None => new_name is None,
                },
            }
        }),
{
    if !may_edit {
        return Err(NodeUpdateRefusal::NotOwner);
    }
    if owner_given && !is_admin {
        return Err(NodeUpdateRefusal::OwnerChangeNotAllowed);
    }
    let new_name = match name {
        Some(n) => match check_node_name(n) {
            Some(t) => Some(t),
            None => return Err(NodeUpdateRefusal::BadName),
        },
        None => None,
    };
    match position {
        PositionCheck::OffTheGlobe => Err(NodeUpdateRefusal::PositionOffTheGlobe),
        PositionCheck::Half => Err(NodeUpdateRefusal::PositionHalf),
        _ => Ok(new_name),
    }
}

/// The owner a node is handed to: nobody for zero, else the account given.
pub fn owner_after(owner_id: i64) -> (owner: Option<i64>)
    ensures
        owner == (if owner_id != 0 { Some(owner_id) } else { None::<i64> }),
{
    if owner_id != 0 {
        Some(owner_id)
    } else {
        None
    }
}

} // verus!
