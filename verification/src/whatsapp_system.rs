//! System messages and missed calls of a WhatsApp Android database: what each action becomes,
//! which users it brings into the chat, and what joining a group reveals about myself.
use vstd::prelude::*;
use std::collections::HashMap;
use crate::model::{ContentPhoto, MessageService, MessageServiceValue, MessageTyped, User};
use crate::whatsapp::{MessageType, TEXT_COLUMN, opt_str_chars};
use crate::entity_utils::{EnumResolve, UnknownCode, pretty_name_or_unnamed};

verus! {

broadcast use vstd::std_specs::hash::group_hash_axioms;

/// Kind of a system message, as the database numbers it.
#[derive(Clone, Copy, Debug, PartialEq, Eq, Structural)]
pub enum SystemActionType {
    GroupPhotoChange,
    GroupCreate,
    GroupUserAdd,
    GroupUserRemove,
    PhoneNumberChange,
    BecameBusinessAccount,
    BlockContact,
    DisappearTimerDisabled,
    PrivacyProvider,
    BusinessState,
    IsAContact,
}

/// The system action a database code stands for.
pub open spec fn system_action_of(code: i32) -> Option<SystemActionType> {
    if code == 6 { Some(SystemActionType::GroupPhotoChange) }
    else if code == 11 { Some(SystemActionType::GroupCreate) }
    else if code == 12 { Some(SystemActionType::GroupUserAdd) }
    else if code == 14 { Some(SystemActionType::GroupUserRemove) }
    else if code == 28 { Some(SystemActionType::PhoneNumberChange) }
    else if code == 46 { Some(SystemActionType::BecameBusinessAccount) }
    else if code == 58 { Some(SystemActionType::BlockContact) }
    else if code == 59 { Some(SystemActionType::DisappearTimerDisabled) }
    else if code == 67 { Some(SystemActionType::PrivacyProvider) }
    else if code == 69 { Some(SystemActionType::BusinessState) }
    else if code == 129 { Some(SystemActionType::IsAContact) }
    else { None }
}

/// The code a system action is stored under in the database (the `action_type` column).
pub open spec fn action_code(t: SystemActionType) -> i32 {
    match t {
        SystemActionType::GroupPhotoChange => 6,
        SystemActionType::GroupCreate => 11,
        SystemActionType::GroupUserAdd => 12,
        SystemActionType::GroupUserRemove => 14,
        SystemActionType::PhoneNumberChange => 28,
        SystemActionType::BecameBusinessAccount => 46,
        SystemActionType::BlockContact => 58,
        SystemActionType::DisappearTimerDisabled => 59,
        SystemActionType::PrivacyProvider => 67,
        SystemActionType::BusinessState => 69,
        SystemActionType::IsAContact => 129,
    }
}

/// A code is read as a system action exactly when it is the code that action is stored
/// under: every action is read back from its own code, and no code stands for two actions.
pub proof fn law_system_action_codes(code: i32, t: SystemActionType)
    ensures
        system_action_of(code) == Some(t) <==> action_code(t) == code,
        system_action_of(action_code(t)) == Some(t),
{
}

impl EnumResolve for SystemActionType {
    open spec fn resolved(tpe: i32) -> Option<SystemActionType> {
        system_action_of(tpe)
    }

    fn resolve(tpe: i32) -> (r: Result<SystemActionType, UnknownCode>) {
        match tpe {
            6 => Ok(SystemActionType::GroupPhotoChange),
            11 => Ok(SystemActionType::GroupCreate),
            12 => Ok(SystemActionType::GroupUserAdd),
            14 => Ok(SystemActionType::GroupUserRemove),
            28 => Ok(SystemActionType::PhoneNumberChange),
            46 => Ok(SystemActionType::BecameBusinessAccount),
            58 => Ok(SystemActionType::BlockContact),
            59 => Ok(SystemActionType::DisappearTimerDisabled),
            67 => Ok(SystemActionType::PrivacyProvider),
            69 => Ok(SystemActionType::BusinessState),
            129 => Ok(SystemActionType::IsAContact),
            _ => Err(UnknownCode { code: tpe }),
        }
    }
}

/// The columns read for a system message. User IDs are those of the JIDs the row names.
#[derive(Debug)]
pub struct SystemRow {
    pub action_type: Option<i32>,
    pub text: Option<String>,
    /// The user added to or removed from a group.
    pub group_user_id: Option<i64>,
    /// The user whose number changed, under the old number.
    pub migrate_user_id: Option<i64>,
    pub is_me_joined: Option<i8>,
    pub is_blocked: Option<i8>,
}

/// Why a system message could not be read.
#[derive(Clone, Copy, Debug, PartialEq, Eq, Structural)]
pub enum SystemMessageError {
    MissingActionType,
    UnknownActionType { code: i32 },
    /// A group creation has no title.
    MissingTitle,
    /// A membership or number change names no user.
    MissingUser,
    /// A block message does not say whether the contact was blocked.
    MissingBlockFlag,
}

/// The user a system message of the given kind names, if any.
pub open spec fn named_user(action: SystemActionType, row: SystemRow) -> Option<Option<i64>> {
    match action {
        SystemActionType::GroupUserAdd => Some(row.group_user_id),
        SystemActionType::GroupUserRemove => Some(row.group_user_id),
        SystemActionType::PhoneNumberChange => Some(row.migrate_user_id),
        _ => None,
    }
}

/// Whether a system message of the given kind is left out.
pub open spec fn action_skipped(action: SystemActionType) -> bool {
    action == SystemActionType::PrivacyProvider || action == SystemActionType::DisappearTimerDisabled
        || action == SystemActionType::BecameBusinessAccount || action == SystemActionType::BusinessState
        || action == SystemActionType::IsAContact
}

/// The error a system row gives, if any.
pub open spec fn system_error(row: SystemRow) -> Option<SystemMessageError> {
    match row.action_type {
        None => Some(SystemMessageError::MissingActionType),
        Some(code) => match system_action_of(code) {
            None => Some(SystemMessageError::UnknownActionType { code }),
            Some(action) => if action == SystemActionType::GroupCreate && row.text is None {
                Some(SystemMessageError::MissingTitle)
            } else if named_user(action, row) == Some(None::<i64>) {
                Some(SystemMessageError::MissingUser)
            } else if action == SystemActionType::BlockContact && row.is_blocked is None {
                Some(SystemMessageError::MissingBlockFlag)
            } else {
                None
            },
        },
    }
}

/// Whether the row says I joined the group the user is named in.
pub open spec fn me_joined(row: SystemRow) -> bool {
    row.is_me_joined == Some(1i8)
}

/// Whether a system row can be read: the users it names are known, and so am I.
pub open spec fn system_readable(row: SystemRow, users: Map<i64, User>, myself_id: i64) -> bool {
    &&& users.contains_key(myself_id)
    &&& row.group_user_id matches Some(id) ==> users.contains_key(id)
    &&& row.migrate_user_id matches Some(id) ==> users.contains_key(id)
}

/// A field of mine, or the same field of another user where mine is unknown.
pub open spec fn or_else(mine: Option<String>, theirs: Option<String>) -> Option<String> {
    if mine is None {
        theirs
    } else {
        mine
    }
}

/// Myself, with the names, username and phone number that I lack taken from `other`.
pub open spec fn filled_from(me: User, other: User) -> User {
    User {
        first_name_option: or_else(me.first_name_option, other.first_name_option),
        last_name_option: or_else(me.last_name_option, other.last_name_option),
        username_option: or_else(me.username_option, other.username_option),
        phone_number_option: or_else(me.phone_number_option, other.phone_number_option),
        ..me
    }
}

/// The users after a system row names the user `id`: where I joined, the user is a second
/// reference to myself, and what I lack is taken from it.
pub open spec fn users_after(users: Map<i64, User>, myself_id: i64, id: i64, joined: bool) -> Map<i64, User> {
    if joined {
        users.insert(myself_id, filled_from(users[myself_id], users[id]))
    } else {
        users
    }
}

/// The user a named user stands for: myself where I joined, the user otherwise.
pub open spec fn user_meant(users: Map<i64, User>, myself_id: i64, id: i64, joined: bool) -> User {
    users_after(users, myself_id, id, joined)[if joined { myself_id } else { id }]
}

/// The value a system row of the given kind gives, with the column that holds its text.
pub open spec fn system_value(
    action: SystemActionType,
    row: SystemRow,
    u: User,
    v: MessageServiceValue,
    text_column: Option<Seq<char>>,
) -> bool {
    match action {
        SystemActionType::GroupPhotoChange => v matches MessageServiceValue::GroupEditPhoto { photo } && {
            &&& text_column is None
            &&& photo.path_option is None && photo.width == 0 && photo.height == 0
            &&& photo.mime_type_option is None && !photo.is_one_time
        },
        SystemActionType::GroupCreate => v matches MessageServiceValue::GroupCreate { title, members } && {
            &&& text_column is None
            &&& Some(title) == row.text && members@.len() == 0
        },
        SystemActionType::GroupUserAdd => v matches MessageServiceValue::GroupInviteMembers { members } && {
            &&& text_column == Some(TEXT_COLUMN@)
            &&& members@.len() == 1 && members@[0]@ == pretty_name_or_unnamed(u)
        },
        SystemActionType::GroupUserRemove => v matches MessageServiceValue::GroupRemoveMembers { members } && {
            &&& text_column == Some(TEXT_COLUMN@)
            &&& members@.len() == 1 && members@[0]@ == pretty_name_or_unnamed(u)
        },
        SystemActionType::PhoneNumberChange => v matches MessageServiceValue::GroupMigrateFrom { title } && {
            &&& text_column == Some(TEXT_COLUMN@)
            &&& title@ == match u.phone_number_option {
                Some(p) => p@,
                None => pretty_name_or_unnamed(u),
            }
        },
        SystemActionType::BlockContact => text_column is None
            && v == MessageServiceValue::BlockUser { is_blocked: row.is_blocked == Some(1i8) },
        _ => false,
    }
}

/// Whether a message is a missed call: a phone call with no duration and no members.
pub open spec fn is_missed_call(t: MessageTyped) -> bool {
    t matches MessageTyped::Service(svc) && (svc.sealed_value_optional matches Some(MessageServiceValue::PhoneCall {
        duration_sec_option, discard_reason_option, members,
    }) && {
        &&& duration_sec_option is None
        &&& members@.len() == 0
        &&& discard_reason_option matches Some(d) && d@ == "missed"@
    })
}

/// Whether `r`, with the users and chat members after the call, is what reading a system
/// message or a missed call gives.
pub open spec fn system_outcome(
    r: Result<Option<(MessageTyped, Option<&'static str>)>, SystemMessageError>,
    row: SystemRow,
    msg_tpe: MessageType,
    users0: Map<i64, User>,
    users1: Map<i64, User>,
    ids0: Set<i64>,
    ids1: Set<i64>,
    myself_id: i64,
) -> bool {
    if msg_tpe == MessageType::MissedCall {
        &&& users1 == users0 && ids1 == ids0
        &&& r matches Ok(Some((typed, col))) && opt_str_chars(col) == Some(TEXT_COLUMN@) && is_missed_call(typed)
    } else {
        match system_error(row) {
            Some(e) => users1 == users0 && ids1 == ids0 && r == Err::<Option<(MessageTyped, Option<&'static str>)>,
                SystemMessageError>(e),
            None => {
                let action = system_action_of(row.action_type.unwrap()).unwrap();
                if action_skipped(action) {
                    users1 == users0 && ids1 == ids0 && r matches Ok(None)
                } else {
                    let joined = me_joined(row);
                    let (u, users_expected, ids_expected) = match named_user(action, row) {
                        Some(Some(id)) => (
                            user_meant(users0, myself_id, id, joined),
                            users_after(users0, myself_id, id, joined),
                            ids0.insert(if joined { myself_id } else { id }),
                        ),
                        _ => (users0[myself_id], users0, ids0),
                    };
                    &&& users1 == users_expected
                    &&& ids1 == ids_expected
                    &&& r matches Ok(Some((MessageTyped::Service(svc), col)))
                        && (svc.sealed_value_optional matches Some(v) && system_value(action, row, u, v, opt_str_chars(col)))
                }
            },
        }
    }
}

/// Adds a member to a list of distinct members, unless it is already there.
pub fn add_member(ids: &mut Vec<i64>, id: i64)
    requires
        old(ids)@.no_duplicates(),
    ensures
        final(ids)@.no_duplicates(),
        final(ids)@.to_set() == old(ids)@.to_set().insert(id),
        !old(ids)@.contains(id) ==> final(ids)@ == old(ids)@.push(id),
        old(ids)@.contains(id) ==> final(ids)@ == old(ids)@,
{
    let n = ids.len();
    let mut i: usize = 0;
    while i < n
        invariant
            n == ids@.len(),
            i <= n,
            ids@.no_duplicates(),
            forall|k: int| 0 <= k < i ==> ids@[k] != id,
        decreases n - i,
    {
        if ids[i] == id {
            proof {
                assert(ids@.contains(id));
                assert(ids@.to_set().insert(id) =~= ids@.to_set());
            }
            return;
        }
        i = i + 1;
    }
    let ghost before = ids@;
    ids.push(id);
    proof {
        assert(!before.contains(id));
        before.lemma_push_to_set_commute(id);
    }
}

fn clone_opt(o: &Option<String>) -> (r: Option<String>)
    ensures
        r == *o,
{
    match o {
        Some(s) => Some(s.clone()),
        None => None,
    }
}

/// Records that the user `id` is named in a chat and gives the name and phone number of the
/// user meant: where I joined, myself, after taking what I lack from that user.
fn take_named_user(
    users: &mut HashMap<i64, User>,
    myself_id: i64,
    id: i64,
    joined: bool,
    ids: &mut Vec<i64>,
) -> (r: (String, Option<String>))
    requires
        old(users)@.contains_key(myself_id),
        old(users)@.contains_key(id),
        old(ids)@.no_duplicates(),
    ensures
        final(users)@ == users_after(old(users)@, myself_id, id, joined),
        final(ids)@.no_duplicates(),
        final(ids)@.to_set() == old(ids)@.to_set().insert(if joined { myself_id } else { id }),
        r.0@ == pretty_name_or_unnamed(user_meant(old(users)@, myself_id, id, joined)),
        r.1 == user_meant(old(users)@, myself_id, id, joined).phone_number_option,
{
    let ghost u0 = users@;
    if joined {
        let (f, l, un, ph) = {
            let other = users.get(&id).unwrap();
            (clone_opt(&other.first_name_option), clone_opt(&other.last_name_option),
                clone_opt(&other.username_option), clone_opt(&other.phone_number_option))
        };
        add_member(ids, myself_id);
        let me = users.remove(&myself_id).unwrap();
        let User { ds_uuid, id: my_id, first_name_option, last_name_option, username_option, phone_number_option,
            profile_pictures } = me;
        let new_me = User {
            ds_uuid,
            id: my_id,
            first_name_option: if first_name_option.is_none() { f } else { first_name_option },
            last_name_option: if last_name_option.is_none() { l } else { last_name_option },
            username_option: if username_option.is_none() { un } else { username_option },
            phone_number_option: if phone_number_option.is_none() { ph } else { phone_number_option },
            profile_pictures,
        };
        let name = new_me.pretty_name();
        let phone = clone_opt(&new_me.phone_number_option);
        users.insert(myself_id, new_me);
        proof {
            assert(users@ =~= u0.insert(myself_id, filled_from(u0[myself_id], u0[id])));
        }
        (name, phone)
    } else {
        add_member(ids, id);
        let u = users.get(&id).unwrap();
        (u.pretty_name(), clone_opt(&u.phone_number_option))
    }
}

fn missed_call() -> (t: MessageTyped)
    ensures
        is_missed_call(t),
{
    MessageTyped::Service(MessageService {
        sealed_value_optional: Some(MessageServiceValue::PhoneCall {
            duration_sec_option: None,
            discard_reason_option: Some("missed".to_owned()),
            members: Vec::new(),
        }),
    })
}

fn service(v: MessageServiceValue, col: Option<&'static str>) -> (r: Result<Option<(MessageTyped, Option<&'static str>)>,
    SystemMessageError>)
    ensures
        r matches Ok(Some((MessageTyped::Service(svc), c))) && c == col && svc.sealed_value_optional == Some(v),
{
    Ok(Some((MessageTyped::Service(MessageService { sealed_value_optional: Some(v) }), col)))
}

/// What a system message or a missed call becomes, as [`system_outcome`] says: the service
/// value and the column that holds its text, or nothing for actions that are left out. A
/// membership or number change records the user it names as a member of the chat; where I
/// joined, that user is myself, and what I lack is taken from it.
pub fn parse_system_message(
    row: SystemRow,
    msg_tpe: MessageType,
    users: &mut HashMap<i64, User>,
    myself_id: i64,
    chat_member_ids: &mut Vec<i64>,
) -> (r: Result<Option<(MessageTyped, Option<&'static str>)>, SystemMessageError>)
    requires
        msg_tpe == MessageType::System || msg_tpe == MessageType::MissedCall,
        system_readable(row, old(users)@, myself_id),
        old(chat_member_ids)@.no_duplicates(),
    ensures
        system_outcome(r, row, msg_tpe, old(users)@, final(users)@, old(chat_member_ids)@.to_set(),
            final(chat_member_ids)@.to_set(), myself_id),
        final(chat_member_ids)@.no_duplicates(),
{
    let ghost g = row;
    if msg_tpe == MessageType::MissedCall {
        return Ok(Some((missed_call(), Some(TEXT_COLUMN))));
    }
    let code = match row.action_type {
        None => {
            return Err(SystemMessageError::MissingActionType);
        },
        Some(c) => c,
    };
    let action = match SystemActionType::resolve(code) {
        Err(_) => {
            return Err(SystemMessageError::UnknownActionType { code });
        },
        Ok(a) => a,
    };
    let joined = match row.is_me_joined {
        Some(j) => j == 1,
        None => false,
    };
    match action {
        SystemActionType::GroupPhotoChange => service(MessageServiceValue::GroupEditPhoto {
            photo: ContentPhoto { path_option: None, width: 0, height: 0, mime_type_option: None, is_one_time: false },
        }, None),
        SystemActionType::GroupCreate => match row.text {
            None => Err(SystemMessageError::MissingTitle),
            Some(title) => service(MessageServiceValue::GroupCreate { title, members: Vec::new() }, None),
        },
        SystemActionType::GroupUserAdd => match row.group_user_id {
            None => Err(SystemMessageError::MissingUser),
            Some(id) => {
                let (name, _) = take_named_user(users, myself_id, id, joined, chat_member_ids);
                service(MessageServiceValue::GroupInviteMembers { members: vec![name] }, Some(TEXT_COLUMN))
            },
        },
        SystemActionType::GroupUserRemove => match row.group_user_id {
            None => Err(SystemMessageError::MissingUser),
            Some(id) => {
                let (name, _) = take_named_user(users, myself_id, id, joined, chat_member_ids);
                service(MessageServiceValue::GroupRemoveMembers { members: vec![name] }, Some(TEXT_COLUMN))
            },
        },
        SystemActionType::PhoneNumberChange => match row.migrate_user_id {
            None => Err(SystemMessageError::MissingUser),
            Some(id) => {
                let (name, phone) = take_named_user(users, myself_id, id, joined, chat_member_ids);
                let title = match phone {
                    Some(p) => p,
                    None => name,
                };
                service(MessageServiceValue::GroupMigrateFrom { title }, Some(TEXT_COLUMN))
            },
        },
        SystemActionType::BlockContact => match row.is_blocked {
            None => Err(SystemMessageError::MissingBlockFlag),
            Some(b) => service(MessageServiceValue::BlockUser { is_blocked: b == 1 }, None),
        },
        _ => Ok(None),
    }
}

} // verus!
