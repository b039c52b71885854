//! Service messages of a tg-keeper database: what each kind of action becomes, together with
//! the text that goes with it.
use vstd::prelude::*;
use std::collections::HashMap;
use crate::model::{User, ContentPhoto, MessageService, MessageServiceValue, RichTextElement, RteVal};
use crate::rich_text::{RichText, normalized_searchable};
use crate::numbers::{i64_to_decimal, decimal};
use crate::text::{UNKNOWN, strings_chars};
use crate::entity_utils::pretty_name_or_unnamed;
use crate::tg_keeper::{Peer, RawPeerId, TgPhoto, tg_photo_resolution, peer_raw_id};

verus! {

broadcast use vstd::std_specs::hash::group_hash_axioms;

/// Why a call ended.
#[derive(Debug)]
pub enum PhoneCallDiscardReason {
    Missed,
    Busy,
    Hangup,
    Disconnect,
    AllowGroupCall,
}

/// What a message replies to.
#[derive(Debug)]
pub enum ReplyHeader {
    Header { reply_to_msg_id: Option<i32> },
    StoryHeader,
}

/// The action of a service message, with what is read of it.
#[derive(Debug)]
pub enum MessageAction {
    PhoneCall { duration: Option<i32>, reason: Option<PhoneCallDiscardReason> },
    GroupCall { duration: Option<i32> },
    PinMessage,
    ChatCreate { title: String, users: Vec<i64> },
    ChatEditTitle { title: String },
    ChatEditPhoto { photo: TgPhoto },
    ChatDeletePhoto,
    ChatAddUser { users: Vec<i64> },
    ChatDeleteUser { user_id: i64 },
    ChatJoinedByLink { inviter_id: i64 },
    ChatJoinedByRequest,
    ChannelCreate { title: String },
    ChatMigrateTo,
    ChannelMigrateFrom { title: String },
    HistoryClear,
    InviteToGroupCall { users: Vec<i64> },
    SetMessagesTtl { period: i32 },
    ContactSignUp,
    ScreenshotTaken,
    GameScore,
    PaymentSentMe,
    PaymentSent,
    SecureValuesSentMe,
    SecureValuesSent,
    GeoProximityReached,
    GroupCallScheduled,
    SetChatTheme,
    BotAllowed,
    CustomAction,
    WebViewDataSentMe,
    WebViewDataSent,
    RequestedPeer,
    PaymentRefunded,
    RequestedPeerSentMe,
    GiftPremium,
    GiftCode,
    TopicCreate,
    TopicEdit,
    SuggestProfilePhoto,
    SetChatWallPaper,
    GiveawayLaunch,
    GiveawayResults,
    BoostApply,
    GiftStars,
    PrizeStars,
    StarGift,
    StarGiftUnique,
    Empty,
}

/// Why a service message could not be read.
#[derive(Clone, Copy, Debug, PartialEq, Eq, Structural)]
pub enum ServiceError {
    /// A pinning message replies to nothing.
    PinWithoutReply,
    /// A pinning message replies to a story.
    PinOfStoryReply,
    /// A pinning message replies to no message.
    PinWithoutMessageId,
}

/// Whether an action is one that is skipped (screenshots, payments, bots, gifts, topics and
/// such).
pub open spec fn is_skipped(a: MessageAction) -> bool {
    !(a is PhoneCall || a is GroupCall || a is PinMessage || a is ChatCreate || a is ChatEditTitle
        || a is ChatEditPhoto || a is ChatDeletePhoto || a is ChatAddUser || a is ChatDeleteUser
        || a is ChatJoinedByLink || a is ChatJoinedByRequest || a is ChannelCreate || a is ChatMigrateTo
        || a is ChannelMigrateFrom || a is HistoryClear || a is InviteToGroupCall || a is SetMessagesTtl
        || a is ContactSignUp)
}

/// Name of the user with the given raw ID as shown, or the placeholder for an unknown user.
pub open spec fn resolved_name(users: Map<i64, User>, id: i64) -> Seq<char> {
    if users.contains_key(id) {
        pretty_name_or_unnamed(users[id])
    } else {
        UNKNOWN@
    }
}

/// Names of the users with the given raw IDs.
pub open spec fn resolved_names(users: Map<i64, User>, ids: Seq<i64>) -> Seq<Seq<char>> {
    Seq::new(ids.len(), |k: int| resolved_name(users, ids[k]))
}

/// Decimal text of each ID.
pub open spec fn decimal_ids(ids: Seq<i64>) -> Seq<Seq<char>> {
    Seq::new(ids.len(), |k: int| decimal(ids[k] as int))
}

/// How a call that ended for a reason tells it.
pub open spec fn discard_reason_text(r: PhoneCallDiscardReason) -> Seq<char> {
    match r {
        PhoneCallDiscardReason::Missed => "missed"@,
        PhoneCallDiscardReason::Busy => "busy"@,
        PhoneCallDiscardReason::Hangup => "hangup"@,
        PhoneCallDiscardReason::Disconnect => "disconnect"@,
        PhoneCallDiscardReason::AllowGroupCall => Seq::empty(),
    }
}

/// A number of seconds in the largest unit (minutes, hours, days) that divides it, with the
/// unit's name.
pub open spec fn ttl_magnitude(a: nat) -> (nat, Seq<char>) {
    if a % 60 != 0 {
        (a, "second(s)"@)
    } else if (a / 60) % 60 != 0 {
        (a / 60, "minute(s)"@)
    } else if (a / 60 / 60) % 24 != 0 {
        (a / 60 / 60, "hour(s)"@)
    } else {
        (a / 60 / 60 / 24, "day(s)"@)
    }
}

/// A period in seconds in the largest unit (minutes, hours, days) that divides it, with the
/// unit's name; a negative period keeps its sign.
pub open spec fn ttl_period(p: int) -> (int, Seq<char>) {
    let m = ttl_magnitude(if p < 0 { (-p) as nat } else { p as nat });
    (if p < 0 { -(m.0 as int) } else { m.0 as int }, m.1)
}

/// The notice of a change of the auto-deletion period.
pub open spec fn ttl_notice(p: int) -> Seq<char> {
    "Messages will be auto-deleted in "@ + decimal(ttl_period(p).0) + " "@ + ttl_period(p).1
}

/// Whether `text` is the single plain element holding `t`, or nothing where there is no text.
pub open spec fn service_text(text: Seq<RichTextElement>, t: Option<Seq<char>>) -> bool {
    match t {
        None => text.len() == 0,
        Some(t) => {
            &&& text.len() == 1
            &&& text[0].val matches Some(RteVal::Plain { text: pt })
            &&& pt@ == t
            &&& text[0].searchable_string@ == normalized_searchable(t)
        },
    }
}

/// Whether a photo without a file of its own is given by its resolution (zero where unknown).
pub open spec fn edit_photo(photo: ContentPhoto, p: TgPhoto, media_rel_path: Option<String>) -> bool {
    let (w, h) = match tg_photo_resolution(p) {
        Some(res) => res,
        None => (0i32, 0i32),
    };
    &&& photo.path_option == media_rel_path
    &&& photo.width == w
    &&& photo.height == h
    &&& photo.mime_type_option is None
    &&& !photo.is_one_time
}

/// Whether `v` and `t` are what a (non-skipped, non-pinning) action becomes.
pub open spec fn service_value(
    a: MessageAction,
    from_id: Option<Peer>,
    media_rel_path: Option<String>,
    users: Map<i64, User>,
    v: MessageServiceValue,
    t: Option<Seq<char>>,
) -> bool {
    match a {
        MessageAction::PhoneCall { duration, reason } => t is None && match v {
            MessageServiceValue::PhoneCall { duration_sec_option, discard_reason_option, members } => {
                &&& duration_sec_option == duration
                &&& match reason {
                    Some(r) => discard_reason_option matches Some(d) && d@ == discard_reason_text(r),
                    None => discard_reason_option is None,
                }
                &&& members@.len() == 0
            },
            _ => false,
        },
        MessageAction::GroupCall { duration } => t is None && match v {
            MessageServiceValue::PhoneCall { duration_sec_option, discard_reason_option, members } =>
                duration_sec_option == duration && discard_reason_option is None && members@.len() == 0,
            _ => false,
        },
        MessageAction::ChatCreate { title, users: ids } => t is None && match v {
            MessageServiceValue::GroupCreate { title: vt, members } =>
                vt@ == title@ && strings_chars(members@) == decimal_ids(ids@),
            _ => false,
        },
        MessageAction::ChatEditTitle { title } => t is None && match v {
            MessageServiceValue::GroupEditTitle { title: vt } => vt@ == title@,
            _ => false,
        },
        MessageAction::ChatEditPhoto { photo } => t is None && match v {
            MessageServiceValue::GroupEditPhoto { photo: vp } => edit_photo(vp, photo, media_rel_path),
            _ => false,
        },
        MessageAction::ChatDeletePhoto => t is None && v is GroupDeletePhoto,
        MessageAction::ChatAddUser { users: ids } => t is None && match v {
            MessageServiceValue::GroupInviteMembers { members } => strings_chars(members@) == decimal_ids(ids@),
            _ => false,
        },
        MessageAction::ChatDeleteUser { user_id } => t is None && match v {
            MessageServiceValue::GroupRemoveMembers { members } => strings_chars(members@) == seq![decimal(user_id as int)],
            _ => false,
        },
        MessageAction::ChatJoinedByLink { inviter_id } => t is None && match v {
            MessageServiceValue::GroupInviteMembers { members } =>
                strings_chars(members@) == seq![resolved_name(users, inviter_id)],
            _ => false,
        },
        MessageAction::ChatJoinedByRequest => t is None && match v {
            MessageServiceValue::GroupInviteMembers { members } => strings_chars(members@) == match from_id {
                Some(p) => seq![resolved_name(users, peer_raw_id(p))],
                None => Seq::empty(),
            },
            _ => false,
        },
        MessageAction::ChannelCreate { title } => t is None && match v {
            MessageServiceValue::GroupCreate { title: vt, members } => vt@ == title@ && members@.len() == 0,
            _ => false,
        },
        MessageAction::ChatMigrateTo => t is None && v is GroupMigrateTo,
        MessageAction::ChannelMigrateFrom { title } => t is None && match v {
            MessageServiceValue::GroupMigrateFrom { title: vt } => vt@ == title@,
            _ => false,
        },
        MessageAction::HistoryClear => t is None && v is ClearHistory,
        MessageAction::InviteToGroupCall { users: ids } => t is None && match v {
            MessageServiceValue::PhoneCall { duration_sec_option, discard_reason_option, members } =>
                duration_sec_option is None && discard_reason_option is None
                    && strings_chars(members@) == resolved_names(users, ids@),
            _ => false,
        },
        MessageAction::SetMessagesTtl { period } => v is Notice && t == Some(ttl_notice(period as int)),
        MessageAction::ContactSignUp => v is Notice && t == Some("Joined Telegram"@),
        _ => false,
    }
}

/// Each reason a call ended is told by its own word, and no two reasons by the same one.
pub proof fn law_discard_reasons_are_distinct(r: PhoneCallDiscardReason)
    ensures
        discard_reason_text(r) == "missed"@ <==> r is Missed,
        discard_reason_text(r) == "busy"@ <==> r is Busy,
        discard_reason_text(r) == "hangup"@ <==> r is Hangup,
        discard_reason_text(r) == "disconnect"@ <==> r is Disconnect,
        discard_reason_text(r).len() == 0 <==> r is AllowGroupCall,
{
    reveal_strlit("missed");
    reveal_strlit("busy");
    reveal_strlit("hangup");
    reveal_strlit("disconnect");
    assert("missed"@[0] != "hangup"@[0]);
    assert("missed"@.len() != "busy"@.len() && "missed"@.len() != "disconnect"@.len());
    assert("busy"@.len() != "hangup"@.len() && "busy"@.len() != "disconnect"@.len());
    assert("hangup"@.len() != "disconnect"@.len());
}

/// What a service action becomes: calls (and invitations to group calls) are calls, members
/// added or joining are invitations, a member deleted is a removal, created chats and
/// channels are group creations, title and photo changes are edits, migrations are
/// migrations, a cleared history is a cleared history, and the time-to-live setting and a
/// contact signing up are notices with their text; only those carry a text.
pub proof fn law_service_actions_keep_their_meaning(
    a: MessageAction,
    from_id: Option<Peer>,
    media_rel_path: Option<String>,
    users: Map<i64, User>,
    v: MessageServiceValue,
    t: Option<Seq<char>>,
)
    requires
        service_value(a, from_id, media_rel_path, users, v, t),
    ensures
        (a is PhoneCall || a is GroupCall || a is InviteToGroupCall) <==> (v is PhoneCall),
        (a is ChatAddUser || a is ChatJoinedByLink || a is ChatJoinedByRequest) <==> (v is GroupInviteMembers),
        (a is ChatDeleteUser) <==> (v is GroupRemoveMembers),
        (a is ChatCreate || a is ChannelCreate) <==> (v is GroupCreate),
        (a is ChatEditTitle) <==> (v is GroupEditTitle),
        (a is ChatEditPhoto) <==> (v is GroupEditPhoto),
        (a is ChatDeletePhoto) <==> (v is GroupDeletePhoto),
        (a is ChatMigrateTo) <==> (v is GroupMigrateTo),
        (a is ChannelMigrateFrom) <==> (v is GroupMigrateFrom),
        (a is HistoryClear) <==> (v is ClearHistory),
        (a is SetMessagesTtl || a is ContactSignUp) <==> (v is Notice),
        (t is Some) <==> (v is Notice),
        a matches MessageAction::PhoneCall { reason: Some(r), .. } ==> (v matches MessageServiceValue::PhoneCall {
            discard_reason_option: Some(d),
            ..
        } && d@ == discard_reason_text(r)),
{
}

/// Whether `r` is what a (non-skipped, non-pinning) action becomes: a service message with
/// its value, and the text that goes with it.
pub open spec fn parsed_as(
    r: Result<Option<(MessageService, Vec<RichTextElement>)>, ServiceError>,
    a: MessageAction,
    from_id: Option<Peer>,
    media_rel_path: Option<String>,
    users: Map<i64, User>,
) -> bool {
    match r {
        Ok(Some((svc, text))) => match svc.sealed_value_optional {
            Some(v) => exists|t: Option<Seq<char>>|
                service_value(a, from_id, media_rel_path, users, v, t) && #[trigger] service_text(text@, t),
            None => false,
        },
        _ => false,
    }
}

/// Name of the user with the given raw ID as shown, or the placeholder for an unknown user.
pub fn resolve_pretty_name(users: &HashMap<i64, User>, raw_user_id: RawPeerId) -> (r: String)
    ensures
        r@ == resolved_name(users@, raw_user_id.0),
{
    match users.get(&raw_user_id.0) {
        Some(user) => user.pretty_name(),
        None => UNKNOWN.to_owned(),
    }
}

fn resolve_pretty_names(users: &HashMap<i64, User>, ids: &Vec<i64>) -> (r: Vec<String>)
    ensures
        strings_chars(r@) == resolved_names(users@, ids@),
{
    let mut r: Vec<String> = Vec::new();
    let mut i: usize = 0;
    while i < ids.len()
        invariant
            i <= ids@.len(),
            r@.len() == i,
            forall|k: int| 0 <= k < i ==> (#[trigger] r@[k])@ == resolved_name(users@, ids@[k]),
        decreases ids@.len() - i,
    {
        r.push(resolve_pretty_name(users, RawPeerId(ids[i])));
        i = i + 1;
    }
    assert(strings_chars(r@) =~= resolved_names(users@, ids@));
    r
}

fn decimal_strings(ids: &Vec<i64>) -> (r: Vec<String>)
    ensures
        strings_chars(r@) == decimal_ids(ids@),
{
    let mut r: Vec<String> = Vec::new();
    let mut i: usize = 0;
    while i < ids.len()
        invariant
            i <= ids@.len(),
            r@.len() == i,
            forall|k: int| 0 <= k < i ==> (#[trigger] r@[k])@ == decimal(ids@[k] as int),
        decreases ids@.len() - i,
    {
        r.push(i64_to_decimal(ids[i]));
        i = i + 1;
    }
    assert(strings_chars(r@) =~= decimal_ids(ids@));
    r
}

fn discard_reason_string(r: &PhoneCallDiscardReason) -> (s: String)
    requires
        !(*r is AllowGroupCall),
    ensures
        s@ == discard_reason_text(*r),
{
    proof {
        reveal_strlit("missed");
        reveal_strlit("busy");
        reveal_strlit("hangup");
        reveal_strlit("disconnect");
    }
    match r {
        PhoneCallDiscardReason::Missed => "missed".to_owned(),
        PhoneCallDiscardReason::Busy => "busy".to_owned(),
        PhoneCallDiscardReason::Hangup => "hangup".to_owned(),
        _ => "disconnect".to_owned(),
    }
}

/// The notice of a change of the auto-deletion period, see [`ttl_notice`].
pub fn ttl_notice_text(period: i32) -> (r: String)
    ensures
        r@ == ttl_notice(period as int),
{
    let neg = period < 0;
    let a: u64 = if neg { (-(period as i64)) as u64 } else { period as u64 };
    let (m, unit): (u64, &str) = if a % 60 != 0 {
        (a, "second(s)")
    } else if (a / 60) % 60 != 0 {
        (a / 60, "minute(s)")
    } else if (a / 60 / 60) % 24 != 0 {
        (a / 60 / 60, "hour(s)")
    } else {
        (a / 60 / 60 / 24, "day(s)")
    };
    let n: i64 = if neg { -(m as i64) } else { m as i64 };
    proof {
        reveal_strlit("second(s)");
        reveal_strlit("minute(s)");
        reveal_strlit("hour(s)");
        reveal_strlit("day(s)");
        reveal_strlit("Messages will be auto-deleted in ");
        reveal_strlit(" ");
        assert(ttl_magnitude(a as nat) == (m as nat, unit@));
        assert(n == ttl_period(period as int).0);
    }
    let mut r = "Messages will be auto-deleted in ".to_owned();
    r.append(i64_to_decimal(n).as_str());
    r.append(" ");
    r.append(unit);
    r
}

/// What a service message becomes: its value and, for some actions, a text. Actions that are
/// not kept (screenshots, payments, bots, gifts, topics and such) give nothing. A pinning
/// message must reply to the pinned message.
pub fn parse_service_message(
    action: &MessageAction,
    reply_to: &Option<ReplyHeader>,
    from_id: Option<Peer>,
    media_rel_path: Option<String>,
    users: &HashMap<i64, User>,
) -> (r: Result<Option<(MessageService, Vec<RichTextElement>)>, ServiceError>)
    requires
        *action matches MessageAction::PhoneCall { reason: Some(reason), .. } ==> !(reason is AllowGroupCall),
    ensures
        is_skipped(*action) ==> r == Ok::<Option<(MessageService, Vec<RichTextElement>)>, ServiceError>(None),
        *action is PinMessage ==> match *reply_to {
            None => r == Err::<Option<(MessageService, Vec<RichTextElement>)>, ServiceError>(ServiceError::PinWithoutReply),
            Some(ReplyHeader::StoryHeader) =>
                r == Err::<Option<(MessageService, Vec<RichTextElement>)>, ServiceError>(ServiceError::PinOfStoryReply),
            Some(ReplyHeader::Header { reply_to_msg_id: None }) =>
                r == Err::<Option<(MessageService, Vec<RichTextElement>)>, ServiceError>(ServiceError::PinWithoutMessageId),
            Some(ReplyHeader::Header { reply_to_msg_id: Some(id) }) => r matches Ok(Some((svc, text)))
                && svc.sealed_value_optional == Some(MessageServiceValue::PinMessage { message_id: id as i64 })
                && text@.len() == 0,
        },
        !is_skipped(*action) && !(*action is PinMessage) ==> parsed_as(r, *action, from_id, media_rel_path, users@),
{
    let ghost mrp = media_rel_path;
    proof {
        reveal_strlit("Joined Telegram");
        reveal_strlit("second(s)");
        reveal_strlit("minute(s)");
        reveal_strlit("hour(s)");
        reveal_strlit("day(s)");
        reveal_strlit("Messages will be auto-deleted in ");
        reveal_strlit(" ");
    }
    let (value, text): (MessageServiceValue, Option<String>) = match action {
        MessageAction::PhoneCall { duration, reason } => {
            let discard_reason_option = match reason {
                Some(reason) => Some(discard_reason_string(reason)),
                None => None,
            };
            (MessageServiceValue::PhoneCall { duration_sec_option: *duration, discard_reason_option, members: Vec::new() }, None)
        },
        MessageAction::GroupCall { duration } => (
            MessageServiceValue::PhoneCall { duration_sec_option: *duration, discard_reason_option: None, members: Vec::new() },
            None,
        ),
        MessageAction::PinMessage => {
            let message_source_id = match reply_to {
                None => {
                    return Err(ServiceError::PinWithoutReply);
                },
                Some(ReplyHeader::StoryHeader) => {
                    return Err(ServiceError::PinOfStoryReply);
                },
                Some(ReplyHeader::Header { reply_to_msg_id }) => match reply_to_msg_id {
                    Some(id) => *id as i64,
                    None => {
                        return Err(ServiceError::PinWithoutMessageId);
                    },
                },
            };
            (MessageServiceValue::PinMessage { message_id: message_source_id }, None)
        },
        MessageAction::ChatCreate { title, users: ids } => (
            MessageServiceValue::GroupCreate { title: title.clone(), members: decimal_strings(ids) },
            None,
        ),
        MessageAction::ChatEditTitle { title } => (MessageServiceValue::GroupEditTitle { title: title.clone() }, None),
        MessageAction::ChatEditPhoto { photo } => {
            let (width, height) = match photo.resolution() {
                Some(res) => res,
                None => (0, 0),
            };
            (
                MessageServiceValue::GroupEditPhoto {
                    photo: ContentPhoto {
                        path_option: media_rel_path,
                        width,
                        height,
                        mime_type_option: None,
                        is_one_time: false,
                    },
                },
                None,
            )
        },
        MessageAction::ChatDeletePhoto => (MessageServiceValue::GroupDeletePhoto, None),
        MessageAction::ChatAddUser { users: ids } => (
            MessageServiceValue::GroupInviteMembers { members: decimal_strings(ids) },
            None,
        ),
        MessageAction::ChatDeleteUser { user_id } => {
            let members = vec![i64_to_decimal(*user_id)];
            proof {
                assert(strings_chars(members@) =~= seq![decimal(*user_id as int)]);
            }
            (MessageServiceValue::GroupRemoveMembers { members }, None)
        },
        MessageAction::ChatJoinedByLink { inviter_id } => {
            let members = vec![resolve_pretty_name(users, RawPeerId(*inviter_id))];
            proof {
                assert(strings_chars(members@) =~= seq![resolved_name(users@, *inviter_id)]);
            }
            (MessageServiceValue::GroupInviteMembers { members }, None)
        },
        MessageAction::ChatJoinedByRequest => {
            let members = match from_id {
                Some(m) => vec![resolve_pretty_name(users, m.raw_id())],
                None => Vec::new(),
            };
            proof {
                match from_id {
                    Some(p) => {
                        assert(strings_chars(members@) =~= seq![resolved_name(users@, peer_raw_id(p))]);
                    },
                    None => {
                        assert(strings_chars(members@) =~= Seq::<Seq<char>>::empty());
                    },
                }
            }
            (MessageServiceValue::GroupInviteMembers { members }, None)
        },
        MessageAction::ChannelCreate { title } => (
            MessageServiceValue::GroupCreate { title: title.clone(), members: Vec::new() },
            None,
        ),
        MessageAction::ChatMigrateTo => (MessageServiceValue::GroupMigrateTo, None),
        MessageAction::ChannelMigrateFrom { title } => (MessageServiceValue::GroupMigrateFrom { title: title.clone() }, None),
        MessageAction::HistoryClear => (MessageServiceValue::ClearHistory, None),
        MessageAction::InviteToGroupCall { users: ids } => (
            MessageServiceValue::PhoneCall {
                duration_sec_option: None,
                discard_reason_option: None,
                members: resolve_pretty_names(users, ids),
            },
            None,
        ),
        MessageAction::SetMessagesTtl { period } => (MessageServiceValue::Notice, Some(ttl_notice_text(*period))),
        MessageAction::ContactSignUp => (MessageServiceValue::Notice, Some("Joined Telegram".to_owned())),
        _ => {
            return Ok(None);
        },
    };
    let ghost t: Option<Seq<char>> = match &text {
        Some(s) => Some(s@),
        None => None,
    };
    let rich_text: Vec<RichTextElement> = match text {
        Some(s) => vec![RichText::make_plain(s)],
        None => Vec::new(),
    };
    let ghost gv = value;
    let ghost gt = rich_text@;
    let res: Result<Option<(MessageService, Vec<RichTextElement>)>, ServiceError> =
        Ok(Some((MessageService { sealed_value_optional: Some(value) }, rich_text)));
    proof {
        if !is_skipped(*action) && !(*action is PinMessage) {
            assert(service_value(*action, from_id, mrp, users@, gv, t));
            assert(service_text(gt, t));
            assert(res matches Ok(Some((s2, t2))) && s2.sealed_value_optional == Some(gv) && t2@ == gt);
            assert(exists|tt: Option<Seq<char>>| service_value(*action, from_id, mrp, users@, gv, tt) && #[trigger] service_text(gt, tt));
            assert(parsed_as(res, *action, from_id, mrp, users@));
        }
    }
    res
}

} // verus!
