//! The entities of a chat history: datasets, users, chats, messages and their contents.
use vstd::prelude::*;

verus! {

/// UUID of a dataset, in its textual form.
#[derive(Debug)]
pub struct PbUuid {
    pub value: String,
}

impl Clone for PbUuid {
    fn clone(&self) -> (r: Self)
        ensures
            r == *self,
    {
        PbUuid { value: self.value.clone() }
    }
}

/// A set of chats loaded from one source at one moment.
#[derive(Debug)]
pub struct Dataset {
    pub uuid: PbUuid,
    pub alias: String,
}

/// Visible part of a profile picture.
#[derive(Clone, Copy, Debug, PartialEq, Eq, Structural)]
pub struct PictureFrame {
    pub x: u32,
    pub y: u32,
    pub w: u32,
    pub h: u32,
}

/// Profile picture, path is relative to the dataset root.
#[derive(Debug)]
pub struct ProfilePicture {
    pub path: String,
    pub frame_option: Option<PictureFrame>,
}

#[derive(Debug)]
pub struct User {
    pub ds_uuid: PbUuid,
    pub id: i64,
    pub first_name_option: Option<String>,
    pub last_name_option: Option<String>,
    pub username_option: Option<String>,
    pub phone_number_option: Option<String>,
    pub profile_pictures: Vec<ProfilePicture>,
}

#[derive(Debug)]
pub struct Chat {
    pub ds_uuid: PbUuid,
    pub id: i64,
    pub name_option: Option<String>,
    pub source_type: i32,
    pub tpe: i32,
    /// Relative to the dataset root.
    pub img_path_option: Option<String>,
    pub member_ids: Vec<i64>,
    pub msg_count: i32,
    pub main_chat_id: Option<i64>,
}

/// Chat along with its members (myself first) and its last message.
#[derive(Debug)]
pub struct ChatWithDetails {
    pub chat: Chat,
    pub last_msg_option: Option<Message>,
    /// First element MUST be myself, the rest should be in some fixed order.
    pub members: Vec<User>,
}

/// Chat along with all of its messages.
#[derive(Debug)]
pub struct ChatWithMessages {
    pub chat: Chat,
    pub messages: Vec<Message>,
}

/// Element of formatted message text.
#[derive(Debug)]
pub enum RteVal {
    Plain { text: String },
    Bold { text: String },
    Italic { text: String },
    Underline { text: String },
    Strikethrough { text: String },
    Link { text_option: Option<String>, href: String, hidden: bool },
    PrefmtInline { text: String },
    PrefmtBlock { text: String, language_option: Option<String> },
    Blockquote { text: String },
    Spoiler { text: String },
}

#[derive(Debug)]
pub struct RichTextElement {
    pub val: Option<RteVal>,
    pub searchable_string: String,
}

/// Photo content; the path is relative to the dataset root.
#[derive(Debug)]
pub struct ContentPhoto {
    pub path_option: Option<String>,
    pub width: i32,
    pub height: i32,
    pub mime_type_option: Option<String>,
    pub is_one_time: bool,
}

/// Attached content of a regular message. Paths are relative to the dataset root.
#[derive(Debug)]
pub enum ContentValue {
    Sticker {
        path_option: Option<String>,
        file_name_option: Option<String>,
        width: i32,
        height: i32,
        mime_type_option: Option<String>,
        thumbnail_path_option: Option<String>,
        emoji_option: Option<String>,
    },
    Photo(ContentPhoto),
    VoiceMsg {
        path_option: Option<String>,
        file_name_option: Option<String>,
        mime_type: String,
        duration_sec_option: Option<i32>,
    },
    Audio {
        path_option: Option<String>,
        file_name_option: Option<String>,
        title_option: Option<String>,
        performer_option: Option<String>,
        mime_type: String,
        duration_sec_option: Option<i32>,
        thumbnail_path_option: Option<String>,
    },
    VideoMsg {
        path_option: Option<String>,
        file_name_option: Option<String>,
        width: i32,
        height: i32,
        mime_type: String,
        duration_sec_option: Option<i32>,
        thumbnail_path_option: Option<String>,
        is_one_time: bool,
    },
    Video {
        path_option: Option<String>,
        file_name_option: Option<String>,
        title_option: Option<String>,
        performer_option: Option<String>,
        width: i32,
        height: i32,
        mime_type: String,
        duration_sec_option: Option<i32>,
        thumbnail_path_option: Option<String>,
        is_one_time: bool,
    },
    File {
        path_option: Option<String>,
        file_name_option: Option<String>,
        mime_type_option: Option<String>,
        thumbnail_path_option: Option<String>,
    },
    Location {
        title_option: Option<String>,
        address_option: Option<String>,
        lat_str: String,
        lon_str: String,
        duration_sec_option: Option<i32>,
    },
    Poll { question: String },
    SharedContact {
        first_name_option: Option<String>,
        last_name_option: Option<String>,
        phone_number_option: Option<String>,
        vcard_path_option: Option<String>,
    },
    TodoList { title_option: Option<String>, items: Vec<String> },
}

#[derive(Debug)]
pub struct Content {
    pub sealed_value_optional: Option<ContentValue>,
}

/// Payload of a service message.
#[derive(Debug)]
pub enum MessageServiceValue {
    PhoneCall {
        duration_sec_option: Option<i32>,
        discard_reason_option: Option<String>,
        members: Vec<String>,
    },
    SuggestProfilePhoto { photo: ContentPhoto },
    PinMessage { message_id: i64 },
    ClearHistory,
    BlockUser { is_blocked: bool },
    StatusTextChanged,
    Notice,
    GroupCreate { title: String, members: Vec<String> },
    GroupEditTitle { title: String },
    GroupEditPhoto { photo: ContentPhoto },
    GroupDeletePhoto,
    GroupInviteMembers { members: Vec<String> },
    GroupRemoveMembers { members: Vec<String> },
    GroupMigrateFrom { title: String },
    GroupMigrateTo,
}

#[derive(Debug)]
pub struct MessageService {
    pub sealed_value_optional: Option<MessageServiceValue>,
}

#[derive(Debug)]
pub struct MessageRegular {
    pub edit_timestamp_option: Option<i64>,
    pub is_deleted: bool,
    pub forward_from_name_option: Option<String>,
    pub reply_to_message_id_option: Option<i64>,
    pub contents: Vec<Content>,
}

/// Kind-specific part of a message.
#[derive(Debug)]
pub enum MessageTyped {
    Regular(MessageRegular),
    Service(MessageService),
}

#[derive(Debug)]
pub struct Message {
    pub internal_id: i64,
    pub source_id_option: Option<i64>,
    pub timestamp: i64,
    pub from_id: i64,
    pub text: Vec<RichTextElement>,
    pub searchable_string: String,
    pub typed: Option<MessageTyped>,
}

} // verus!
