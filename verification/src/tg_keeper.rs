//! Assembling chats from the events of a tg-keeper database: message events are collected
//! per chat, and deletions mark the deleted message.
use vstd::prelude::*;
use crate::ids::UserId;
use crate::model::{Chat, ChatWithMessages, Message, MessageTyped, MessageRegular};
use crate::loaders::LoaderError;
use crate::text::str_eq;
use crate::model::{RichTextElement, RteVal};
use crate::rich_text::{RichText, rte_text, normalized_searchable, link_searchable};
use crate::rich_text_norm::{normalize_rich_text, plains_joined, blank_trimmed, all_white_chars, elem_text, texts_of,
    full_text, lemma_full_text_single, lemma_full_text_append};
use crate::utf16::{utf16_len, utf16be_bytes, unit_offset, at_boundary, char_pos, text_between,
    lemma_bytes_len, lemma_end_offset, lemma_char_pos, lemma_offset_increasing, lemma_bytes_between,
    utf16be_encode, utf16be_decode};

verus! {

/// Telegram user IDs at or above this value are shifted by it.
pub const USER_ID_SHIFT: i64 = 0x1_0000_0000;

/// Raw (non-normalized) peer ID.
#[derive(Clone, Copy, Debug, PartialEq, Eq, Structural)]
pub struct RawPeerId(pub i64);

impl RawPeerId {
    /// The user ID, shifted back where the peer ID is a shifted one.
    pub fn normalize_user_id(&self) -> (r: UserId)
        ensures
            r.0 == (if self.0 >= USER_ID_SHIFT { self.0 - USER_ID_SHIFT } else { self.0 as int }),
    {
        if self.0 >= USER_ID_SHIFT {
            UserId(self.0 - USER_ID_SHIFT)
        } else {
            UserId(self.0)
        }
    }
}

/// Settings of the loader.
#[derive(Clone, Copy, Debug, PartialEq, Eq, Structural)]
pub struct LoaderConfig {
    /// Whether to load generic files (non-audio/video/photo/sticker/etc.). If false, path will set to None.
    pub load_generic_files: bool,
    /// Max size of generic and video files to load, in bytes. Does not affect audio/video messages, etc.
    pub max_file_video_size_bytes: usize,
}

/// Loader for tg-keeper databases.
#[derive(Clone, Copy, Debug, PartialEq, Eq, Structural)]
pub struct TgKeeperDataLoader {
    pub config: LoaderConfig,
}

/// Name of the database file this loader reads.
pub const FILENAME: &'static str = "tg-keeper.sqlite";

impl TgKeeperDataLoader {
    pub fn name(&self) -> (r: String)
        ensures
            r@ == "TgKeeper"@,
    {
        "TgKeeper".to_owned()
    }

    /// Whether the file (given by its name) looks like one this loader reads.
    pub fn looks_about_right_inner(&self, file_name: &str) -> (r: Result<(), LoaderError>)
        ensures
            file_name@ == FILENAME@ ==> r is Ok,
            file_name@ != FILENAME@ ==> (r matches Err(LoaderError::FileNameMismatch { actual, expected })
                && actual@ == file_name@ && expected@ == FILENAME@),
    {
        if str_eq(file_name, FILENAME) {
            Ok(())
        } else {
            Err(LoaderError::FileNameMismatch { actual: file_name.to_owned(), expected: FILENAME.to_owned() })
        }
    }
}

/// Whether the messages are ordered by strictly increasing internal ID.
pub open spec fn ids_increasing(s: Seq<Message>) -> bool {
    forall|i: int, j: int| 0 <= i < j < s.len() ==> s[i].internal_id < s[j].internal_id
}

/// Whether some message has the given internal ID.
pub open spec fn has_id(s: Seq<Message>, id: i64) -> bool {
    exists|i: int| 0 <= i < s.len() && (#[trigger] s[i]).internal_id == id
}

/// The IDs other than `myself`, in order.
pub open spec fn other_members(ids: Seq<i64>, myself: i64) -> Seq<i64> {
    ids.filter(|id: i64| id != myself)
}

/// A chat being assembled: the authors of its messages (each once, in order of first
/// appearance) and its messages by internal ID.
#[derive(Debug)]
pub struct CwmBuilder {
    pub chat: Chat,
    pub member_ids: Vec<i64>,
    pub messages: Vec<Message>,
}

impl CwmBuilder {
    /// No member occurs twice, and the messages are ordered by strictly increasing ID.
    pub open spec fn wf(&self) -> bool {
        &&& self.member_ids@.no_duplicates()
        &&& ids_increasing(self.messages@)
    }

    pub fn new(chat: Chat) -> (r: Self)
        ensures
            r.wf(),
            r.chat == chat,
            r.member_ids@.len() == 0,
            r.messages@.len() == 0,
    {
        CwmBuilder { chat, member_ids: Vec::new(), messages: Vec::new() }
    }

    /// Adds a message and its author; a message already present with the same internal ID
    /// is silently overwritten.
    pub fn add_message(&mut self, msg: Message)
        requires
            old(self).wf(),
        ensures
            final(self).wf(),
            final(self).chat == old(self).chat,
            final(self).member_ids@ == (if old(self).member_ids@.contains(msg.from_id) {
                old(self).member_ids@
            } else {
                old(self).member_ids@.push(msg.from_id)
            }),
            final(self).messages@.contains(msg),
            forall|m: Message| #[trigger] final(self).messages@.contains(m) ==> m == msg || (old(self).messages@.contains(m)
                && m.internal_id != msg.internal_id),
            forall|m: Message| #[trigger] old(self).messages@.contains(m) && m.internal_id != msg.internal_id
                ==> final(self).messages@.contains(m),
    {
        let from_id = msg.from_id;
        let mut k: usize = 0;
        let mut seen = false;
        while k < self.member_ids.len()
            invariant
                0 <= k <= self.member_ids@.len(),
                seen == exists|x: int| 0 <= x < k && self.member_ids@[x] == from_id,
            decreases self.member_ids@.len() - k,
        {
            if self.member_ids[k] == from_id {
                seen = true;
            }
            k = k + 1;
        }
        if !seen {
            proof {
                assert forall|x: int, y: int| 0 <= x < y < self.member_ids@.push(from_id).len() implies
                    self.member_ids@.push(from_id)[x] != self.member_ids@.push(from_id)[y] by {
                    if y == self.member_ids@.len() {
                        assert(self.member_ids@[x] != from_id);
                    }
                }
            }
            self.member_ids.push(from_id);
        } else {
            proof {
                let x = choose|x: int| 0 <= x < k && self.member_ids@[x] == from_id;
                assert(self.member_ids@.contains(from_id));
            }
        }
        let id = msg.internal_id;
        let n = self.messages.len();
        let mut p: usize = 0;
        while p < n && self.messages[p].internal_id < id
            invariant
                n == self.messages@.len(),
                0 <= p <= n,
                ids_increasing(self.messages@),
                forall|i: int| 0 <= i < p ==> (#[trigger] self.messages@[i]).internal_id < id,
            decreases n - p,
        {
            p = p + 1;
        }
        let ghost before = self.messages@;
        if p < n && self.messages[p].internal_id == id {
            let _old_msg = self.messages.remove(p);
            self.messages.insert(p, msg);
            proof {
                assert(self.messages@ =~= before.update(p as int, msg));
                assert forall|m: Message| #[trigger] self.messages@.contains(m) implies m == msg || (before.contains(m)
                    && m.internal_id != id) by {
                    let i = choose|i: int| 0 <= i < self.messages@.len() && self.messages@[i] == m;
                    if i != p {
                        assert(before[i] == m);
                        assert(before[p as int].internal_id == id);
                    }
                }
                assert forall|m: Message| #[trigger] before.contains(m) && m.internal_id != id implies self.messages@.contains(m) by {
                    let i = choose|i: int| 0 <= i < before.len() && before[i] == m;
                    assert(i != p);
                    assert(self.messages@[i] == m);
                }
                assert(self.messages@[p as int] == msg);
            }
        } else {
            self.messages.insert(p, msg);
            proof {
                assert(self.messages@ =~= before.insert(p as int, msg));
                assert forall|i: int| p <= i < before.len() implies (#[trigger] before[i]).internal_id > id by {
                    if i > p {
                        assert(before[p as int].internal_id < before[i].internal_id);
                    }
                }
                assert forall|m: Message| #[trigger] self.messages@.contains(m) implies m == msg || (before.contains(m)
                    && m.internal_id != id) by {
                    let i = choose|i: int| 0 <= i < self.messages@.len() && self.messages@[i] == m;
                    if i < p {
                        assert(before[i] == m);
                    } else if i > p {
                        assert(before[i - 1] == m);
                    }
                }
                assert forall|m: Message| #[trigger] before.contains(m) && m.internal_id != id implies self.messages@.contains(m) by {
                    let i = choose|i: int| 0 <= i < before.len() && before[i] == m;
                    if i < p {
                        assert(self.messages@[i] == m);
                    } else {
                        assert(self.messages@[i + 1] == m);
                    }
                }
                assert(self.messages@[p as int] == msg);
            }
        }
    }

    /// The assembled chat: myself first among the members, then the other authors; the
    /// message count set; the messages ordered by internal ID.
    pub fn build(self, myself_id: UserId) -> (r: ChatWithMessages)
        requires
            self.wf(),
        ensures
            r.chat.member_ids@ == seq![myself_id.0] + other_members(self.member_ids@, myself_id.0),
            r.chat.msg_count == #[verifier::truncate] (self.messages@.len() as i32),
            r.chat.ds_uuid == self.chat.ds_uuid,
            r.chat.id == self.chat.id,
            r.chat.name_option == self.chat.name_option,
            r.chat.source_type == self.chat.source_type,
            r.chat.tpe == self.chat.tpe,
            r.chat.img_path_option == self.chat.img_path_option,
            r.chat.main_chat_id == self.chat.main_chat_id,
            r.messages@ == self.messages@,
    {
        let CwmBuilder { chat, member_ids, messages } = self;
        let mut ids: Vec<i64> = Vec::new();
        ids.push(myself_id.0);
        let mut i: usize = 0;
        proof {
            reveal(Seq::filter);
            assert(member_ids@.take(0) =~= Seq::<i64>::empty());
            assert(ids@ =~= seq![myself_id.0] + other_members(member_ids@.take(0), myself_id.0));
        }
        while i < member_ids.len()
            invariant
                0 <= i <= member_ids@.len(),
                ids@ == seq![myself_id.0] + other_members(member_ids@.take(i as int), myself_id.0),
            decreases member_ids@.len() - i,
        {
            proof {
                reveal(Seq::filter);
                let s1 = member_ids@.take(i + 1);
                assert(s1.drop_last() =~= member_ids@.take(i as int));
                assert(s1.last() == member_ids@[i as int]);
                assert(other_members(s1, myself_id.0) == (if member_ids@[i as int] != myself_id.0 {
                    other_members(member_ids@.take(i as int), myself_id.0).push(member_ids@[i as int])
                } else {
                    other_members(member_ids@.take(i as int), myself_id.0)
                }));
            }
            let ghost before = ids@;
            if member_ids[i] != myself_id.0 {
                ids.push(member_ids[i]);
            }
            proof {
                assert(ids@ =~= seq![myself_id.0] + other_members(member_ids@.take(i + 1), myself_id.0));
            }
            i = i + 1;
        }
        assert(member_ids@.take(i as int) =~= member_ids@);
        let msg_count = #[verifier::truncate] (messages.len() as i32);
        let chat = Chat {
            ds_uuid: chat.ds_uuid,
            id: chat.id,
            name_option: chat.name_option,
            source_type: chat.source_type,
            tpe: chat.tpe,
            img_path_option: chat.img_path_option,
            member_ids: ids,
            msg_count,
            main_chat_id: chat.main_chat_id,
        };
        ChatWithMessages { chat, messages }
    }
}

/// The message marked as deleted: a regular message gets its deletion flag set, a service
/// message stays as it is.
pub open spec fn marked_deleted(m: Message) -> Message {
    match m.typed {
        Some(MessageTyped::Regular(r)) => Message {
            typed: Some(MessageTyped::Regular(MessageRegular { is_deleted: true, ..r })),
            ..m
        },
        _ => m,
    }
}

/// The messages with the message of the given ID marked as deleted.
pub open spec fn marked_in(s: Seq<Message>, id: i64) -> Seq<Message> {
    s.map_values(|m: Message| if m.internal_id == id { marked_deleted(m) } else { m })
}

/// Whether two of the chats hold a message with the given ID.
pub open spec fn held_twice(builders: Seq<CwmBuilder>, id: i64) -> bool {
    exists|b1: int, b2: int|
        0 <= b1 < b2 < builders.len() && #[trigger] has_id(builders[b1].messages@, id) && #[trigger] has_id(
            builders[b2].messages@,
            id,
        )
}

/// Why a deletion could not be recorded.
#[derive(Clone, Copy, Debug, PartialEq, Eq, Structural)]
pub enum DeletionError {
    /// The deleted message is contained in more than one chat.
    ContainedInSeveralChats,
}

/// Position of the message with the given ID, if any.
fn find_message(messages: &Vec<Message>, id: i64) -> (r: Option<usize>)
    ensures
        r matches Some(j) ==> j < messages@.len() && messages@[j as int].internal_id == id,
        r is None ==> !has_id(messages@, id),
{
    let mut j: usize = 0;
    while j < messages.len()
        invariant
            0 <= j <= messages@.len(),
            forall|k: int| 0 <= k < j ==> (#[trigger] messages@[k]).internal_id != id,
        decreases messages@.len() - j,
    {
        if messages[j].internal_id == id {
            return Some(j);
        }
        j = j + 1;
    }
    None
}

proof fn lemma_marked_keeps_ids(s: Seq<Message>, id: i64)
    requires
        ids_increasing(s),
    ensures
        ids_increasing(marked_in(s, id)),
{
    assert forall|i: int, j: int| 0 <= i < j < s.len() implies marked_in(s, id)[i].internal_id < marked_in(s, id)[j].internal_id by {
        assert(marked_in(s, id)[i].internal_id == s[i].internal_id);
        assert(marked_in(s, id)[j].internal_id == s[j].internal_id);
    }
}

proof fn lemma_marked_without_id(s: Seq<Message>, id: i64)
    requires
        !has_id(s, id),
    ensures
        marked_in(s, id) == s,
{
    assert forall|k: int| 0 <= k < s.len() implies marked_in(s, id)[k] == s[k] by {
        assert(s[k].internal_id != id);
    }
    assert(marked_in(s, id) =~= s);
}

/// Records the deletion of a message of one of the chats: a regular message is marked as
/// deleted, a service message is left as it is. We don't know which chat has this message,
/// so it is an error for more than one chat to have it; then nothing changes.
pub fn mark_message_deleted(builders: &mut Vec<CwmBuilder>, msg_id: i64) -> (r: Result<(), DeletionError>)
    requires
        forall|b: int| 0 <= b < old(builders)@.len() ==> (#[trigger] old(builders)@[b]).wf(),
        forall|b: int, i: int|
            0 <= b < old(builders)@.len() && 0 <= i < old(builders)@[b].messages@.len()
                && old(builders)@[b].messages@[i].internal_id == msg_id ==> (#[trigger] old(builders)@[b].messages@[i]).typed is Some,
    ensures
        r is Err <==> held_twice(old(builders)@, msg_id),
        r is Err ==> final(builders)@ == old(builders)@,
        r is Ok ==> final(builders)@.len() == old(builders)@.len(),
        forall|b: int| 0 <= b < final(builders)@.len() ==> (#[trigger] final(builders)@[b]).wf(),
        r is Ok ==> forall|b: int| 0 <= b < old(builders)@.len() ==> {
            &&& (#[trigger] final(builders)@[b]).chat == old(builders)@[b].chat
            &&& final(builders)@[b].member_ids == old(builders)@[b].member_ids
            &&& final(builders)@[b].messages@ == marked_in(old(builders)@[b].messages@, msg_id)
        },
{
    let mut found: Option<(usize, usize)> = None;
    let mut b: usize = 0;
    while b < builders.len()
        invariant
            0 <= b <= builders@.len(),
            builders@ == old(builders)@,
            forall|k: int| 0 <= k < builders@.len() ==> (#[trigger] builders@[k]).wf(),
            found matches Some((fb, fj)) ==> {
                &&& fb < b
                &&& fj < builders@[fb as int].messages@.len()
                &&& builders@[fb as int].messages@[fj as int].internal_id == msg_id
                &&& forall|k: int| 0 <= k < b && k != fb ==> !has_id(#[trigger] builders@[k].messages@, msg_id)
            },
            found is None ==> forall|k: int| 0 <= k < b ==> !has_id(#[trigger] builders@[k].messages@, msg_id),
        decreases builders@.len() - b,
    {
        match find_message(&builders[b].messages, msg_id) {
            Some(j) => {
                if let Some((fb, fj)) = found {
                    proof {
                        assert(has_id(builders@[fb as int].messages@, msg_id));
                        assert(has_id(builders@[b as int].messages@, msg_id));
                    }
                    return Err(DeletionError::ContainedInSeveralChats);
                }
                found = Some((b, j));
            },
            None => {},
        }
        b = b + 1;
    }
    proof {
        if held_twice(builders@, msg_id) {
            let (b1, b2) = choose|b1: int, b2: int|
                0 <= b1 < b2 < builders@.len() && #[trigger] has_id(builders@[b1].messages@, msg_id)
                    && #[trigger] has_id(builders@[b2].messages@, msg_id);
            assert(false);
        }
    }
    match found {
        None => {
            proof {
                assert forall|k: int| 0 <= k < builders@.len() implies (#[trigger] builders@[k]).messages@ == marked_in(
                    builders@[k].messages@,
                    msg_id,
                ) by {
                    lemma_marked_without_id(builders@[k].messages@, msg_id);
                }
            }
            Ok(())
        },
        Some((fb, fj)) => {
            let ghost olds = builders@;
            let mut bldr = builders.remove(fb);
            let ghost old_msgs = bldr.messages@;
            let mut m = bldr.messages.remove(fj);
            match &mut m.typed {
                Some(MessageTyped::Regular(r)) => {
                    r.is_deleted = true;
                },
                _ => {},
            }
            proof {
                assert(m == marked_deleted(old_msgs[fj as int]));
            }
            bldr.messages.insert(fj, m);
            proof {
                assert(bldr.messages@ =~= old_msgs.update(fj as int, m));
                assert forall|k: int| 0 <= k < old_msgs.len() implies bldr.messages@[k] == marked_in(old_msgs, msg_id)[k] by {
                    if k != fj {
                        if k < fj {
                            assert(old_msgs[k].internal_id < old_msgs[fj as int].internal_id);
                        } else {
                            assert(old_msgs[fj as int].internal_id < old_msgs[k].internal_id);
                        }
                    }
                }
                assert(bldr.messages@ =~= marked_in(old_msgs, msg_id));
            }
            proof {
                lemma_marked_keeps_ids(old_msgs, msg_id);
            }
            builders.insert(fb, bldr);
            proof {
                assert(builders@ =~= olds.update(fb as int, bldr));
                assert forall|k: int| 0 <= k < olds.len() && k != fb implies (#[trigger] olds[k]).messages@ == marked_in(
                    olds[k].messages@,
                    msg_id,
                ) by {
                    lemma_marked_without_id(olds[k].messages@, msg_id);
                }
            }
            Ok(())
        },
    }
}

/// Recording the deletion of a message twice is the same as recording it once.
pub proof fn law_deletion_idempotent(s: Seq<Message>, id: i64)
    ensures
        marked_in(marked_in(s, id), id) == marked_in(s, id),
{
    assert(marked_in(marked_in(s, id), id) =~= marked_in(s, id));
}

//
// Formatted message text
//

/// Kind of a formatting entity of a message text.
#[derive(Debug)]
pub enum EntityKind {
    Bold,
    Italic,
    Underline,
    Strike,
    Blockquote,
    Spoiler,
    Code,
    Pre { language: String },
    TextUrl { url: String },
    Url,
    Mention,
    Hashtag,
    BotCommand,
    Email,
    Phone,
    Cashtag,
    BankCard,
    MentionName,
    InputMessageEntityMentionName,
    Unknown,
    CustomEmoji,
}

/// Formatting entity of a message text; its offset and length are in UTF-16 code units.
#[derive(Debug)]
pub struct MessageEntity {
    pub kind: EntityKind,
    pub offset: i32,
    pub length: i32,
}

/// Whether `out` holds `text` (with its searchable string) and has a text of its own.
pub open spec fn holds_text(out: RichTextElement, text: Seq<char>) -> bool {
    &&& out.val is Some
    &&& rte_text(out.val.unwrap()) == Some(text)
    &&& out.searchable_string@ == normalized_searchable(text)
}

/// Whether `out` is the plain element holding `text`.
pub open spec fn plain_of(out: RichTextElement, text: Seq<char>) -> bool {
    holds_text(out, text) && out.val.unwrap() is Plain
}

/// Whether `out` is a visible link with the text `text` and the address `href`.
pub open spec fn link_of(out: RichTextElement, text: Seq<char>, href: Seq<char>) -> bool {
    &&& out.val is Some
    &&& out.val.unwrap() is Link
    &&& rte_text(out.val.unwrap()) == Some(text)
    &&& out.val.unwrap()->href@ == href
    &&& !out.val.unwrap()->hidden
    &&& out.searchable_string@ == link_searchable(Some(text), href)
}

/// Whether `out` is the element an entity of the given kind makes of `text`: styles map to
/// their elements, code to preformatted text, links to links, and the rest (mentions,
/// hashtags, commands and such) to plain text.
pub open spec fn entity_element(kind: EntityKind, text: Seq<char>, out: RichTextElement) -> bool {
    match kind {
        EntityKind::Bold => holds_text(out, text) && out.val.unwrap() is Bold,
        EntityKind::Italic => holds_text(out, text) && out.val.unwrap() is Italic,
        EntityKind::Underline => holds_text(out, text) && out.val.unwrap() is Underline,
        EntityKind::Strike => holds_text(out, text) && out.val.unwrap() is Strikethrough,
        EntityKind::Blockquote => holds_text(out, text) && out.val.unwrap() is Blockquote,
        EntityKind::Spoiler => holds_text(out, text) && out.val.unwrap() is Spoiler,
        EntityKind::Code => holds_text(out, text) && out.val.unwrap() is PrefmtInline,
        EntityKind::Pre { language } => {
            &&& holds_text(out, text)
            &&& out.val.unwrap() is PrefmtBlock
            &&& match out.val.unwrap()->language_option {
                Some(l) => language@.len() > 0 && l@ == language@,
                None => language@.len() == 0,
            }
        },
        EntityKind::TextUrl { url } => link_of(out, text, url@),
        EntityKind::Url => link_of(out, text, text),
        EntityKind::CustomEmoji => false,
        _ => plain_of(out, text),
    }
}

/// Whether the entities from the `i`-th on can be cut out of `s` from the offset `curr` on
/// (all in code units): each entity that is reached (the text is not used up yet) and that
/// is not a custom emoji starts at or after the end of the one before, and starts and ends
/// between characters of the text.
pub open spec fn entities_fit(s: Seq<char>, es: Seq<MessageEntity>, i: int, curr: int) -> bool
    decreases es.len() - i,
{
    if i < 0 || i >= es.len() || curr >= utf16_len(s) {
        true
    } else if es[i].kind is CustomEmoji {
        entities_fit(s, es, i + 1, curr)
    } else {
        let o = es[i].offset as int;
        let e = o + es[i].length as int;
        &&& 0 <= es[i].offset
        &&& 0 <= es[i].length
        &&& curr <= o
        &&& at_boundary(s, o)
        &&& at_boundary(s, e)
        &&& entities_fit(s, es, i + 1, e)
    }
}

/// The pieces the text falls into from the `i`-th entity and the offset `curr` on, each as
/// (entity position, or -1 for plain text; start; end), in code units: the text before
/// each entity, the entity, and at the end the text after the last entity reached. Custom
/// emoji are skipped.
pub open spec fn text_pieces(s: Seq<char>, es: Seq<MessageEntity>, i: int, curr: int) -> Seq<(int, int, int)>
    decreases es.len() - i,
{
    let total = utf16_len(s) as int;
    if i < 0 || i >= es.len() || curr >= total {
        if curr < total {
            seq![(-1, curr, total)]
        } else {
            Seq::empty()
        }
    } else if es[i].kind is CustomEmoji {
        text_pieces(s, es, i + 1, curr)
    } else {
        let o = es[i].offset as int;
        let e = o + es[i].length as int;
        if o > curr {
            seq![(-1, curr, o), (i, o, e)] + text_pieces(s, es, i + 1, e)
        } else {
            seq![(i, o, e)] + text_pieces(s, es, i + 1, e)
        }
    }
}

/// Whether `out` is the element a piece of the text makes.
pub open spec fn piece_element(s: Seq<char>, es: Seq<MessageEntity>, p: (int, int, int), out: RichTextElement) -> bool {
    if p.0 < 0 {
        plain_of(out, text_between(s, p.1, p.2))
    } else {
        entity_element(es[p.0].kind, text_between(s, p.1, p.2), out)
    }
}

/// Whether `out` holds the elements the pieces make, in order.
pub open spec fn pieces_made(s: Seq<char>, es: Seq<MessageEntity>, ps: Seq<(int, int, int)>, out: Seq<RichTextElement>) -> bool {
    &&& out.len() == ps.len()
    &&& forall|k: int| 0 <= k < ps.len() ==> piece_element(s, es, ps[k], #[trigger] out[k])
}

/// Each entity makes an element of its own kind holding the entity's text: bold text stays
/// bold, italic italic, underlined underlined, struck-through struck through, quotes quotes and
/// spoilers spoilers; code is inline preformatted text and a pre block a preformatted block;
/// text links and URLs are links (a URL to itself); everything else is plain. No two kinds of
/// entity make elements of the same kind.
pub proof fn law_entities_keep_their_style(kind: EntityKind, t: Seq<char>, out: RichTextElement)
    requires
        entity_element(kind, t, out),
    ensures
        out.val is Some,
        rte_text(out.val.unwrap()) == Some(t),
        (kind is Bold) <==> (out.val.unwrap() is Bold),
        (kind is Italic) <==> (out.val.unwrap() is Italic),
        (kind is Underline) <==> (out.val.unwrap() is Underline),
        (kind is Strike) <==> (out.val.unwrap() is Strikethrough),
        (kind is Blockquote) <==> (out.val.unwrap() is Blockquote),
        (kind is Spoiler) <==> (out.val.unwrap() is Spoiler),
        (kind is Code) <==> (out.val.unwrap() is PrefmtInline),
        (kind is Pre) <==> (out.val.unwrap() is PrefmtBlock),
        (kind is TextUrl || kind is Url) <==> (out.val.unwrap() is Link),
        kind is Url ==> out.val.unwrap()->href@ == t,
        kind matches EntityKind::TextUrl { url } ==> out.val.unwrap()->href@ == url@,
        !(kind is CustomEmoji),
{
}

/// The element an entity of the given kind makes of its text.
fn entity_rte(kind: &EntityKind, text: String) -> (r: RichTextElement)
    requires
        !(*kind is CustomEmoji),
    ensures
        entity_element(*kind, text@, r),
{
    match kind {
        EntityKind::Bold => RichText::make_bold(text),
        EntityKind::Italic => RichText::make_italic(text),
        EntityKind::Underline => RichText::make_underline(text),
        EntityKind::Strike => RichText::make_strikethrough(text),
        EntityKind::Blockquote => RichText::make_blockquote(text),
        EntityKind::Spoiler => RichText::make_spoiler(text),
        EntityKind::Code => RichText::make_prefmt_inline(text),
        EntityKind::Pre { language } => {
            let language_option = if language.as_str().is_empty() { None } else { Some(language.clone()) };
            RichText::make_prefmt_block(text, language_option)
        },
        EntityKind::TextUrl { url } => RichText::make_link(Some(text), url.clone(), false),
        EntityKind::Url => {
            let href = text.clone();
            RichText::make_link(Some(text), href, false)
        },
        _ => RichText::make_plain(text),
    }
}

/// Offsets within the text are no further than its end.
proof fn lemma_offset_within(s: Seq<char>, i: int)
    requires
        0 <= i <= s.len(),
    ensures
        unit_offset(s, i) <= utf16_len(s),
{
    lemma_end_offset(s);
    if i < s.len() {
        lemma_offset_increasing(s, i, s.len() as int);
    }
}

/// Decodes the text between two offsets (in code units) that fall between characters.
fn decode_between(w: &Vec<u8>, Ghost(s): Ghost<Seq<char>>, a: usize, b: usize) -> (r: String)
    requires
        w@ == utf16be_bytes(s),
        a % 2 == 0,
        b % 2 == 0,
        a <= b,
        at_boundary(s, a as int / 2),
        at_boundary(s, b as int / 2),
    ensures
        r@ == text_between(s, a as int / 2, b as int / 2),
{
    let ghost i = char_pos(s, a as int / 2);
    let ghost j = char_pos(s, b as int / 2);
    proof {
        lemma_bytes_len(s);
        if i > j {
            lemma_offset_increasing(s, j, i);
        }
        lemma_offset_within(s, j);
        lemma_bytes_between(s, i, j);
    }
    let bytes = vstd::slice::slice_subrange(w.as_slice(), a, b);
    proof {
        assert(bytes@ == utf16be_bytes(s.subrange(i, j)));
    }
    utf16be_decode(bytes)
}

/// The element an entity makes holds the entity's text.
proof fn lemma_entity_element_text(kind: EntityKind, t: Seq<char>, out: RichTextElement)
    requires
        entity_element(kind, t, out),
    ensures
        elem_text(out) == t,
{
}

/// Cutting a text at offsets that fall between characters, the pieces follow each other.
proof fn lemma_between_split(s: Seq<char>, a: int, b: int, c: int)
    requires
        at_boundary(s, a),
        at_boundary(s, b),
        at_boundary(s, c),
        a <= b <= c,
    ensures
        text_between(s, a, c) == text_between(s, a, b) + text_between(s, b, c),
{
    let i = char_pos(s, a);
    let j = char_pos(s, b);
    let k = char_pos(s, c);
    if i > j {
        lemma_offset_increasing(s, j, i);
    }
    if j > k {
        lemma_offset_increasing(s, k, j);
    }
    assert(s.subrange(i, k) =~= s.subrange(i, j) + s.subrange(j, k));
}

/// The elements the pieces of a text make hold, one after the other, the text from the
/// current offset to the end.
proof fn lemma_pieces_cover(s: Seq<char>, es: Seq<MessageEntity>, i: int, curr: int, out: Seq<RichTextElement>)
    requires
        entities_fit(s, es, i, curr),
        at_boundary(s, curr),
        pieces_made(s, es, text_pieces(s, es, i, curr), out),
    ensures
        full_text(out) == text_between(s, curr, utf16_len(s) as int),
    decreases es.len() - i,
{
    let total = utf16_len(s) as int;
    lemma_end_offset(s);
    lemma_char_pos(s, s.len() as int);
    let c = char_pos(s, curr);
    lemma_offset_within(s, c);
    if i < 0 || i >= es.len() || curr >= total {
        if curr < total {
            assert(out =~= seq![out[0]]);
            lemma_full_text_single(out[0]);
            assert(piece_element(s, es, (-1, curr, total), out[0]));
        } else {
            assert(texts_of(out) =~= Seq::<Seq<char>>::empty());
            assert(text_between(s, curr, total) =~= Seq::<char>::empty());
        }
    } else if es[i].kind is CustomEmoji {
        lemma_pieces_cover(s, es, i + 1, curr, out);
    } else {
        let o = es[i].offset as int;
        let e = o + es[i].length as int;
        let rest = text_pieces(s, es, i + 1, e);
        let m: int = if o > curr { 2 } else { 1 };
        let step = text_pieces(s, es, i, curr).take(m);
        assert(text_pieces(s, es, i, curr) =~= step + rest);
        let tail = out.skip(m);
        assert forall|k: int| 0 <= k < rest.len() implies piece_element(s, es, rest[k], #[trigger] tail[k]) by {
            assert(text_pieces(s, es, i, curr)[k + m] == rest[k]);
            assert(piece_element(s, es, text_pieces(s, es, i, curr)[k + m], out[k + m]));
        }
        lemma_pieces_cover(s, es, i + 1, e, tail);
        let j = char_pos(s, e);
        lemma_offset_within(s, j);
        lemma_between_split(s, o, e, total);
        assert(piece_element(s, es, (i, o, e), out[m - 1]));
        lemma_entity_element_text(es[i].kind, text_between(s, o, e), out[m - 1]);
        if o > curr {
            assert(piece_element(s, es, (-1, curr, o), out[0]));
            assert(out =~= seq![out[0]] + seq![out[1]] + tail);
            lemma_full_text_append(seq![out[0]] + seq![out[1]], tail);
            lemma_full_text_append(seq![out[0]], seq![out[1]]);
            lemma_full_text_single(out[0]);
            lemma_full_text_single(out[1]);
            lemma_between_split(s, curr, o, total);
        } else {
            assert(out =~= seq![out[0]] + tail);
            lemma_full_text_append(seq![out[0]], tail);
            lemma_full_text_single(out[0]);
        }
    }
}

/// Whether `r` is the rich text that [`parse_text`] makes of a message and its entities.
pub open spec fn text_parsed(s: Seq<char>, es: Seq<MessageEntity>, r: Seq<RichTextElement>) -> bool {
    &&& s.len() == 0 ==> r.len() == 0
    &&& s.len() > 0 && es.len() == 0 ==> r.len() == 1 && plain_of(r[0], s)
    &&& s.len() > 0 && es.len() > 0 ==> exists|raw: Seq<RichTextElement>|
        pieces_made(s, es, text_pieces(s, es, 0, 0), raw)
            && exists|joined: Seq<RichTextElement>| plains_joined(raw, joined) && blank_trimmed(joined, r)
    &&& exists|w1: Seq<char>, w2: Seq<char>|
        all_white_chars(w1) && all_white_chars(w2) && s == w1 + full_text(r) + w2
}

/// Rich text of a message from its text and its formatting entities (offsets and lengths in
/// UTF-16 code units). A text without entities is one plain element as it is; otherwise the
/// text is cut into the pieces before, inside and after the entities, each made into its
/// element, and the result is normalized.
pub fn parse_text(message: &str, entities: &[MessageEntity]) -> (r: Vec<RichTextElement>)
    requires
        message@.len() > 0 && entities@.len() > 0 ==> entities_fit(message@, entities@, 0, 0),
    ensures
        message@.len() == 0 ==> r@.len() == 0,
        message@.len() > 0 && entities@.len() == 0 ==> r@.len() == 1 && plain_of(r@[0], message@),
        message@.len() > 0 && entities@.len() > 0 ==> exists|raw: Seq<RichTextElement>|
            pieces_made(message@, entities@, text_pieces(message@, entities@, 0, 0), raw)
                && exists|joined: Seq<RichTextElement>| plains_joined(raw, joined) && blank_trimmed(joined, r@),
        exists|w1: Seq<char>, w2: Seq<char>|
            all_white_chars(w1) && all_white_chars(w2) && message@ == w1 + full_text(r@) + w2,
        text_parsed(message@, entities@, r@),
{
    if message.is_empty() {
        let r: Vec<RichTextElement> = Vec::new();
        proof {
            let e = Seq::<char>::empty();
            assert(texts_of(r@) =~= Seq::<Seq<char>>::empty());
            assert(message@ =~= e + full_text(r@) + e);
            assert(all_white_chars(e));
        }
        return r;
    }
    if entities.len() == 0 {
        let r = vec![RichText::make_plain(message.to_owned())];
        proof {
            let e = Seq::<char>::empty();
            assert(r@ =~= seq![r@[0]]);
            lemma_full_text_single(r@[0]);
            assert(message@ =~= e + full_text(r@) + e);
            assert(all_white_chars(e));
        }
        return r;
    }
    let ghost s = message@;
    let ghost es = entities@;
    let w = utf16be_encode(message);
    proof {
        lemma_bytes_len(s);
        lemma_end_offset(s);
        lemma_char_pos(s, 0);
        assert(s.take(0) =~= Seq::<char>::empty());
    }
    let n = entities.len();
    let mut result: Vec<RichTextElement> = Vec::new();
    let mut curr: usize = 0;
    let mut i: usize = 0;
    let ghost mut done: Seq<(int, int, int)> = Seq::empty();
    while curr < w.len() && i < n
        invariant
            s == message@,
            es == entities@,
            n == es.len(),
            w@ == utf16be_bytes(s),
            w@.len() == 2 * utf16_len(s),
            curr % 2 == 0,
            curr <= w@.len(),
            i <= n,
            at_boundary(s, curr as int / 2),
            entities_fit(s, es, i as int, curr as int / 2),
            text_pieces(s, es, 0, 0) == done + text_pieces(s, es, i as int, curr as int / 2),
            pieces_made(s, es, done, result@),
            forall|k: int| 0 <= k < result@.len() ==> (#[trigger] result@[k]).val is Some,
        decreases n - i,
    {
        let e = &entities[i];
        let ghost cu = curr as int / 2;
        if let EntityKind::CustomEmoji = e.kind {
            i = i + 1;
        } else {
            let ghost o = e.offset as int;
            let ghost end = o + e.length as int;
            proof {
                let j = char_pos(s, end);
                lemma_offset_within(s, j);
            }
            let eo = (e.offset as usize) * 2;
            let el = (e.length as usize) * 2;
            let ee = eo + el;
            let ghost step: Seq<(int, int, int)> = if o > cu {
                seq![(-1, cu, o), (i as int, o, end)]
            } else {
                seq![(i as int, o, end)]
            };
            proof {
                assert(text_pieces(s, es, i as int, cu) == step + text_pieces(s, es, i + 1, end));
            }
            if eo > curr {
                let plain = decode_between(&w, Ghost(s), curr, eo);
                result.push(RichText::make_plain(plain));
            }
            let text = decode_between(&w, Ghost(s), eo, ee);
            let ghost before = result@;
            result.push(entity_rte(&e.kind, text));
            proof {
                assert forall|k: int| 0 <= k < step.len() implies piece_element(s, es, step[k], #[trigger] result@[done.len() + k]) by {}
                assert(text_pieces(s, es, 0, 0) == (done + step) + text_pieces(s, es, i + 1, end));
                done = done + step;
                assert forall|k: int| 0 <= k < done.len() implies piece_element(s, es, done[k], #[trigger] result@[k]) by {
                    if k >= done.len() - step.len() {
                        assert(done[k] == step[k - (done.len() - step.len())]);
                    }
                }
            }
            curr = ee;
            i = i + 1;
        }
    }
    let ghost cu = curr as int / 2;
    let ghost total = utf16_len(s) as int;
    let ghost tail: Seq<(int, int, int)> = if cu < total { seq![(-1, cu, total)] } else { Seq::empty() };
    proof {
        assert(text_pieces(s, es, i as int, cu) == tail);
        lemma_end_offset(s);
        lemma_char_pos(s, s.len() as int);
        let i0 = char_pos(s, cu);
        lemma_char_pos(s, i0);
        if i0 == s.len() {
            assert(cu == total);
        }
    }
    let rest = decode_between(&w, Ghost(s), curr, w.len());
    if !rest.as_str().is_empty() {
        result.push(RichText::make_plain(rest));
    }
    proof {
        assert(text_pieces(s, es, 0, 0) == done + tail);
        assert forall|k: int| 0 <= k < (done + tail).len() implies piece_element(s, es, (done + tail)[k], #[trigger] result@[k]) by {
            if k >= done.len() {
                assert((done + tail)[k] == tail[k - done.len()]);
            } else {
                assert((done + tail)[k] == done[k]);
            }
        }
        assert(pieces_made(s, es, text_pieces(s, es, 0, 0), result@));
    }
    let ghost raw = result@;
    proof {
        lemma_char_pos(s, 0);
        lemma_pieces_cover(s, es, 0, 0, raw);
        assert(text_between(s, 0, utf16_len(s) as int) =~= s);
    }
    let r = normalize_rich_text(result);
    assert(pieces_made(s, es, text_pieces(s, es, 0, 0), raw));
    r
}

//
// Peers, authors and photo sizes
//

/// A peer a message refers to.
#[derive(Clone, Copy, Debug, PartialEq, Eq, Structural)]
pub enum Peer {
    User { user_id: i64 },
    Chat { chat_id: i64 },
    Channel { channel_id: i64 },
}

impl Peer {
    /// The raw ID of the user, chat or channel.
    pub fn raw_id(&self) -> (r: RawPeerId)
        ensures
            r.0 == match *self {
                Peer::User { user_id } => user_id,
                Peer::Chat { chat_id } => chat_id,
                Peer::Channel { channel_id } => channel_id,
            },
    {
        match self {
            Peer::User { user_id } => RawPeerId(*user_id),
            Peer::Chat { chat_id } => RawPeerId(*chat_id),
            Peer::Channel { channel_id } => RawPeerId(*channel_id),
        }
    }
}

/// What a raw message tells of where it belongs and who sent it.
#[derive(Clone, Copy, Debug, PartialEq, Eq, Structural)]
#[allow(inconsistent_fields)]
pub enum RawMessageHeader {
    Message { from_id: Option<Peer>, peer_id: Peer, out: bool },
    Service { from_id: Option<Peer>, peer_id: Peer, out: bool },
    Empty { peer_id: Option<Peer> },
}

/// Raw ID of a peer.
pub open spec fn peer_raw_id(p: Peer) -> i64 {
    match p {
        Peer::User { user_id } => user_id,
        Peer::Chat { chat_id } => chat_id,
        Peer::Channel { channel_id } => channel_id,
    }
}

/// The author of a message: the peer it is from, if known; otherwise myself for an outgoing
/// message, and the peer of its chat for an incoming one. An empty message counts as an
/// incoming one from its peer, or from myself if it has none.
pub open spec fn message_author(h: RawMessageHeader, myself: i64) -> i64 {
    let (from_id, peer_id, out) = match h {
        RawMessageHeader::Message { from_id, peer_id, out } => (from_id, peer_raw_id(peer_id), out),
        RawMessageHeader::Service { from_id, peer_id, out } => (from_id, peer_raw_id(peer_id), out),
        RawMessageHeader::Empty { peer_id } => (None, match peer_id {
            Some(p) => peer_raw_id(p),
            None => myself,
        }, false),
    };
    match from_id {
        Some(f) => peer_raw_id(f),
        None => if out { myself } else { peer_id },
    }
}

impl RawMessageHeader {
    /// Raw ID of the author of the message, see [`message_author`].
    pub fn author_raw_id(&self, myself_raw_id: RawPeerId) -> (r: RawPeerId)
        ensures
            r.0 == message_author(*self, myself_raw_id.0),
    {
        let (from_id, peer_id, out) = match self {
            RawMessageHeader::Message { from_id, peer_id, out } => (
                match from_id {
                    Some(peer) => Some(peer.raw_id()),
                    None => None,
                },
                peer_id.raw_id(),
                *out,
            ),
            RawMessageHeader::Service { from_id, peer_id, out } => (
                match from_id {
                    Some(peer) => Some(peer.raw_id()),
                    None => None,
                },
                peer_id.raw_id(),
                *out,
            ),
            RawMessageHeader::Empty { peer_id } => (
                None,
                match peer_id {
                    Some(peer) => peer.raw_id(),
                    None => myself_raw_id,
                },
                false,
            ),
        };
        match from_id {
            Some(f) => f,
            None => if out { myself_raw_id } else { peer_id },
        }
    }
}

/// One of the sizes a photo is stored in.
#[derive(Clone, Copy, Debug, PartialEq, Eq, Structural)]
pub enum PhotoSize {
    Empty,
    Size { w: i32, h: i32 },
    PhotoCachedSize { w: i32, h: i32 },
    PhotoStrippedSize,
    Progressive { w: i32, h: i32 },
    PhotoPathSize,
}

/// Width and height of a photo size, for the kinds that have them.
pub open spec fn size_resolution(s: PhotoSize) -> Option<(i32, i32)> {
    match s {
        PhotoSize::Size { w, h } => Some((w, h)),
        PhotoSize::PhotoCachedSize { w, h } => Some((w, h)),
        PhotoSize::Progressive { w, h } => Some((w, h)),
        _ => None,
    }
}

/// The widest of the resolutions of the sizes (the last one among equally wide ones).
pub open spec fn widest_resolution(s: Seq<PhotoSize>) -> Option<(i32, i32)>
    decreases s.len(),
{
    if s.len() == 0 {
        None
    } else {
        let prev = widest_resolution(s.drop_last());
        match size_resolution(s.last()) {
            None => prev,
            Some(r) => match prev {
                Some(p) => if r.0 >= p.0 { Some(r) } else { Some(p) },
                None => Some(r),
            },
        }
    }
}

impl PhotoSize {
    /// Width and height of this size, for the kinds that have them.
    pub fn resolution(&self) -> (r: Option<(i32, i32)>)
        ensures
            r == size_resolution(*self),
    {
        match self {
            PhotoSize::Size { w, h } => Some((*w, *h)),
            PhotoSize::PhotoCachedSize { w, h } => Some((*w, *h)),
            PhotoSize::Progressive { w, h } => Some((*w, *h)),
            _ => None,
        }
    }
}

/// Resolution of a photo stored in the given sizes: the widest of them.
pub fn photo_resolution(sizes: &[PhotoSize]) -> (r: Option<(i32, i32)>)
    ensures
        r == widest_resolution(sizes@),
{
    let mut best: Option<(i32, i32)> = None;
    let mut i: usize = 0;
    while i < sizes.len()
        invariant
            i <= sizes@.len(),
            best == widest_resolution(sizes@.take(i as int)),
        decreases sizes@.len() - i,
    {
        proof {
            assert(sizes@.take(i + 1).drop_last() =~= sizes@.take(i as int));
        }
        match sizes[i].resolution() {
            None => {},
            Some(r) => {
                best = match best {
                    Some(p) => if r.0 >= p.0 { Some(r) } else { Some(p) },
                    None => Some(r),
                };
            },
        }
        i = i + 1;
    }
    proof {
        assert(sizes@.take(sizes@.len() as int) =~= sizes@);
    }
    best
}

/// A photo, as far as its sizes go.
#[derive(Debug)]
pub enum TgPhoto {
    Empty,
    Photo { sizes: Vec<PhotoSize> },
}

/// Resolution of a photo: none for an empty one, otherwise the widest of its sizes.
pub open spec fn tg_photo_resolution(p: TgPhoto) -> Option<(i32, i32)> {
    match p {
        TgPhoto::Empty => None,
        TgPhoto::Photo { sizes } => widest_resolution(sizes@),
    }
}

impl TgPhoto {
    /// Resolution of the photo, see [`tg_photo_resolution`].
    pub fn resolution(&self) -> (r: Option<(i32, i32)>)
        ensures
            r == tg_photo_resolution(*self),
    {
        match self {
            TgPhoto::Empty => None,
            TgPhoto::Photo { sizes } => photo_resolution(sizes.as_slice()),
        }
    }
}

} // verus!
