//! Helpers on messages and their contents: files and searchable strings.
use vstd::prelude::*;
use crate::ids::{UserId, MessageInternalId, Timestamp, MasterInternalId, SlaveInternalId};
use crate::model::{Message, MessageTyped, MessageRegular, MessageService, MessageServiceValue, Content,
    ContentValue, ContentPhoto, RichTextElement};
use crate::files::{DatasetRoot, is_absolute_path, join_path};
use crate::whitespace::{str_trim, trimmed};

verus! {

/// The string, if present, as a sequence of zero or one strings.
pub open spec fn opt_seq(o: Option<String>) -> Seq<Seq<char>> {
    match o {
        Some(s) => seq![s@],
        None => Seq::empty(),
    }
}

/// Relative paths of the files a content refers to.
pub open spec fn content_files(c: ContentValue) -> Seq<Seq<char>> {
    match c {
        ContentValue::Sticker { path_option, thumbnail_path_option, .. } => opt_seq(path_option) + opt_seq(thumbnail_path_option),
        ContentValue::Photo(p) => opt_seq(p.path_option),
        ContentValue::VoiceMsg { path_option, .. } => opt_seq(path_option),
        ContentValue::Audio { path_option, .. } => opt_seq(path_option),
        ContentValue::VideoMsg { path_option, thumbnail_path_option, .. } => opt_seq(path_option) + opt_seq(thumbnail_path_option),
        ContentValue::Video { path_option, thumbnail_path_option, .. } => opt_seq(path_option) + opt_seq(thumbnail_path_option),
        ContentValue::File { path_option, thumbnail_path_option, .. } => opt_seq(path_option) + opt_seq(thumbnail_path_option),
        ContentValue::Location { .. } => Seq::empty(),
        ContentValue::Poll { .. } => Seq::empty(),
        ContentValue::SharedContact { vcard_path_option, .. } => opt_seq(vcard_path_option),
        ContentValue::TodoList { .. } => Seq::empty(),
    }
}

/// Whether every content has its payload.
pub open spec fn contents_present(cs: Seq<Content>) -> bool {
    forall|i: int| 0 <= i < cs.len() ==> (#[trigger] cs[i]).sealed_value_optional is Some
}

/// Relative paths of the files a list of contents refers to, in order.
pub open spec fn contents_files(cs: Seq<Content>) -> Seq<Seq<char>>
    decreases cs.len(),
{
    if cs.len() == 0 {
        Seq::empty()
    } else {
        contents_files(cs.drop_last()) + content_files(cs.last().sealed_value_optional.unwrap())
    }
}

/// Relative paths of the files a message refers to.
pub open spec fn message_files(t: MessageTyped) -> Seq<Seq<char>> {
    match t {
        MessageTyped::Regular(mr) => contents_files(mr.contents@),
        MessageTyped::Service(ms) => match ms.sealed_value_optional {
            Some(MessageServiceValue::SuggestProfilePhoto { photo }) => opt_seq(photo.path_option),
            Some(MessageServiceValue::GroupEditPhoto { photo }) => opt_seq(photo.path_option),
            _ => Seq::empty(),
        },
    }
}

/// Whether a message has its kind-specific part, with every payload present.
pub open spec fn typed_well_formed(t: MessageTyped) -> bool {
    match t {
        MessageTyped::Regular(mr) => contents_present(mr.contents@),
        MessageTyped::Service(ms) => ms.sealed_value_optional is Some,
    }
}

pub open spec fn message_well_formed(m: Message) -> bool {
    m.typed matches Some(t) && typed_well_formed(t)
}

fn push_opt(v: &mut Vec<String>, o: &Option<String>)
    ensures
        final(v)@.map_values(|s: String| s@) == old(v)@.map_values(|s: String| s@) + opt_seq(*o),
{
    let ghost before = v@.map_values(|s: String| s@);
    if let Some(s) = o {
        v.push(s.clone());
    }
    proof {
        assert(v@.map_values(|s: String| s@) =~= before + opt_seq(*o));
    }
}

fn push_content_files(v: &mut Vec<String>, c: &ContentValue)
    ensures
        final(v)@.map_values(|s: String| s@) == old(v)@.map_values(|s: String| s@) + content_files(*c),
{
    let ghost before = v@.map_values(|s: String| s@);
    match c {
        ContentValue::Sticker { path_option, thumbnail_path_option, .. } => {
            push_opt(v, path_option);
            push_opt(v, thumbnail_path_option);
        },
        ContentValue::Photo(p) => push_opt(v, &p.path_option),
        ContentValue::VoiceMsg { path_option, .. } => push_opt(v, path_option),
        ContentValue::Audio { path_option, .. } => push_opt(v, path_option),
        ContentValue::VideoMsg { path_option, thumbnail_path_option, .. } => {
            push_opt(v, path_option);
            push_opt(v, thumbnail_path_option);
        },
        ContentValue::Video { path_option, thumbnail_path_option, .. } => {
            push_opt(v, path_option);
            push_opt(v, thumbnail_path_option);
        },
        ContentValue::File { path_option, thumbnail_path_option, .. } => {
            push_opt(v, path_option);
            push_opt(v, thumbnail_path_option);
        },
        ContentValue::Location { .. } => {},
        ContentValue::Poll { .. } => {},
        ContentValue::SharedContact { vcard_path_option, .. } => push_opt(v, vcard_path_option),
        ContentValue::TodoList { .. } => {},
    }
    proof {
        assert(v@.map_values(|s: String| s@) =~= before + content_files(*c));
    }
}

impl Message {
    pub fn internal_id(&self) -> (r: MessageInternalId)
        ensures
            r.0 == self.internal_id,
    {
        MessageInternalId(self.internal_id)
    }

    pub fn timestamp(&self) -> (r: Timestamp)
        ensures
            r.0 == self.timestamp,
    {
        Timestamp(self.timestamp)
    }

    pub fn typed(&self) -> (r: &MessageTyped)
        requires
            self.typed is Some,
        ensures
            *r == self.typed.unwrap(),
    {
        self.typed.as_ref().unwrap()
    }

    pub fn typed_mut(&mut self) -> (r: &mut MessageTyped)
        requires
            old(self).typed is Some,
        ensures
            *r == old(self).typed.unwrap(),
            *final(self) == (Message { typed: Some(*final(r)), ..*old(self) }),
    {
        self.typed.as_mut().unwrap()
    }

    /// Relative paths of the files this message refers to (they might not exist).
    pub fn files_relative(&self) -> (r: Vec<String>)
        requires
            message_well_formed(*self),
        ensures
            r@.map_values(|s: String| s@) == message_files(self.typed.unwrap()),
    {
        let mut r: Vec<String> = Vec::new();
        match self.typed() {
            MessageTyped::Regular(mr) => {
                let mut i: usize = 0;
                while i < mr.contents.len()
                    invariant
                        0 <= i <= mr.contents@.len(),
                        contents_present(mr.contents@),
                        r@.map_values(|s: String| s@) == contents_files(mr.contents@.take(i as int)),
                    decreases mr.contents@.len() - i,
                {
                    proof {
                        assert(mr.contents@.take(i as int + 1).drop_last() =~= mr.contents@.take(i as int));
                        assert(mr.contents@[i as int].sealed_value_optional is Some);
                    }
                    push_content_files(&mut r, mr.contents[i].sealed_value_optional.as_ref().unwrap());
                    i = i + 1;
                }
                assert(mr.contents@.take(i as int) =~= mr.contents@);
            },
            MessageTyped::Service(ms) => match &ms.sealed_value_optional {
                Some(MessageServiceValue::SuggestProfilePhoto { photo }) => push_opt(&mut r, &photo.path_option),
                Some(MessageServiceValue::GroupEditPhoto { photo }) => push_opt(&mut r, &photo.path_option),
                _ => {},
            },
        }
        assert(r@.map_values(|s: String| s@) =~= message_files(self.typed.unwrap()));
        r
    }

    /// Absolute paths of the files this message refers to. Does not check files existence.
    pub fn files(&self, ds_root: &DatasetRoot) -> (r: Vec<String>)
        requires
            message_well_formed(*self),
            forall|i: int|
                0 <= i < message_files(self.typed.unwrap()).len() ==> !is_absolute_path(
                    #[trigger] message_files(self.typed.unwrap())[i],
                ),
        ensures
            r@.len() == message_files(self.typed.unwrap()).len(),
            forall|i: int|
                0 <= i < r@.len() ==> (#[trigger] r@[i])@ == join_path(
                    ds_root.0@,
                    message_files(self.typed.unwrap())[i],
                ),
    {
        let rel = self.files_relative();
        let ghost rel_view = rel@.map_values(|s: String| s@);
        let mut r: Vec<String> = Vec::new();
        let mut i: usize = 0;
        while i < rel.len()
            invariant
                0 <= i <= rel@.len(),
                rel_view == rel@.map_values(|s: String| s@),
                rel_view == message_files(self.typed.unwrap()),
                forall|k: int| 0 <= k < rel_view.len() ==> !is_absolute_path(#[trigger] rel_view[k]),
                r@.len() == i,
                forall|k: int| 0 <= k < i ==> (#[trigger] r@[k])@ == join_path(ds_root.0@, rel_view[k]),
            decreases rel@.len() - i,
        {
            proof {
                assert(rel_view[i as int] == rel@[i as int]@);
            }
            r.push(ds_root.to_absolute(rel[i].as_str()));
            i = i + 1;
        }
        r
    }
}

/// Absolute path of the file of a content, if it has one (thumbnails are not counted).
pub open spec fn content_path_file(c: Content, root: Seq<char>) -> Option<Seq<char>> {
    let p = match c.sealed_value_optional {
        Some(ContentValue::Sticker { path_option, .. }) => path_option,
        Some(ContentValue::Photo(ph)) => ph.path_option,
        Some(ContentValue::VoiceMsg { path_option, .. }) => path_option,
        Some(ContentValue::Audio { path_option, .. }) => path_option,
        Some(ContentValue::VideoMsg { path_option, .. }) => path_option,
        Some(ContentValue::Video { path_option, .. }) => path_option,
        Some(ContentValue::File { path_option, .. }) => path_option,
        _ => None,
    };
    match p {
        Some(s) => Some(join_path(root, s@)),
        None => None,
    }
}

/// Relative path of the file of a content, if it has one (thumbnails are not counted).
pub open spec fn content_rel_path(c: Content) -> Option<Seq<char>> {
    match c.sealed_value_optional {
        Some(ContentValue::Sticker { path_option, .. }) => opt_chars_of(path_option),
        Some(ContentValue::Photo(ph)) => opt_chars_of(ph.path_option),
        Some(ContentValue::VoiceMsg { path_option, .. }) => opt_chars_of(path_option),
        Some(ContentValue::Audio { path_option, .. }) => opt_chars_of(path_option),
        Some(ContentValue::VideoMsg { path_option, .. }) => opt_chars_of(path_option),
        Some(ContentValue::Video { path_option, .. }) => opt_chars_of(path_option),
        Some(ContentValue::File { path_option, .. }) => opt_chars_of(path_option),
        _ => None,
    }
}

pub open spec fn opt_chars_of(o: Option<String>) -> Option<Seq<char>> {
    match o {
        Some(s) => Some(s@),
        None => None,
    }
}

/// File name of a content, for the kinds that have one.
pub open spec fn content_file_name(c: Content) -> Option<Seq<char>> {
    match c.sealed_value_optional {
        Some(ContentValue::Sticker { file_name_option, .. }) => opt_chars_of(file_name_option),
        Some(ContentValue::VoiceMsg { file_name_option, .. }) => opt_chars_of(file_name_option),
        Some(ContentValue::Audio { file_name_option, .. }) => opt_chars_of(file_name_option),
        Some(ContentValue::VideoMsg { file_name_option, .. }) => opt_chars_of(file_name_option),
        Some(ContentValue::Video { file_name_option, .. }) => opt_chars_of(file_name_option),
        Some(ContentValue::File { file_name_option, .. }) => opt_chars_of(file_name_option),
        _ => None,
    }
}

impl Content {
    pub(crate) fn rel_path(&self) -> (r: Option<&String>)
        ensures
            match r {
                Some(s) => content_rel_path(*self) == Some(s@),
                None => content_rel_path(*self) is None,
            },
    {
        match &self.sealed_value_optional {
            Some(ContentValue::Sticker { path_option, .. }) => path_option.as_ref(),
            Some(ContentValue::Photo(ph)) => ph.path_option.as_ref(),
            Some(ContentValue::VoiceMsg { path_option, .. }) => path_option.as_ref(),
            Some(ContentValue::Audio { path_option, .. }) => path_option.as_ref(),
            Some(ContentValue::VideoMsg { path_option, .. }) => path_option.as_ref(),
            Some(ContentValue::Video { path_option, .. }) => path_option.as_ref(),
            Some(ContentValue::File { path_option, .. }) => path_option.as_ref(),
            _ => None,
        }
    }

    /// Absolute path of the content's file, if it has one.
    pub fn path_file_option(&self, ds_root: &DatasetRoot) -> (r: Option<String>)
        requires
            content_rel_path(*self) matches Some(p) ==> !is_absolute_path(p),
        ensures
            match content_rel_path(*self) {
                Some(p) => r matches Some(a) && a@ == join_path(ds_root.0@, p),
                None => r is None,
            },
    {
        match self.rel_path() {
            Some(p) => Some(ds_root.to_absolute(p.as_str())),
            None => None,
        }
    }

    /// File name of the content, for the kinds that have one.
    pub fn file_name(&self) -> (r: Option<&String>)
        ensures
            match r {
                Some(s) => content_file_name(*self) == Some(s@),
                None => content_file_name(*self) is None,
            },
    {
        match &self.sealed_value_optional {
            Some(ContentValue::Sticker { file_name_option, .. }) => file_name_option.as_ref(),
            Some(ContentValue::VoiceMsg { file_name_option, .. }) => file_name_option.as_ref(),
            Some(ContentValue::Audio { file_name_option, .. }) => file_name_option.as_ref(),
            Some(ContentValue::VideoMsg { file_name_option, .. }) => file_name_option.as_ref(),
            Some(ContentValue::Video { file_name_option, .. }) => file_name_option.as_ref(),
            Some(ContentValue::File { file_name_option, .. }) => file_name_option.as_ref(),
            _ => None,
        }
    }
}

} // verus!
