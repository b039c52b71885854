//! The top level of a Telegram export (`result.json`): which sections are read, the personal
//! information that describes myself, and the contact and chat entries to be read further.
use vstd::prelude::*;
use crate::model::User;
use crate::text::str_eq;
use crate::loaders::{normalize_phone_number, normalized_phone};

verus! {

/// A JSON value. Object members keep their order.
#[derive(Debug)]
pub enum JsonValue {
    Null,
    Bool(bool),
    Int(i64),
    Str(String),
    Arr(Vec<JsonValue>),
    Obj(Vec<(String, JsonValue)>),
}

/// Why an export could not be read.
#[derive(Clone, Copy, Debug, PartialEq, Eq, Structural)]
pub enum TelegramError {
    /// A value that must be an object is not.
    NotAnObject,
    /// A value that must be a list is not.
    NotAnArray,
    /// A field holds a value of the wrong kind.
    WrongType,
    /// An object holds a key that is not expected there.
    UnexpectedKey,
    /// The chats come before any personal information.
    PersonalInfoMissing,
    /// The personal information has no user ID.
    UserIdMissing,
    /// The chats section has no list.
    ChatsListMissing,
    /// A chat has neither a name nor an ID.
    ChatIdMissing,
}

/// What is known of myself: ID, names, username and phone number.
pub struct MyselfView {
    pub id: i64,
    pub first_name: Option<Seq<char>>,
    pub last_name: Option<Seq<char>>,
    pub username: Option<Seq<char>>,
    pub phone_number: Option<Seq<char>>,
}

pub open spec fn opt_view(o: Option<String>) -> Option<Seq<char>> {
    match o {
        Some(s) => Some(s@),
        None => None,
    }
}

pub open spec fn myself_view(u: User) -> MyselfView {
    MyselfView {
        id: u.id,
        first_name: opt_view(u.first_name_option),
        last_name: opt_view(u.last_name_option),
        username: opt_view(u.username_option),
        phone_number: opt_view(u.phone_number_option),
    }
}

/// State of the walk: myself so far, the contact entries and the chat entries found so far.
pub struct Outline {
    pub me: MyselfView,
    pub contacts: Seq<JsonValue>,
    pub chats: Seq<JsonValue>,
}

/// Root sections that are not read.
pub open spec fn ignored_section(k: Seq<char>) -> bool {
    k == "about"@ || k == "profile_pictures"@ || k == "frequent_contacts"@ || k == "other_data"@
        || k == "stories"@ || k == "profile_music"@ || k == "sessions"@ || k == "web_sessions"@
        || k == "left_chats"@
}

/// One field of the personal information applied to myself: the user ID, names and username
/// are taken as they are, the phone number normalized; the about and bio texts are skipped.
pub open spec fn personal_field(k: Seq<char>, v: JsonValue, me: MyselfView) -> Result<MyselfView, TelegramError> {
    if k == "about"@ || k == "bio"@ {
        Ok(me)
    } else if k == "user_id"@ {
        match v {
            JsonValue::Int(i) => Ok(MyselfView { id: i, ..me }),
            _ => Err(TelegramError::WrongType),
        }
    } else if k == "first_name"@ || k == "last_name"@ || k == "username"@ || k == "phone_number"@ {
        match v {
            JsonValue::Str(s) => Ok(
                if k == "first_name"@ {
                    MyselfView { first_name: Some(s@), ..me }
                } else if k == "last_name"@ {
                    MyselfView { last_name: Some(s@), ..me }
                } else if k == "username"@ {
                    MyselfView { username: Some(s@), ..me }
                } else {
                    MyselfView { phone_number: Some(normalized_phone(s@)), ..me }
                },
            ),
            _ => Err(TelegramError::WrongType),
        }
    } else {
        Err(TelegramError::UnexpectedKey)
    }
}

/// The personal information fields applied to myself in order.
pub open spec fn personal_fields(fs: Seq<(String, JsonValue)>, me: MyselfView) -> Result<MyselfView, TelegramError>
    decreases fs.len(),
{
    if fs.len() == 0 {
        Ok(me)
    } else {
        match personal_fields(fs.drop_last(), me) {
            Err(e) => Err(e),
            Ok(m) => personal_field(fs.last().0@, fs.last().1, m),
        }
    }
}

/// The contacts section: its list's entries are collected, its about text skipped.
pub open spec fn contact_fields(fs: Seq<(String, JsonValue)>, found: Seq<JsonValue>) -> Result<Seq<JsonValue>, TelegramError>
    decreases fs.len(),
{
    if fs.len() == 0 {
        Ok(found)
    } else {
        match contact_fields(fs.drop_last(), found) {
            Err(e) => Err(e),
            Ok(f) => {
                let k = fs.last().0@;
                if k == "about"@ {
                    Ok(f)
                } else if k == "list"@ {
                    match fs.last().1 {
                        JsonValue::Arr(items) => Ok(f + items@),
                        _ => Err(TelegramError::NotAnArray),
                    }
                } else {
                    Err(TelegramError::UnexpectedKey)
                }
            },
        }
    }
}

/// The value of the first member with the given key.
pub open spec fn member(fs: Seq<(String, JsonValue)>, k: Seq<char>) -> Option<JsonValue>
    decreases fs.len(),
{
    if fs.len() == 0 {
        None
    } else if fs[0].0@ == k {
        Some(fs[0].1)
    } else {
        member(fs.drop_first(), k)
    }
}

/// Whether a chat entry can be told: an object with a name or an ID.
pub open spec fn chat_entry_ok(c: JsonValue) -> Result<(), TelegramError> {
    match c {
        JsonValue::Obj(fs) => if member(fs@, "name"@) is Some || member(fs@, "id"@) is Some {
            Ok(())
        } else {
            Err(TelegramError::ChatIdMissing)
        },
        _ => Err(TelegramError::NotAnObject),
    }
}

/// The first of a list of chat entries that cannot be told, if any.
pub open spec fn chat_entries_error(cs: Seq<JsonValue>) -> Option<TelegramError>
    decreases cs.len(),
{
    if cs.len() == 0 {
        None
    } else {
        match chat_entries_error(cs.drop_last()) {
            Some(e) => Some(e),
            None => match chat_entry_ok(cs.last()) {
                Err(e) => Some(e),
                Ok(_) => None,
            },
        }
    }
}

/// One root section applied to the outline.
pub open spec fn section(k: Seq<char>, v: JsonValue, o: Outline) -> Result<Outline, TelegramError> {
    if ignored_section(k) {
        Ok(o)
    } else if k == "contacts"@ {
        match v {
            JsonValue::Obj(fs) => match contact_fields(fs@, o.contacts) {
                Ok(c) => Ok(Outline { contacts: c, ..o }),
                Err(e) => Err(e),
            },
            _ => Err(TelegramError::NotAnObject),
        }
    } else if k == "personal_information"@ {
        match v {
            JsonValue::Obj(fs) => match personal_fields(fs@, o.me) {
                Ok(m) => if m.id == 0 {
                    Err(TelegramError::UserIdMissing)
                } else {
                    Ok(Outline { me: m, ..o })
                },
                Err(e) => Err(e),
            },
            _ => Err(TelegramError::NotAnObject),
        }
    } else if k == "chats"@ {
        if o.me.id == 0 {
            Err(TelegramError::PersonalInfoMissing)
        } else {
            match v {
                JsonValue::Obj(fs) => match member(fs@, "list"@) {
                    None => Err(TelegramError::ChatsListMissing),
                    Some(JsonValue::Arr(cs)) => match chat_entries_error(cs@) {
                        Some(e) => Err(e),
                        None => Ok(Outline { chats: o.chats + cs@, ..o }),
                    },
                    Some(_) => Err(TelegramError::NotAnArray),
                },
                _ => Err(TelegramError::NotAnObject),
            }
        }
    } else {
        Err(TelegramError::UnexpectedKey)
    }
}

/// The root sections applied to the outline in order.
pub open spec fn sections(fs: Seq<(String, JsonValue)>, o: Outline) -> Result<Outline, TelegramError>
    decreases fs.len(),
{
    if fs.len() == 0 {
        Ok(o)
    } else {
        match sections(fs.drop_last(), o) {
            Err(e) => Err(e),
            Ok(p) => section(fs.last().0@, fs.last().1, p),
        }
    }
}

/// What the walk of an export gives: the root must be an object, whose sections are applied
/// in order to myself and to empty lists of contacts and chats.
pub open spec fn export_outline(root: JsonValue, me: MyselfView) -> Result<Outline, TelegramError> {
    match root {
        JsonValue::Obj(fs) => sections(fs@, Outline { me, contacts: Seq::empty(), chats: Seq::empty() }),
        _ => Err(TelegramError::NotAnObject),
    }
}

/// The contact and chat entries of an export, to be read further.
#[derive(Debug)]
pub struct ExportEntries<'a> {
    pub contacts: Vec<&'a JsonValue>,
    pub chats: Vec<&'a JsonValue>,
}

pub open spec fn refs_view(v: Seq<&JsonValue>) -> Seq<JsonValue> {
    v.map_values(|x: &JsonValue| *x)
}

/// Whether only the fields the personal information sets have changed.
pub open spec fn same_but_personal(u0: User, u1: User) -> bool {
    u1.ds_uuid == u0.ds_uuid && u1.profile_pictures == u0.profile_pictures
}

fn apply_personal(fs: &Vec<(String, JsonValue)>, myself: &mut User) -> (r: Result<(), TelegramError>)
    ensures
        same_but_personal(*old(myself), *final(myself)),
        match personal_fields(fs@, myself_view(*old(myself))) {
            Ok(m) => r is Ok && myself_view(*final(myself)) == m,
            Err(e) => r == Err::<(), TelegramError>(e),
        },
{
    let ghost u0 = *myself;
    let n = fs.len();
    let mut i: usize = 0;
    assert(fs@.take(0) =~= Seq::<(String, JsonValue)>::empty());
    while i < n
        invariant
            n == fs@.len(),
            i <= n,
            u0 == *old(myself),
            same_but_personal(u0, *myself),
            personal_fields(fs@.take(i as int), myself_view(u0)) == Ok::<MyselfView, TelegramError>(myself_view(*myself)),
        decreases n - i,
    {
        assert(fs@.take(i + 1).drop_last() =~= fs@.take(i as int));
        let k = fs[i].0.as_str();
        let v = &fs[i].1;
        if str_eq(k, "about") || str_eq(k, "bio") {
        } else if str_eq(k, "user_id") {
            match v {
                JsonValue::Int(id) => {
                    myself.id = *id;
                },
                _ => {
                    proof {
                        lemma_personal_error_extends(fs@, i + 1, myself_view(u0));
                    }
                    return Err(TelegramError::WrongType);
                },
            }
        } else if str_eq(k, "first_name") || str_eq(k, "last_name") || str_eq(k, "username") || str_eq(k, "phone_number") {
            match v {
                JsonValue::Str(t) => {
                    if str_eq(k, "first_name") {
                        myself.first_name_option = Some(t.clone());
                    } else if str_eq(k, "last_name") {
                        myself.last_name_option = Some(t.clone());
                    } else if str_eq(k, "username") {
                        myself.username_option = Some(t.clone());
                    } else {
                        myself.phone_number_option = Some(normalize_phone_number(t.as_str()));
                    }
                },
                _ => {
                    proof {
                        lemma_personal_error_extends(fs@, i + 1, myself_view(u0));
                    }
                    return Err(TelegramError::WrongType);
                },
            }
        } else {
            proof {
                lemma_personal_error_extends(fs@, i + 1, myself_view(u0));
            }
            return Err(TelegramError::UnexpectedKey);
        }
        i = i + 1;
    }
    assert(fs@.take(n as int) =~= fs@);
    Ok(())
}

fn collect_contacts<'a>(fs: &'a Vec<(String, JsonValue)>, found: &mut Vec<&'a JsonValue>) -> (r: Result<(), TelegramError>)
    ensures
        match contact_fields(fs@, refs_view(old(found)@)) {
            Ok(c) => r is Ok && refs_view(final(found)@) == c,
            Err(e) => r == Err::<(), TelegramError>(e),
        },
{
    let ghost f0 = refs_view(found@);
    let n = fs.len();
    let mut i: usize = 0;
    assert(fs@.take(0) =~= Seq::<(String, JsonValue)>::empty());
    while i < n
        invariant
            n == fs@.len(),
            i <= n,
            f0 == refs_view(old(found)@),
            contact_fields(fs@.take(i as int), f0) == Ok::<Seq<JsonValue>, TelegramError>(refs_view(found@)),
        decreases n - i,
    {
        assert(fs@.take(i + 1).drop_last() =~= fs@.take(i as int));
        let k = fs[i].0.as_str();
        if str_eq(k, "about") {
        } else if str_eq(k, "list") {
            match &fs[i].1 {
                JsonValue::Arr(items) => {
                    let ghost before = refs_view(found@);
                    let m = items.len();
                    let mut j: usize = 0;
                    while j < m
                        invariant
                            m == items@.len(),
                            j <= m,
                            refs_view(found@) == before + items@.take(j as int),
                        decreases m - j,
                    {
                        let ghost prev = found@;
                        found.push(&items[j]);
                        assert(refs_view(found@) =~= refs_view(prev).push(items@[j as int]));
                        assert(items@.take(j + 1) =~= items@.take(j as int).push(items@[j as int]));
                        assert(refs_view(found@) =~= before + items@.take(j + 1));
                        j = j + 1;
                    }
                    assert(items@.take(m as int) =~= items@);
                },
                _ => {
                    proof {
                        lemma_contact_error_extends(fs@, i + 1, f0);
                    }
                    return Err(TelegramError::NotAnArray);
                },
            }
        } else {
            proof {
                lemma_contact_error_extends(fs@, i + 1, f0);
            }
            return Err(TelegramError::UnexpectedKey);
        }
        i = i + 1;
    }
    assert(fs@.take(n as int) =~= fs@);
    Ok(())
}

/// The value of the first member with the given key, see [`member`].
pub fn find_member<'a>(fs: &'a Vec<(String, JsonValue)>, k: &str) -> (r: Option<&'a JsonValue>)
    ensures
        match member(fs@, k@) {
            Some(v) => r matches Some(x) && *x == v,
            None => r is None,
        },
{
    let n = fs.len();
    let mut i: usize = 0;
    assert(fs@.skip(0) =~= fs@);
    while i < n
        invariant
            n == fs@.len(),
            i <= n,
            member(fs@, k@) == member(fs@.skip(i as int), k@),
        decreases n - i,
    {
        assert(fs@.skip(i as int).drop_first() =~= fs@.skip(i + 1));
        if str_eq(fs[i].0.as_str(), k) {
            return Some(&fs[i].1);
        }
        i = i + 1;
    }
    None
}

fn collect_chats<'a>(cs: &'a Vec<JsonValue>, found: &mut Vec<&'a JsonValue>) -> (r: Result<(), TelegramError>)
    ensures
        match chat_entries_error(cs@) {
            Some(e) => r == Err::<(), TelegramError>(e),
            None => r is Ok && refs_view(final(found)@) == refs_view(old(found)@) + cs@,
        },
{
    let ghost before = refs_view(found@);
    let n = cs.len();
    let mut i: usize = 0;
    assert(cs@.take(0) =~= Seq::<JsonValue>::empty());
    while i < n
        invariant
            n == cs@.len(),
            i <= n,
            chat_entries_error(cs@.take(i as int)) is None,
            refs_view(found@) == before + cs@.take(i as int),
        decreases n - i,
    {
        assert(cs@.take(i + 1).drop_last() =~= cs@.take(i as int));
        match &cs[i] {
            JsonValue::Obj(fs) => {
                if find_member(fs, "name").is_none() && find_member(fs, "id").is_none() {
                    proof {
                        lemma_chat_error_extends(cs@, i + 1);
                    }
                    return Err(TelegramError::ChatIdMissing);
                }
            },
            _ => {
                proof {
                    lemma_chat_error_extends(cs@, i + 1);
                }
                return Err(TelegramError::NotAnObject);
            },
        }
        let ghost prev = found@;
        found.push(&cs[i]);
        assert(refs_view(found@) =~= refs_view(prev).push(cs@[i as int]));
        assert(cs@.take(i + 1) =~= cs@.take(i as int).push(cs@[i as int]));
        assert(refs_view(found@) =~= before + cs@.take(i + 1));
        i = i + 1;
    }
    assert(cs@.take(n as int) =~= cs@);
    Ok(())
}

proof fn lemma_personal_error_extends(fs: Seq<(String, JsonValue)>, j: int, me: MyselfView)
    requires
        0 <= j <= fs.len(),
        personal_fields(fs.take(j), me) is Err,
    ensures
        personal_fields(fs, me) == personal_fields(fs.take(j), me),
    decreases fs.len() - j,
{
    if j < fs.len() {
        assert(fs.take(j + 1).drop_last() =~= fs.take(j));
        lemma_personal_error_extends(fs, j + 1, me);
    } else {
        assert(fs.take(j) =~= fs);
    }
}

proof fn lemma_contact_error_extends(fs: Seq<(String, JsonValue)>, j: int, found: Seq<JsonValue>)
    requires
        0 <= j <= fs.len(),
        contact_fields(fs.take(j), found) is Err,
    ensures
        contact_fields(fs, found) == contact_fields(fs.take(j), found),
    decreases fs.len() - j,
{
    if j < fs.len() {
        assert(fs.take(j + 1).drop_last() =~= fs.take(j));
        lemma_contact_error_extends(fs, j + 1, found);
    } else {
        assert(fs.take(j) =~= fs);
    }
}

proof fn lemma_chat_error_extends(cs: Seq<JsonValue>, j: int)
    requires
        0 <= j <= cs.len(),
        chat_entries_error(cs.take(j)) is Some,
    ensures
        chat_entries_error(cs) == chat_entries_error(cs.take(j)),
    decreases cs.len() - j,
{
    if j < cs.len() {
        assert(cs.take(j + 1).drop_last() =~= cs.take(j));
        lemma_chat_error_extends(cs, j + 1);
    } else {
        assert(cs.take(j) =~= cs);
    }
}

proof fn lemma_sections_error_extends(fs: Seq<(String, JsonValue)>, j: int, o: Outline)
    requires
        0 <= j <= fs.len(),
        sections(fs.take(j), o) is Err,
    ensures
        sections(fs, o) == sections(fs.take(j), o),
    decreases fs.len() - j,
{
    if j < fs.len() {
        assert(fs.take(j + 1).drop_last() =~= fs.take(j));
        lemma_sections_error_extends(fs, j + 1, o);
    } else {
        assert(fs.take(j) =~= fs);
    }
}

/// The empty outline that the walk of an export starts from.
pub open spec fn start(me: MyselfView) -> Outline {
    Outline { me, contacts: Seq::empty(), chats: Seq::empty() }
}

/// Walks the sections of an export, as [`export_outline`] says: fills in myself from the
/// personal information, which must come before the chats and name my user ID, and gives the
/// contact and chat entries for further reading. Sections that are not read are skipped;
/// an unexpected section or field is an error.
pub fn parse_full_export<'a>(root: &'a JsonValue, myself: &mut User) -> (r: Result<ExportEntries<'a>, TelegramError>)
    ensures
        same_but_personal(*old(myself), *final(myself)),
        match export_outline(*root, myself_view(*old(myself))) {
            Err(e) => r matches Err(e1) && e1 == e,
            Ok(o) => r matches Ok(entries) && {
                &&& myself_view(*final(myself)) == o.me
                &&& refs_view(entries.contacts@) == o.contacts
                &&& refs_view(entries.chats@) == o.chats
            },
        },
{
    let ghost u0 = *myself;
    let ghost init = start(myself_view(u0));
    let fs = match root {
        JsonValue::Obj(fs) => fs,
        _ => {
            return Err(TelegramError::NotAnObject);
        },
    };
    let mut contacts: Vec<&'a JsonValue> = Vec::new();
    let mut chats: Vec<&'a JsonValue> = Vec::new();
    let n = fs.len();
    let mut i: usize = 0;
    assert(fs@.take(0) =~= Seq::<(String, JsonValue)>::empty());
    assert(refs_view(contacts@) =~= Seq::<JsonValue>::empty());
    assert(refs_view(chats@) =~= Seq::<JsonValue>::empty());
    while i < n
        invariant
            n == fs@.len(),
            i <= n,
            *root == JsonValue::Obj(*fs),
            u0 == *old(myself),
            init == start(myself_view(u0)),
            same_but_personal(u0, *myself),
            sections(fs@.take(i as int), init) == Ok::<Outline, TelegramError>(
                Outline { me: myself_view(*myself), contacts: refs_view(contacts@), chats: refs_view(chats@) },
            ),
        decreases n - i,
    {
        assert(fs@.take(i + 1).drop_last() =~= fs@.take(i as int));
        let k = fs[i].0.as_str();
        let v = &fs[i].1;
        if str_eq(k, "about") || str_eq(k, "profile_pictures") || str_eq(k, "frequent_contacts")
            || str_eq(k, "other_data") || str_eq(k, "stories") || str_eq(k, "profile_music") || str_eq(k, "sessions")
            || str_eq(k, "web_sessions") || str_eq(k, "left_chats") {
        } else if str_eq(k, "contacts") {
            let res = match v {
                JsonValue::Obj(cfs) => collect_contacts(cfs, &mut contacts),
                _ => Err(TelegramError::NotAnObject),
            };
            if let Err(e) = res {
                proof {
                    lemma_sections_error_extends(fs@, i + 1, init);
                }
                return Err(e);
            }
        } else if str_eq(k, "personal_information") {
            let res = match v {
                JsonValue::Obj(pfs) => apply_personal(pfs, myself),
                _ => Err(TelegramError::NotAnObject),
            };
            let res = match res {
                Ok(()) => if myself.id == 0 {
                    Err(TelegramError::UserIdMissing)
                } else {
                    Ok(())
                },
                Err(e) => Err(e),
            };
            if let Err(e) = res {
                proof {
                    lemma_sections_error_extends(fs@, i + 1, init);
                }
                return Err(e);
            }
        } else if str_eq(k, "chats") {
            let res = if myself.id == 0 {
                Err(TelegramError::PersonalInfoMissing)
            } else {
                match v {
                    JsonValue::Obj(cfs) => match find_member(cfs, "list") {
                        None => Err(TelegramError::ChatsListMissing),
                        Some(JsonValue::Arr(cs)) => collect_chats(cs, &mut chats),
                        Some(_) => Err(TelegramError::NotAnArray),
                    },
                    _ => Err(TelegramError::NotAnObject),
                }
            };
            if let Err(e) = res {
                proof {
                    lemma_sections_error_extends(fs@, i + 1, init);
                }
                return Err(e);
            }
        } else {
            proof {
                lemma_sections_error_extends(fs@, i + 1, init);
            }
            return Err(TelegramError::UnexpectedKey);
        }
        i = i + 1;
    }
    assert(fs@.take(n as int) =~= fs@);
    Ok(ExportEntries { contacts, chats })
}

} // verus!
