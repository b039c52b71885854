//! Helpers on the entities: names, identifiers, members, files and searchable strings.
use vstd::prelude::*;
use crate::ids::{UserId, ChatId, MessageInternalId, Timestamp, MasterInternalId, SlaveInternalId};
use crate::model::{PbUuid, User, ProfilePicture, PictureFrame, ChatWithDetails, Chat};
use crate::files::{DatasetRoot, is_absolute_path, join_path};
use crate::text::{opt_chars, name_or_unnamed, name_or_unnamed_spec, str_eq, UNNAMED};
use crate::numbers::{decimal, i64_to_decimal};
use crate::ext::{random_uuid_string, v4_uuid_text};

verus! {

impl PbUuid {
    /// A fresh random (version 4) UUID, in its hyphenated lowercase form.
    pub fn random() -> (r: PbUuid)
        ensures
            v4_uuid_text(r.value@),
    {
        PbUuid { value: random_uuid_string() }
    }
}

/// User known only by ID and (maybe) full name.
#[derive(Debug)]
pub struct ShortUser {
    pub id: UserId,
    pub full_name_option: Option<String>,
}

impl ShortUser {
    pub fn new(id: UserId, full_name_option: Option<String>) -> (r: Self)
        ensures
            r.id == id,
            r.full_name_option == full_name_option,
    {
        Self { id, full_name_option }
    }

    pub fn new_name_str(id: UserId, full_name: &str) -> (r: Self)
        ensures
            r.id == id,
            opt_chars(r.full_name_option) == Some(full_name@),
    {
        Self::new(id, Some(full_name.to_owned()))
    }

    /// A user with the invalid ID and no name.
    pub fn default() -> (r: Self)
        ensures
            r.id.0 == 0,
            r.full_name_option is None,
    {
        Self::new(UserId::invalid(), None)
    }

    /// Full user of the given dataset; the full name becomes the first name.
    pub fn to_user(&self, ds_uuid: &PbUuid) -> (r: User)
        ensures
            r.ds_uuid == *ds_uuid,
            r.id == self.id.0,
            opt_chars(r.first_name_option) == opt_chars(self.full_name_option),
            r.last_name_option is None,
            r.username_option is None,
            r.phone_number_option is None,
            r.profile_pictures@.len() == 0,
    {
        let first_name_option = match &self.full_name_option {
            Some(n) => Some(n.clone()),
            None => None,
        };
        User {
            ds_uuid: ds_uuid.clone(),
            id: self.id.0,
            first_name_option,
            last_name_option: None,
            username_option: None,
            phone_number_option: None,
            profile_pictures: Vec::new(),
        }
    }
}

/// Name of a user as shown: "first last", then the first name, the last name, the phone
/// number, or the username, whichever is present first.
pub open spec fn pretty_name_spec(u: User) -> Option<Seq<char>> {
    match (u.first_name_option, u.last_name_option) {
        (Some(f), Some(l)) => Some(f@ + seq![' '] + l@),
        (Some(f), None) => Some(f@),
        (None, Some(l)) => Some(l@),
        (None, None) => match (u.phone_number_option, u.username_option) {
            (Some(p), _) => Some(p@),
            (None, Some(n)) => Some(n@),
            (None, None) => None,
        },
    }
}

/// Name of a user as shown, or the placeholder for a missing name.
pub open spec fn pretty_name_or_unnamed(u: User) -> Seq<char> {
    name_or_unnamed_spec(pretty_name_spec(u))
}

impl User {
    pub fn id(&self) -> (r: UserId)
        ensures
            r.0 == self.id,
    {
        UserId(self.id)
    }

    pub fn pretty_name_option(&self) -> (r: Option<String>)
        ensures
            opt_chars(r) == pretty_name_spec(*self),
    {
        match (&self.first_name_option, &self.last_name_option) {
            (Some(first_name), Some(last_name)) => {
                let mut s = first_name.clone();
                s.append(" ");
                s.append(last_name.as_str());
                proof {
                    reveal_strlit(" ");
                    assert(s@ =~= first_name@ + seq![' '] + last_name@);
                }
                Some(s)
            },
            (Some(first_name), None) => Some(first_name.clone()),
            (None, Some(last_name)) => Some(last_name.clone()),
            (None, None) => match (&self.phone_number_option, &self.username_option) {
                (Some(phone_number), _) => Some(phone_number.clone()),
                (None, Some(username)) => Some(username.clone()),
                (None, None) => None,
            },
        }
    }

    pub fn pretty_name(&self) -> (r: String)
        ensures
            r@ == pretty_name_or_unnamed(*self),
    {
        let o = self.pretty_name_option();
        name_or_unnamed(&o)
    }
}

/// Profile picture along with its absolute path.
#[derive(Debug)]
pub struct AbsoluteProfilePicture {
    pub absolute_path: String,
    pub frame_option: Option<PictureFrame>,
}

impl ProfilePicture {
    pub fn to_absolute(&self, ds_root: &DatasetRoot) -> (r: AbsoluteProfilePicture)
        requires
            !is_absolute_path(self.path@),
        ensures
            r.absolute_path@ == join_path(ds_root.0@, self.path@),
            r.frame_option == self.frame_option,
    {
        AbsoluteProfilePicture {
            absolute_path: ds_root.to_absolute(self.path.as_str()),
            frame_option: self.frame_option,
        }
    }
}

/// Whether no member before index `i` is shown under the name `name`.
pub open spec fn no_member_named_before(members: Seq<User>, name: Seq<char>, i: int) -> bool {
    forall|k: int| 0 <= k < i ==> pretty_name_or_unnamed(#[trigger] members[k]) != name
}

impl ChatWithDetails {
    pub fn ds_uuid(&self) -> (r: &PbUuid)
        ensures
            *r == self.chat.ds_uuid,
    {
        &self.chat.ds_uuid
    }

    pub fn id(&self) -> (r: ChatId)
        ensures
            r.0 == self.chat.id,
    {
        ChatId(self.chat.id)
    }

    /// Index of the first member shown under the given name (used to resolve plaintext members).
    pub fn resolve_member_index(&self, member_name: &str) -> (r: Option<usize>)
        ensures
            index_lookup(self.members@, member_name@, r),
    {
        let mut i: usize = 0;
        while i < self.members.len()
            invariant
                0 <= i <= self.members@.len(),
                no_member_named_before(self.members@, member_name@, i as int),
            decreases self.members@.len() - i,
        {
            let name = self.members[i].pretty_name();
            if str_eq(name.as_str(), member_name) {
                return Some(i);
            }
            i = i + 1;
        }
        None
    }

    /// First member shown under the given name (used to resolve plaintext members).
    pub fn resolve_member(&self, member_name: &str) -> (r: Option<&User>)
        ensures
            single_lookup(self.members@, member_name@, deref_user(r)),
    {
        match self.resolve_member_index(member_name) {
            Some(i) => Some(&self.members[i]),
            None => None,
        }
    }

    /// First member shown under each given name, if any.
    pub fn resolve_members(&self, member_names: &Vec<String>) -> (r: Vec<Option<&User>>)
        ensures
            r@.len() == member_names@.len(),
            forall|j: int|
                0 <= j < r@.len() ==> deref_user(#[trigger] r@[j]) == resolved_member(
                    self.members@,
                    member_names@[j]@,
                ),
    {
        let mut r: Vec<Option<&User>> = Vec::new();
        let mut j: usize = 0;
        while j < member_names.len()
            invariant
                0 <= j <= member_names@.len(),
                r@.len() == j,
                forall|k: int|
                    0 <= k < j ==> deref_user(#[trigger] r@[k]) == resolved_member(
                        self.members@,
                        member_names@[k]@,
                    ),
            decreases member_names@.len() - j,
        {
            let m = match self.resolve_member_index(member_names[j].as_str()) {
                Some(i) => {
                    proof {
                        lemma_first_named_member(self.members@, member_names@[j as int]@, i as int);
                    }
                    Some(&self.members[i])
                },
                None => {
                    proof {
                        lemma_no_named_member(self.members@, member_names@[j as int]@);
                    }
                    None
                },
            };
            r.push(m);
            j = j + 1;
        }
        r
    }

    /// ID of the first member shown under each given name, if any.
    pub fn resolve_member_ids(&self, member_names: &Vec<String>) -> (r: Vec<Option<i64>>)
        ensures
            r@.len() == member_names@.len(),
            forall|j: int|
                0 <= j < r@.len() ==> (#[trigger] r@[j] == resolved_member_id(
                    self.members@,
                    member_names@[j]@,
                )),
    {
        let mut r: Vec<Option<i64>> = Vec::new();
        let mut j: usize = 0;
        while j < member_names.len()
            invariant
                0 <= j <= member_names@.len(),
                r@.len() == j,
                forall|k: int|
                    0 <= k < j ==> (#[trigger] r@[k] == resolved_member_id(
                        self.members@,
                        member_names@[k]@,
                    )),
            decreases member_names@.len() - j,
        {
            let id = match self.resolve_member_index(member_names[j].as_str()) {
                Some(i) => {
                    proof {
                        lemma_first_named_member(self.members@, member_names@[j as int]@, i as int);
                    }
                    Some(self.members[i].id)
                },
                None => {
                    proof {
                        lemma_no_named_member(self.members@, member_names@[j as int]@);
                    }
                    None
                },
            };
            r.push(id);
            j = j + 1;
        }
        r
    }
}

/// Whether some member is shown under the given name.
pub open spec fn has_member_named(members: Seq<User>, name: Seq<char>) -> bool {
    exists|i: int| 0 <= i < members.len() && pretty_name_or_unnamed(#[trigger] members[i]) == name
}

/// The user a reference points to, if any.
pub open spec fn deref_user(o: Option<&User>) -> Option<User> {
    match o {
        Some(u) => Some(*u),
        None => None,
    }
}

/// Whether `r` is what looking up one name among the members gives: a member shown under
/// the name with none before it so shown, or nothing where no member is so shown.
pub open spec fn single_lookup(members: Seq<User>, name: Seq<char>, r: Option<User>) -> bool {
    match r {
        Some(u) => exists|i: int|
            0 <= i < members.len() && members[i] == u && pretty_name_or_unnamed(members[i]) == name
                && no_member_named_before(members, name, i),
        None => no_member_named_before(members, name, members.len() as int),
    }
}

/// Whether `r` is what looking up the position of one name among the members gives.
pub open spec fn index_lookup(members: Seq<User>, name: Seq<char>, r: Option<usize>) -> bool {
    match r {
        Some(i) => i < members.len() && pretty_name_or_unnamed(members[i as int]) == name
            && no_member_named_before(members, name, i as int),
        None => no_member_named_before(members, name, members.len() as int),
    }
}

/// Resolving a list of names resolves each name on its own: what a single lookup of a name
/// gives, and the member at the position a lookup of its index gives, are the first member
/// shown under that name, which is what the list of lookups holds for it.
pub proof fn law_members_resolved_one_by_one(
    members: Seq<User>,
    name: Seq<char>,
    single: Option<User>,
    index: Option<usize>,
)
    requires
        single_lookup(members, name, single),
        index_lookup(members, name, index),
    ensures
        single == resolved_member(members, name),
        match index {
            Some(i) => single == Some(members[i as int]),
            None => single is None,
        },
{
    match single {
        Some(u) => {
            let i = choose|i: int|
                0 <= i < members.len() && members[i] == u && pretty_name_or_unnamed(members[i]) == name
                    && no_member_named_before(members, name, i);
            lemma_first_named_member(members, name, i);
        },
        None => lemma_no_named_member(members, name),
    }
    match index {
        Some(i) => lemma_first_named_member(members, name, i as int),
        None => lemma_no_named_member(members, name),
    }
}

/// The first member shown under the given name, if any.
pub open spec fn resolved_member(members: Seq<User>, name: Seq<char>) -> Option<User> {
    if has_member_named(members, name) {
        let i = choose|i: int|
            0 <= i < members.len() && pretty_name_or_unnamed(members[i]) == name
                && no_member_named_before(members, name, i);
        Some(members[i])
    } else {
        None
    }
}

/// ID of the first member shown under the given name, if any.
pub open spec fn resolved_member_id(members: Seq<User>, name: Seq<char>) -> Option<i64> {
    if has_member_named(members, name) {
        let i = choose|i: int|
            0 <= i < members.len() && pretty_name_or_unnamed(members[i]) == name
                && no_member_named_before(members, name, i);
        Some(members[i].id)
    } else {
        None
    }
}

proof fn lemma_first_named_member(members: Seq<User>, name: Seq<char>, i: int)
    requires
        0 <= i < members.len(),
        pretty_name_or_unnamed(members[i]) == name,
        no_member_named_before(members, name, i),
    ensures
        resolved_member_id(members, name) == Some(members[i].id),
        resolved_member(members, name) == Some(members[i]),
{
    assert(has_member_named(members, name));
    let k = choose|k: int|
        0 <= k < members.len() && pretty_name_or_unnamed(members[k]) == name
            && no_member_named_before(members, name, k);
    if k < i {
        assert(pretty_name_or_unnamed(members[k]) != name);
    }
    if i < k {
        assert(pretty_name_or_unnamed(members[i]) != name);
    }
}

proof fn lemma_no_named_member(members: Seq<User>, name: Seq<char>)
    requires
        no_member_named_before(members, name, members.len() as int),
    ensures
        resolved_member_id(members, name) is None,
        resolved_member(members, name) is None,
{
    if has_member_named(members, name) {
        let i = choose|i: int| 0 <= i < members.len() && pretty_name_or_unnamed(#[trigger] members[i]) == name;
        assert(pretty_name_or_unnamed(members[i]) != name);
    }
}

impl Chat {
    pub fn id(&self) -> (r: ChatId)
        ensures
            r.0 == self.id,
    {
        ChatId(self.id)
    }

    /// The chat's name (or the placeholder) in quotes, followed by its ID: `'name' (#id)`.
    pub fn qualified_name(&self) -> (r: String)
        ensures
            r@ == seq!['\''] + name_or_unnamed_spec(opt_chars(self.name_option)) + seq!['\'', ' ', '(', '#']
                + decimal(self.id as int) + seq![')'],
    {
        let mut r = "'".to_owned();
        let name = name_or_unnamed(&self.name_option);
        r.append(name.as_str());
        r.append("' (#");
        let id = i64_to_decimal(self.id);
        r.append(id.as_str());
        r.append(")");
        proof {
            reveal_strlit("'");
            reveal_strlit("' (#");
            reveal_strlit(")");
            assert(r@ =~= seq!['\''] + name_or_unnamed_spec(opt_chars(self.name_option)) + seq![
                '\'',
                ' ',
                '(',
                '#',
            ] + decimal(self.id as int) + seq![')']);
        }
        r
    }

    /// IDs of the chat members.
    pub fn member_ids(&self) -> (r: Vec<UserId>)
        ensures
            r@.len() == self.member_ids@.len(),
            forall|i: int| 0 <= i < r@.len() ==> (#[trigger] r@[i]).0 == self.member_ids@[i],
    {
        let mut r: Vec<UserId> = Vec::new();
        let mut i: usize = 0;
        while i < self.member_ids.len()
            invariant
                0 <= i <= self.member_ids@.len(),
                r@.len() == i,
                forall|k: int| 0 <= k < i ==> (#[trigger] r@[k]).0 == self.member_ids@[k],
            decreases self.member_ids@.len() - i,
        {
            r.push(UserId(self.member_ids[i]));
            i = i + 1;
        }
        r
    }

    /// Absolute path of the chat image, if any.
    pub fn get_img_path_option(&self, ds_root: &DatasetRoot) -> (r: Option<String>)
        requires
            self.img_path_option matches Some(p) ==> !is_absolute_path(p@),
        ensures
            match self.img_path_option {
                Some(p) => r matches Some(a) && a@ == join_path(ds_root.0@, p@),
                None => r is None,
            },
    {
        match &self.img_path_option {
            Some(p) => Some(ds_root.to_absolute(p.as_str())),
            None => None,
        }
    }
}

/// A code that stands for no value of an enum.
#[derive(Clone, Copy, Debug, PartialEq, Eq, Structural)]
pub struct UnknownCode {
    pub code: i32,
}

/// An enum whose values are stored as numeric codes.
pub trait EnumResolve: Sized {
    /// The value a code stands for, if any.
    spec fn resolved(tpe: i32) -> Option<Self>;

    /// The value a code stands for; a code that stands for none is an error.
    fn resolve(tpe: i32) -> (r: Result<Self, UnknownCode>)
        ensures
            match Self::resolved(tpe) {
                Some(v) => r == Ok::<Self, UnknownCode>(v),
                None => r == Err::<Self, UnknownCode>(UnknownCode { code: tpe }),
            },
    ;
}

} // verus!
