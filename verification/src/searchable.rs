//! The searchable string of a message, built from its text and its kind-specific parts.
use vstd::prelude::*;
use crate::ids::UserId;
use crate::model::{Message, MessageTyped, MessageServiceValue, ContentValue, RichTextElement};
use crate::message_utils::{opt_seq, typed_well_formed};
use crate::whitespace::{str_trim, trimmed};

verus! {

/// Parts joined with single spaces (as `itertools::join(" ")` does).
pub open spec fn join_spaced(parts: Seq<Seq<char>>) -> Seq<char>
    decreases parts.len(),
{
    if parts.len() == 0 {
        Seq::empty()
    } else if parts.len() == 1 {
        parts[0]
    } else {
        join_spaced(parts.drop_last()) + seq![' '] + parts.last()
    }
}

/// The non-empty parts joined with single spaces.
pub open spec fn join_non_empty(parts: Seq<Seq<char>>) -> Seq<char>
    decreases parts.len(),
{
    if parts.len() == 0 {
        Seq::empty()
    } else {
        let init = join_non_empty(parts.drop_last());
        if parts.last().len() == 0 {
            init
        } else if init.len() == 0 {
            parts.last()
        } else {
            init + seq![' '] + parts.last()
        }
    }
}

/// Searchable texts of a content.
pub open spec fn content_search_parts(c: ContentValue) -> Seq<Seq<char>> {
    match c {
        ContentValue::Sticker { emoji_option, .. } => opt_seq(emoji_option),
        ContentValue::Audio { title_option, performer_option, .. } => opt_seq(title_option) + opt_seq(performer_option),
        ContentValue::Video { title_option, performer_option, .. } => opt_seq(title_option) + opt_seq(performer_option),
        ContentValue::File { file_name_option, .. } => opt_seq(file_name_option),
        ContentValue::Location { address_option, title_option, lat_str, lon_str, .. } =>
            opt_seq(address_option) + opt_seq(title_option) + seq![lat_str@, lon_str@],
        ContentValue::Poll { question } => seq![question@],
        ContentValue::SharedContact { first_name_option, last_name_option, phone_number_option, .. } =>
            opt_seq(first_name_option) + opt_seq(last_name_option) + opt_seq(phone_number_option),
        _ => Seq::empty(),
    }
}

pub open spec fn strings_view(v: Seq<String>) -> Seq<Seq<char>> {
    v.map_values(|s: String| s@)
}

/// Searchable texts of the contents of a regular message, in order.
pub open spec fn contents_search_parts(cs: Seq<crate::model::Content>) -> Seq<Seq<char>>
    decreases cs.len(),
{
    if cs.len() == 0 {
        Seq::empty()
    } else {
        contents_search_parts(cs.drop_last()) + content_search_parts(cs.last().sealed_value_optional.unwrap())
    }
}

/// Searchable texts of the kind-specific part of a message.
pub open spec fn typed_search_parts(t: MessageTyped) -> Seq<Seq<char>> {
    match t {
        MessageTyped::Regular(mr) => contents_search_parts(mr.contents@),
        MessageTyped::Service(ms) => match ms.sealed_value_optional {
            Some(MessageServiceValue::PhoneCall { members, .. }) => strings_view(members@),
            Some(MessageServiceValue::GroupCreate { title, members }) => seq![title@] + strings_view(members@),
            Some(MessageServiceValue::GroupInviteMembers { members }) => strings_view(members@),
            Some(MessageServiceValue::GroupRemoveMembers { members }) => strings_view(members@),
            Some(MessageServiceValue::GroupMigrateFrom { title }) => seq![title@],
            _ => Seq::empty(),
        },
    }
}

/// Searchable string of a message: the non-empty searchable strings of its text elements,
/// and the texts of its kind-specific part, each group joined with spaces and trimmed, then
/// joined with a space and trimmed again.
pub open spec fn searchable_string_spec(text: Seq<RichTextElement>, typed: MessageTyped) -> Seq<char> {
    let joined_text = join_non_empty(text.map_values(|r: RichTextElement| r.searchable_string@));
    let typed_text = join_spaced(typed_search_parts(typed));
    trimmed(join_non_empty(seq![trimmed(joined_text), trimmed(typed_text)]))
}

fn push_one(v: &mut Vec<String>, s: &String)
    ensures
        strings_view(final(v)@) == strings_view(old(v)@).push(s@),
{
    let ghost before = v@;
    v.push(s.clone());
    proof {
        assert(v@ == before.push(*s));
        assert(strings_view(v@) =~= strings_view(before).push(s@));
    }
}

fn push_opt_ref(v: &mut Vec<String>, o: &Option<String>)
    ensures
        strings_view(final(v)@) == strings_view(old(v)@) + opt_seq(*o),
{
    let ghost before = strings_view(v@);
    if let Some(s) = o {
        v.push(s.clone());
    }
    proof {
        assert(strings_view(v@) =~= before + opt_seq(*o));
    }
}

fn push_strings(v: &mut Vec<String>, src: &Vec<String>)
    ensures
        strings_view(final(v)@) == strings_view(old(v)@) + strings_view(src@),
{
    let ghost before = strings_view(v@);
    let mut i: usize = 0;
    while i < src.len()
        invariant
            0 <= i <= src@.len(),
            strings_view(v@) == before + strings_view(src@.take(i as int)),
        decreases src@.len() - i,
    {
        push_one(v, &src[i]);
        proof {
            assert(src@.take(i as int + 1) =~= src@.take(i as int).push(src@[i as int]));
            assert(strings_view(src@.take(i as int + 1)) =~= strings_view(src@.take(i as int)).push(src@[i as int]@));
        }
        i = i + 1;
        proof {
            assert(strings_view(v@) =~= before + strings_view(src@.take(i as int)));
        }
    }
    assert(src@.take(i as int) =~= src@);
}

fn push_content_parts(v: &mut Vec<String>, c: &ContentValue)
    ensures
        strings_view(final(v)@) == strings_view(old(v)@) + content_search_parts(*c),
{
    let ghost before = strings_view(v@);
    match c {
        ContentValue::Sticker { emoji_option, .. } => push_opt_ref(v, emoji_option),
        ContentValue::Audio { title_option, performer_option, .. } => {
            push_opt_ref(v, title_option);
            push_opt_ref(v, performer_option);
        },
        ContentValue::Video { title_option, performer_option, .. } => {
            push_opt_ref(v, title_option);
            push_opt_ref(v, performer_option);
        },
        ContentValue::File { file_name_option, .. } => push_opt_ref(v, file_name_option),
        ContentValue::Location { address_option, title_option, lat_str, lon_str, .. } => {
            push_opt_ref(v, address_option);
            push_opt_ref(v, title_option);
            push_one(v, lat_str);
            push_one(v, lon_str);
        },
        ContentValue::Poll { question } => push_one(v, question),
        ContentValue::SharedContact { first_name_option, last_name_option, phone_number_option, .. } => {
            push_opt_ref(v, first_name_option);
            push_opt_ref(v, last_name_option);
            push_opt_ref(v, phone_number_option);
        },
        _ => {},
    }
    proof {
        assert(strings_view(v@) =~= before + content_search_parts(*c));
    }
}

/// Joins the given parts with single spaces.
pub fn join_with_spaces(parts: &Vec<String>) -> (r: String)
    ensures
        r@ == join_spaced(strings_view(parts@)),
{
    let mut r = String::new();
    let mut i: usize = 0;
    while i < parts.len()
        invariant
            0 <= i <= parts@.len(),
            r@ == join_spaced(strings_view(parts@.take(i as int))),
        decreases parts@.len() - i,
    {
        proof {
            assert(strings_view(parts@.take(i as int + 1)).drop_last() =~= strings_view(parts@.take(i as int)));
            assert(strings_view(parts@.take(i as int + 1)).last() == parts@[i as int]@);
        }
        if i > 0 {
            r.append(" ");
            proof {
                reveal_strlit(" ");
            }
        }
        r.append(parts[i].as_str());
        i = i + 1;
        proof {
            if i == 1 {
                assert(r@ =~= join_spaced(strings_view(parts@.take(i as int))));
            } else {
                assert(r@ =~= join_spaced(strings_view(parts@.take(i as int))));
            }
        }
    }
    assert(parts@.take(i as int) =~= parts@);
    r
}

/// Joins the non-empty parts with single spaces.
pub fn join_non_empty_with_spaces(parts: &Vec<String>) -> (r: String)
    ensures
        r@ == join_non_empty(strings_view(parts@)),
{
    let mut r = String::new();
    let mut i: usize = 0;
    while i < parts.len()
        invariant
            0 <= i <= parts@.len(),
            r@ == join_non_empty(strings_view(parts@.take(i as int))),
        decreases parts@.len() - i,
    {
        proof {
            assert(strings_view(parts@.take(i as int + 1)).drop_last() =~= strings_view(parts@.take(i as int)));
            assert(strings_view(parts@.take(i as int + 1)).last() == parts@[i as int]@);
        }
        let part = parts[i].as_str();
        if !part.is_empty() {
            if !r.as_str().is_empty() {
                r.append(" ");
                proof {
                    reveal_strlit(" ");
                }
            }
            r.append(part);
        }
        i = i + 1;
        proof {
            assert(r@ =~= join_non_empty(strings_view(parts@.take(i as int))));
        }
    }
    assert(parts@.take(i as int) =~= parts@);
    r
}

/// Searchable string of a message, see [`searchable_string_spec`].
pub fn make_searchable_string(components: &Vec<RichTextElement>, typed: &MessageTyped) -> (r: String)
    requires
        typed_well_formed(*typed),
    ensures
        r@ == searchable_string_spec(components@, *typed),
{
    let mut texts: Vec<String> = Vec::new();
    let mut i: usize = 0;
    while i < components.len()
        invariant
            0 <= i <= components@.len(),
            strings_view(texts@) == components@.take(i as int).map_values(|r: RichTextElement| r.searchable_string@),
        decreases components@.len() - i,
    {
        push_one(&mut texts, &components[i].searchable_string);
        proof {
            assert(components@.take(i as int + 1) =~= components@.take(i as int).push(components@[i as int]));
        }
        i = i + 1;
        proof {
            assert(strings_view(texts@) =~= components@.take(i as int).map_values(|r: RichTextElement| r.searchable_string@));
        }
    }
    assert(components@.take(i as int) =~= components@);
    let joined_text = join_non_empty_with_spaces(&texts);

    let mut typed_parts: Vec<String> = Vec::new();
    match typed {
        MessageTyped::Regular(mr) => {
            let mut k: usize = 0;
            while k < mr.contents.len()
                invariant
                    0 <= k <= mr.contents@.len(),
                    crate::message_utils::contents_present(mr.contents@),
                    strings_view(typed_parts@) == contents_search_parts(mr.contents@.take(k as int)),
                decreases mr.contents@.len() - k,
            {
                proof {
                    assert(mr.contents@.take(k as int + 1).drop_last() =~= mr.contents@.take(k as int));
                    assert(mr.contents@[k as int].sealed_value_optional is Some);
                }
                push_content_parts(&mut typed_parts, mr.contents[k].sealed_value_optional.as_ref().unwrap());
                k = k + 1;
            }
            assert(mr.contents@.take(k as int) =~= mr.contents@);
        },
        MessageTyped::Service(ms) => match &ms.sealed_value_optional {
            Some(MessageServiceValue::PhoneCall { members, .. }) => push_strings(&mut typed_parts, members),
            Some(MessageServiceValue::GroupCreate { title, members }) => {
                push_one(&mut typed_parts, title);
                push_strings(&mut typed_parts, members);
            },
            Some(MessageServiceValue::GroupInviteMembers { members }) => push_strings(&mut typed_parts, members),
            Some(MessageServiceValue::GroupRemoveMembers { members }) => push_strings(&mut typed_parts, members),
            Some(MessageServiceValue::GroupMigrateFrom { title }) => push_one(&mut typed_parts, title),
            _ => {},
        },
    }
    proof {
        assert(strings_view(typed_parts@) =~= typed_search_parts(*typed));
    }
    let typed_text = join_with_spaces(&typed_parts);

    let mut both: Vec<String> = Vec::new();
    both.push(str_trim(joined_text.as_str()).to_owned());
    both.push(str_trim(typed_text.as_str()).to_owned());
    let joined = join_non_empty_with_spaces(&both);
    proof {
        assert(strings_view(both@) =~= seq![
            trimmed(join_non_empty(components@.map_values(|r: RichTextElement| r.searchable_string@))),
            trimmed(join_spaced(typed_search_parts(*typed))),
        ]);
    }
    str_trim(joined.as_str()).to_owned()
}

impl Message {
    /// A message with the searchable string computed from its text and kind-specific part.
    pub fn new(
        internal_id: i64,
        source_id_option: Option<i64>,
        timestamp: i64,
        from_id: UserId,
        text: Vec<RichTextElement>,
        typed: MessageTyped,
    ) -> (r: Message)
        requires
            typed_well_formed(typed),
        ensures
            r.internal_id == internal_id,
            r.source_id_option == source_id_option,
            r.timestamp == timestamp,
            r.from_id == from_id.0,
            r.text == text,
            r.searchable_string@ == searchable_string_spec(text@, typed),
            r.typed == Some(typed),
    {
        let searchable_string = make_searchable_string(&text, &typed);
        Message {
            internal_id,
            source_id_option,
            timestamp,
            from_id: from_id.0,
            text,
            searchable_string,
            typed: Some(typed),
        }
    }
}

} // verus!
