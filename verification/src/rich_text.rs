//! Construction of rich text elements and their searchable strings.
use vstd::prelude::*;
use crate::model::{RichTextElement, RteVal};
use crate::ext::{regex_replace_all, regex_compiles, regex_replaced};
use crate::whitespace::{str_trim, trimmed};

verus! {

/// Runs of separators, invisible formatting characters and line breaks.
pub const SEARCHABLE_SEPARATORS: &'static str = "[\\p{Z}\\p{Cf}\\n]+";

/// Searchable form of a text: every run of separators becomes one space, and the result is
/// trimmed. (Should the separator pattern ever fail to compile, the text is only trimmed.)
pub open spec fn normalized_searchable(s: Seq<char>) -> Seq<char> {
    if regex_compiles(SEARCHABLE_SEPARATORS@) {
        trimmed(regex_replaced(SEARCHABLE_SEPARATORS@, s, " "@))
    } else {
        trimmed(s)
    }
}

/// Searchable form of a text, see [`normalized_searchable`].
pub fn normalize_searchable_string(s: &str) -> (r: String)
    ensures
        r@ == normalized_searchable(s@),
{
    match regex_replace_all(SEARCHABLE_SEPARATORS, s, " ") {
        Some(replaced) => str_trim(replaced.as_str()).to_owned(),
        None => str_trim(s).to_owned(),
    }
}

/// The text of a rich text element, if it has one.
pub open spec fn rte_text(v: RteVal) -> Option<Seq<char>> {
    match v {
        RteVal::Plain { text } => Some(text@),
        RteVal::Bold { text } => Some(text@),
        RteVal::Italic { text } => Some(text@),
        RteVal::Underline { text } => Some(text@),
        RteVal::Strikethrough { text } => Some(text@),
        RteVal::PrefmtInline { text } => Some(text@),
        RteVal::PrefmtBlock { text, .. } => Some(text@),
        RteVal::Blockquote { text } => Some(text@),
        RteVal::Spoiler { text } => Some(text@),
        RteVal::Link { text_option, .. } => match text_option {
            Some(t) => Some(t@),
            None => None,
        },
    }
}

impl RichTextElement {
    /// The text of this element; links may have none.
    pub fn get_text(&self) -> (r: Option<&str>)
        requires
            self.val is Some,
        ensures
            r matches Some(t) ==> rte_text(self.val.unwrap()) == Some(t@),
            r is None ==> rte_text(self.val.unwrap()) is None,
    {
        match self.val.as_ref().unwrap() {
            RteVal::Plain { text } => Some(text.as_str()),
            RteVal::Bold { text } => Some(text.as_str()),
            RteVal::Italic { text } => Some(text.as_str()),
            RteVal::Underline { text } => Some(text.as_str()),
            RteVal::Strikethrough { text } => Some(text.as_str()),
            RteVal::PrefmtInline { text } => Some(text.as_str()),
            RteVal::PrefmtBlock { text, .. } => Some(text.as_str()),
            RteVal::Blockquote { text } => Some(text.as_str()),
            RteVal::Spoiler { text } => Some(text.as_str()),
            RteVal::Link { text_option, .. } => match text_option {
                Some(t) => Some(t.as_str()),
                None => None,
            },
        }
    }
}

/// Constructors of rich text elements, each with its searchable string.
pub struct RichText {}

/// Searchable string of a link: its href if the text equals it, otherwise text and href
/// separated by a space and trimmed; normalized in both cases.
pub open spec fn link_searchable(text_option: Option<Seq<char>>, href: Seq<char>) -> Seq<char> {
    let text = match text_option {
        Some(t) => t,
        None => Seq::empty(),
    };
    if text == href {
        normalized_searchable(href)
    } else {
        normalized_searchable(trimmed(text + seq![' '] + href))
    }
}

impl RichText {
    pub fn make_plain(text: String) -> (r: RichTextElement)
        ensures
            r.val == Some(RteVal::Plain { text }),
            r.searchable_string@ == normalized_searchable(text@),
    {
        RichTextElement {
            searchable_string: normalize_searchable_string(text.as_str()),
            val: Some(RteVal::Plain { text }),
        }
    }

    pub fn make_bold(text: String) -> (r: RichTextElement)
        ensures
            r.val == Some(RteVal::Bold { text }),
            r.searchable_string@ == normalized_searchable(text@),
    {
        RichTextElement {
            searchable_string: normalize_searchable_string(text.as_str()),
            val: Some(RteVal::Bold { text }),
        }
    }

    pub fn make_italic(text: String) -> (r: RichTextElement)
        ensures
            r.val == Some(RteVal::Italic { text }),
            r.searchable_string@ == normalized_searchable(text@),
    {
        RichTextElement {
            searchable_string: normalize_searchable_string(text.as_str()),
            val: Some(RteVal::Italic { text }),
        }
    }

    pub fn make_underline(text: String) -> (r: RichTextElement)
        ensures
            r.val == Some(RteVal::Underline { text }),
            r.searchable_string@ == normalized_searchable(text@),
    {
        RichTextElement {
            searchable_string: normalize_searchable_string(text.as_str()),
            val: Some(RteVal::Underline { text }),
        }
    }

    pub fn make_strikethrough(text: String) -> (r: RichTextElement)
        ensures
            r.val == Some(RteVal::Strikethrough { text }),
            r.searchable_string@ == normalized_searchable(text@),
    {
        RichTextElement {
            searchable_string: normalize_searchable_string(text.as_str()),
            val: Some(RteVal::Strikethrough { text }),
        }
    }

    pub fn make_blockquote(text: String) -> (r: RichTextElement)
        ensures
            r.val == Some(RteVal::Blockquote { text }),
            r.searchable_string@ == normalized_searchable(text@),
    {
        RichTextElement {
            searchable_string: normalize_searchable_string(text.as_str()),
            val: Some(RteVal::Blockquote { text }),
        }
    }

    pub fn make_spoiler(text: String) -> (r: RichTextElement)
        ensures
            r.val == Some(RteVal::Spoiler { text }),
            r.searchable_string@ == normalized_searchable(text@),
    {
        RichTextElement {
            searchable_string: normalize_searchable_string(text.as_str()),
            val: Some(RteVal::Spoiler { text }),
        }
    }

    pub fn make_link(text_option: Option<String>, href: String, hidden: bool) -> (r: RichTextElement)
        ensures
            r.val == Some(RteVal::Link { text_option, href, hidden }),
            r.searchable_string@ == link_searchable(
                match text_option {
                    Some(t) => Some(t@),
                    None => None,
                },
                href@,
            ),
    {
        let text: String = match &text_option {
            Some(t) => t.clone(),
            None => String::new(),
        };
        let searchable_string = if text == href {
            normalize_searchable_string(href.as_str())
        } else {
            let mut joined = text.clone();
            joined.append(" ");
            joined.append(href.as_str());
            proof {
                reveal_strlit(" ");
                assert(joined@ =~= text@ + seq![' '] + href@);
            }
            let trimmed_joined = str_trim(joined.as_str());
            normalize_searchable_string(trimmed_joined)
        };
        RichTextElement { val: Some(RteVal::Link { text_option, href, hidden }), searchable_string }
    }

    pub fn make_prefmt_inline(text: String) -> (r: RichTextElement)
        ensures
            r.val == Some(RteVal::PrefmtInline { text }),
            r.searchable_string@ == normalized_searchable(text@),
    {
        RichTextElement {
            searchable_string: normalize_searchable_string(text.as_str()),
            val: Some(RteVal::PrefmtInline { text }),
        }
    }

    pub fn make_prefmt_block(text: String, language_option: Option<String>) -> (r: RichTextElement)
        ensures
            r.val == Some(RteVal::PrefmtBlock { text, language_option }),
            r.searchable_string@ == normalized_searchable(text@),
    {
        RichTextElement {
            searchable_string: normalize_searchable_string(text.as_str()),
            val: Some(RteVal::PrefmtBlock { text, language_option }),
        }
    }
}

} // verus!
