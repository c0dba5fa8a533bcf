//! Picking the effective text of an inbound message: its own content, the
//! referenced message's content, or an embed's message field, in that
//! order, skipping empties.
use vstd::prelude::*;

verus! {

/// The text a message effectively carries: its own content when non-empty,
/// else the referenced message's content when non-empty, else nothing.
pub open spec fn effective_text_spec(
    content: Seq<char>,
    referenced: Option<Seq<char>>,
) -> Option<Seq<char>> {
    if content.len() > 0 {
        Some(content)
    } else {
        match referenced {
            Some(t) => if t.len() > 0 {
                Some(t)
            } else {
                None
            },
            None => None,
        }
    }
}

/// Gets message content, falling back to the referenced message's content
/// when the main content is empty; `None` when both are empty or absent.
pub fn get_content_or_referenced<'a>(content: &'a String, referenced: Option<&'a String>) -> (r:
    Option<&'a String>)
    ensures
        match r {
            Some(t) => effective_text_spec(
                content@,
                match referenced {
                    Some(x) => Some(x@),
                    None => None,
                },
            ) == Some(t@),
            None => effective_text_spec(
                content@,
                match referenced {
                    Some(x) => Some(x@),
                    None => None,
                },
            ) is None,
        },
{
    if !content.as_str().is_empty() {
        Some(content)
    } else {
        match referenced {
            Some(t) => if !t.as_str().is_empty() {
                Some(t)
            } else {
                None
            },
            None => None,
        }
    }
}

/// The effective text with one more fallback: an embed field that carries
/// the quoted message, used for forwarded content.
pub fn resolve_effective_text<'a>(
    content: &'a String,
    referenced: Option<&'a String>,
    embed_message_field: Option<&'a String>,
) -> (r: Option<&'a String>)
    ensures
        match effective_text_spec(
            content@,
            match referenced {
                Some(x) => Some(x@),
                None => None,
            },
        ) {
            Some(t) => r matches Some(x) && x@ == t,
            None => r == embed_message_field,
        },
{
    match get_content_or_referenced(content, referenced) {
        Some(t) => Some(t),
        None => embed_message_field,
    }
}

} // verus!
