//! Attributes of playlist lines.

use crate::error::{view_result, Error, ErrorView, Result};
use crate::text::{cat2, drop, find, find_text, owned, slice, slice_from, take, trim, trimmed};
use vstd::prelude::*;

verus! {

/// The value of an attribute: what stands between quotes after `key="`, else what stands between
/// `key=` and the next comma. An empty key asks for all that follows the first colon.
pub open spec fn attribute_of(line: Seq<char>, key: Seq<char>) -> core::result::Result<
    Option<Seq<char>>,
    ErrorView,
> {
    let text = trim(line);
    if key.len() == 0 {
        Ok(
            Some(
                match find(text, ":"@) {
                    Some(i) => drop(text, i + 1),
                    None => text,
                },
            ),
        )
    } else {
        match find(text, key + "=\""@) {
            Some(i) => {
                let tail = drop(text, i + key.len() + 2);
                match find(tail, "\""@) {
                    Some(end) => Ok(Some(take(tail, end))),
                    None => Err(ErrorView::Protocol(key + " attribute is invalid"@)),
                }
            },
            None => match find(text, key + "="@) {
                Some(i) => {
                    let tail = drop(text, i + key.len() + 1);
                    match find(tail, ","@) {
                        Some(end) => Ok(Some(take(tail, end))),
                        None => Ok(Some(tail)),
                    }
                },
                None => Ok(None),
            },
        }
    }
}

/// An attribute of which an empty value counts as none.
pub open spec fn solid_attribute(line: Seq<char>, key: Seq<char>) -> core::result::Result<
    Option<Seq<char>>,
    ErrorView,
> {
    match attribute_of(line, key) {
        Ok(Some(v)) => if v.len() == 0 {
            Ok(None)
        } else {
            Ok(Some(v))
        },
        other => other,
    }
}

/// The value of an attribute.
pub fn hls_attribute(line: &str, key: &str) -> (r: Result<Option<String>>)
    ensures
        view_result(r) == attribute_of(line@, key@),
{
    let text: &str = trimmed(line);
    let _len: usize = text.unicode_len();
    proof {
        reveal_strlit(":");
        reveal_strlit("=");
        reveal_strlit("=\"");
    }
    if key.unicode_len() == 0 {
        return match find_text(text, ":") {
            Some(i) => Ok(Some(owned(slice_from(text, i + 1)))),
            None => Ok(Some(owned(text))),
        };
    }
    let quoted: String = cat2(key, "=\"");
    match find_text(text, quoted.as_str()) {
        Some(i) => {
            let tail: &str = slice_from(text, i + quoted.as_str().unicode_len());
            return match find_text(tail, "\"") {
                Some(end) => Ok(Some(owned(slice(tail, 0, end)))),
                None => {
                    let message: String = cat2(key, " attribute is invalid");
                    Err(Error::protocol(message.as_str()))
                },
            };
        },
        None => {},
    }
    let unquoted: String = cat2(key, "=");
    match find_text(text, unquoted.as_str()) {
        Some(i) => {
            let tail: &str = slice_from(text, i + unquoted.as_str().unicode_len());
            match find_text(tail, ",") {
                Some(end) => Ok(Some(owned(slice(tail, 0, end)))),
                None => Ok(Some(owned(tail))),
            }
        },
        None => Ok(None),
    }
}

/// An attribute of which an empty value counts as none.
pub fn non_empty_hls_attribute(line: &str, key: &str) -> (r: Result<Option<String>>)
    ensures
        view_result(r) == solid_attribute(line@, key@),
{
    match hls_attribute(line, key) {
        Ok(Some(v)) => if v.as_str().unicode_len() == 0 {
            Ok(None)
        } else {
            Ok(Some(v))
        },
        other => other,
    }
}

} // verus!
