//! Lexical paths with `/` between the components.

use crate::text::{
    begins_with, cat2, cat3, drop, ends_with, finishes_with, opt, owned, rcut_once, rfind,
    rfind_text, rsplit_once, same, slice, slice_from, starts_with, take,
};
use vstd::prelude::*;

verus! {

/// A path on this system: a text, or bytes that are no text.
#[derive(Debug, PartialEq, Eq)]
pub enum LocalPath {
    Text(String),
    Raw(Vec<u8>),
}

/// Model of `LocalPath`.
pub enum LocalPathView {
    Text(Seq<char>),
    Raw(Seq<u8>),
}

impl DeepView for LocalPath {
    type V = LocalPathView;

    open spec fn deep_view(&self) -> LocalPathView {
        match self {
            LocalPath::Text(t) => LocalPathView::Text(t@),
            LocalPath::Raw(b) => LocalPathView::Raw(b@),
        }
    }
}

/// `p` without the separators and `.` components at its end; a lone `.` stays.
pub open spec fn without_trailing(p: Seq<char>) -> Seq<char>
    decreases p.len(),
{
    if p.len() > 0 && p.last() == '/' {
        without_trailing(p.drop_last())
    } else if p.len() > 1 && p.last() == '.' && p[p.len() - 2] == '/' {
        without_trailing(p.drop_last())
    } else {
        p
    }
}

/// The last component, which may be `.` or `..`; empty for the root and for nothing.
pub open spec fn last_component(p: Seq<char>) -> Seq<char> {
    let body = without_trailing(p);
    match rfind(body, "/"@) {
        Some(i) => drop(body, i + 1),
        None => body,
    }
}

/// The name of the file that a path leads to.
pub open spec fn path_file_name(p: Seq<char>) -> Option<Seq<char>> {
    let name = last_component(p);
    if name.len() == 0 || name == "."@ || name == ".."@ {
        None
    } else {
        Some(name)
    }
}

/// The path without its last component.
pub open spec fn path_parent(p: Seq<char>) -> Option<Seq<char>> {
    let body = without_trailing(p);
    if body.len() == 0 {
        None
    } else {
        match rfind(body, "/"@) {
            Some(i) => {
                let head = without_trailing(take(body, i));
                if head.len() == 0 {
                    Some("/"@)
                } else {
                    Some(head)
                }
            },
            None => Some(""@),
        }
    }
}

/// `b` as seen from `a`.
pub open spec fn path_join(a: Seq<char>, b: Seq<char>) -> Seq<char> {
    if starts_with(b, "/"@) || a.len() == 0 {
        b
    } else if ends_with(a, "/"@) {
        a + b
    } else {
        a + "/"@ + b
    }
}

/// The extension of a file name: what follows its last dot, unless the dot begins the name.
pub open spec fn name_extension(name: Seq<char>) -> Option<Seq<char>> {
    match rsplit_once(name, "."@) {
        Some((stem, ext)) => if stem.len() == 0 {
            None
        } else {
            Some(ext)
        },
        None => None,
    }
}

/// A file name without its extension.
pub open spec fn name_stem(name: Seq<char>) -> Seq<char> {
    match rsplit_once(name, "."@) {
        Some((stem, ext)) => if stem.len() == 0 {
            name
        } else {
            stem
        },
        None => name,
    }
}

pub open spec fn path_extension(p: Seq<char>) -> Option<Seq<char>> {
    match path_file_name(p) {
        Some(name) => name_extension(name),
        None => None,
    }
}

pub open spec fn path_stem(p: Seq<char>) -> Option<Seq<char>> {
    match path_file_name(p) {
        Some(name) => Some(name_stem(name)),
        None => None,
    }
}

/// The path with its extension replaced, or removed where `ext` is empty. Two dots that are left over
/// have no extension.
pub open spec fn path_with_extension(p: Seq<char>, ext: Seq<char>) -> Seq<char> {
    match path_file_name(p) {
        None => p,
        Some(name) => {
            let body = without_trailing(p);
            let base = take(body, body.len() - name.len() + name_stem(name).len());
            if name_stem(name) == "."@ && body == p {
                base + "."@
            } else if ext.len() == 0 {
                base
            } else {
                base + "."@ + ext
            }
        },
    }
}

fn trimmed_path<'a>(p: &'a str) -> (r: &'a str)
    ensures
        r@ == without_trailing(p@),
{
    let v: Vec<char> = crate::text::to_chars(p);
    let mut n: usize = v.len();
    assert(take(v@, v@.len() as int) =~= v@);
    while (n > 0 && v[n - 1] == '/') || (n > 1 && v[n - 1] == '.' && v[n - 2] == '/')
        invariant
            n <= v@.len(),
            without_trailing(take(v@, n as int)) == without_trailing(v@),
        decreases n,
    {
        assert(take(v@, n as int).drop_last() =~= take(v@, n - 1));
        n = n - 1;
    }
    slice(p, 0, n)
}

fn component<'a>(p: &'a str) -> (r: &'a str)
    ensures
        r@ == last_component(p@),
{
    let body: &str = trimmed_path(p);
    match rfind_text(body, "/") {
        Some(i) => {
            proof {
                reveal_strlit("/");
            }
            let _len: usize = body.unicode_len();
            slice_from(body, i + 1)
        },
        None => body,
    }
}

pub fn file_name<'a>(p: &'a str) -> (r: Option<&'a str>)
    ensures
        opt(r) == path_file_name(p@),
{
    let name: &str = component(p);
    if name.unicode_len() == 0 || same(name, ".") || same(name, "..") {
        None
    } else {
        Some(name)
    }
}

pub fn parent(p: &str) -> (r: Option<String>)
    ensures
        r.deep_view() == path_parent(p@),
{
    let body: &str = trimmed_path(p);
    if body.unicode_len() == 0 {
        return None;
    }
    match rfind_text(body, "/") {
        Some(i) => {
            let head: &str = trimmed_path(slice(body, 0, i));
            if head.unicode_len() == 0 {
                Some(owned("/"))
            } else {
                Some(owned(head))
            }
        },
        None => Some(owned("")),
    }
}

pub fn join_path(a: &str, b: &str) -> (r: String)
    ensures
        r@ == path_join(a@, b@),
{
    if begins_with(b, "/") || a.unicode_len() == 0 {
        owned(b)
    } else if finishes_with(a, "/") {
        cat2(a, b)
    } else {
        cat3(a, "/", b)
    }
}

pub fn extension_of_name<'a>(name: &'a str) -> (r: Option<&'a str>)
    ensures
        opt(r) == name_extension(name@),
{
    match rcut_once(name, ".") {
        Some((stem, ext)) => if stem.unicode_len() == 0 {
            None
        } else {
            Some(ext)
        },
        None => None,
    }
}

pub fn stem_of_name<'a>(name: &'a str) -> (r: &'a str)
    ensures
        r@ == name_stem(name@),
{
    match rcut_once(name, ".") {
        Some((stem, _)) => if stem.unicode_len() == 0 {
            name
        } else {
            stem
        },
        None => name,
    }
}

pub fn extension<'a>(p: &'a str) -> (r: Option<&'a str>)
    ensures
        opt(r) == path_extension(p@),
{
    match file_name(p) {
        Some(name) => extension_of_name(name),
        None => None,
    }
}

pub fn file_stem<'a>(p: &'a str) -> (r: Option<&'a str>)
    ensures
        opt(r) == path_stem(p@),
{
    match file_name(p) {
        Some(name) => Some(stem_of_name(name)),
        None => None,
    }
}

pub fn with_extension(p: &str, ext: &str) -> (r: String)
    ensures
        r@ == path_with_extension(p@, ext@),
{
    match file_name(p) {
        None => owned(p),
        Some(name) => {
            let body: &str = trimmed_path(p);
            let stem: &str = stem_of_name(name);
            proof {
                lemma_name_lengths(p@);
            }
            let keep: usize = body.unicode_len() - name.unicode_len() + stem.unicode_len();
            let base: &str = slice(body, 0, keep);
            if same(stem, ".") && same(body, p) {
                cat2(base, ".")
            } else if ext.unicode_len() == 0 {
                owned(base)
            } else {
                cat3(base, ".", ext)
            }
        },
    }
}

proof fn lemma_name_lengths(p: Seq<char>)
    ensures
        last_component(p).len() <= without_trailing(p).len(),
        name_stem(last_component(p)).len() <= last_component(p).len(),
{
    let body = without_trailing(p);
    reveal_strlit("/");
    reveal_strlit(".");
    crate::text::lemma_rfind_from(body, "/"@, body.len() - 1);
    let name = last_component(p);
    crate::text::lemma_rfind_from(name, "."@, name.len() - 1);
}

} // verus!
