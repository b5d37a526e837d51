//! Paths as text: joining, parent directory and final component.
use vstd::prelude::*;

use crate::text::{chars_of, extend_chars, slice_of, string_of};

verus! {

/// `PathBuf::push` on Unix: an absolute `p` replaces `base`; otherwise `p` is
/// appended after a `/` unless `base` is empty or already ends with one.
pub open spec fn join_path(base: Seq<char>, p: Seq<char>) -> Seq<char> {
    if p.len() > 0 && p[0] == '/' {
        p
    } else if base.len() == 0 || base.last() == '/' {
        base + p
    } else {
        base + seq!['/'] + p
    }
}

pub fn join_path_chars(base: &[char], p: &[char]) -> (r: Vec<char>)
    ensures
        r@ == join_path(base@, p@),
{
    if p.len() > 0 && p[0] == '/' {
        slice_of(p, 0, p.len())
    } else {
        let mut v = slice_of(base, 0, base.len());
        if !(base.len() == 0 || base[base.len() - 1] == '/') {
            v.push('/');
        }
        extend_chars(&mut v, p);
        v
    }
}

/// What `Path::parent` gives for the path with this text, as text.
pub uninterp spec fn parent_of(p: Seq<char>) -> Option<Seq<char>>;

/// What `Path::file_name` gives for the path with this text, as text.
pub uninterp spec fn file_name_of(p: Seq<char>) -> Option<Seq<char>>;

/// `Path::parent`: the path without its final component, if it has one. The
/// text of a path made from a `&str` converts back losslessly.
#[verifier::external_body]
fn std_path_parent(p: &str) -> (r: Option<String>)
    ensures
        match r {
            Some(s) => parent_of(p@) == Some(s@),
            None => parent_of(p@) is None,
        },
{
    std::path::Path::new(p).parent().map(|q| q.to_string_lossy().into_owned())
}

/// `Path::file_name`: the final component of the path, if it is a normal one.
#[verifier::external_body]
fn std_path_file_name(p: &str) -> (r: Option<String>)
    ensures
        match r {
            Some(s) => file_name_of(p@) == Some(s@),
            None => file_name_of(p@) is None,
        },
{
    std::path::Path::new(p).file_name().map(|q| q.to_string_lossy().into_owned())
}

/// The parent directory of a path.
pub fn parent_chars(p: &[char]) -> (r: Option<Vec<char>>)
    ensures
        match r {
            Some(s) => parent_of(p@) == Some(s@),
            None => parent_of(p@) is None,
        },
{
    let s = string_of(p);
    match std_path_parent(s.as_str()) {
        Some(q) => Some(chars_of(q.as_str())),
        None => None,
    }
}

/// The final component of a path.
pub fn file_name_chars(p: &[char]) -> (r: Option<Vec<char>>)
    ensures
        match r {
            Some(s) => file_name_of(p@) == Some(s@),
            None => file_name_of(p@) is None,
        },
{
    let s = string_of(p);
    match std_path_file_name(s.as_str()) {
        Some(q) => Some(chars_of(q.as_str())),
        None => None,
    }
}

} // verus!
