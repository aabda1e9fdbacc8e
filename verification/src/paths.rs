//! File paths as the standard library reads them, and how a path is shown
//! where room is scarce.

use crate::text::{text_view, views};
use std::path::Path;
use vstd::prelude::*;
use vstd::string::*;

verus! {

/// The extension of a path, as `Path::extension` gives it.
pub uninterp spec fn extension_of(path: Seq<char>) -> Option<Seq<char>>;

/// The stem of a path's file name, as `Path::file_stem` gives it.
pub uninterp spec fn file_stem_of(path: Seq<char>) -> Option<Seq<char>>;

/// The file name of a path, as `Path::file_name` gives it.
pub uninterp spec fn file_name_of(path: Seq<char>) -> Option<Seq<char>>;

/// A path without its last component, as `Path::parent` gives it.
pub uninterp spec fn parent_of(path: Seq<char>) -> Option<Seq<char>>;

/// A path put behind another, as `Path::join` gives it.
pub uninterp spec fn join_of(base: Seq<char>, path: Seq<char>) -> Seq<char>;

/// The components of a path, as `Path::components` gives them.
pub uninterp spec fn components_of(path: Seq<char>) -> Seq<Seq<char>>;

/// Calls `Path::extension` of the standard library on `path`. The result
/// depends on the text of the path alone, by the rules of the platform that
/// the library is built for; nothing more is claimed of it.
#[verifier::external_body]
fn path_extension(path: &str) -> (r: Option<String>)
    ensures
        text_view(r) == extension_of(path@),
{
    Path::new(path).extension().map(|e| e.to_string_lossy().into_owned())
}

/// Calls `Path::file_stem` of the standard library on `path`. The result
/// depends on the text of the path alone, by the rules of the platform that
/// the library is built for; nothing more is claimed of it.
#[verifier::external_body]
pub(crate) fn path_file_stem(path: &str) -> (r: Option<String>)
    ensures
        text_view(r) == file_stem_of(path@),
{
    Path::new(path).file_stem().map(|e| e.to_string_lossy().into_owned())
}

/// Calls `Path::file_name` of the standard library on `path`. The result
/// depends on the text of the path alone, by the rules of the platform that
/// the library is built for; nothing more is claimed of it.
#[verifier::external_body]
fn path_file_name(path: &str) -> (r: Option<String>)
    ensures
        text_view(r) == file_name_of(path@),
{
    Path::new(path).file_name().map(|e| e.to_string_lossy().into_owned())
}

/// Calls `Path::parent` of the standard library on `path`. The result
/// depends on the text of the path alone, by the rules of the platform that
/// the library is built for; nothing more is claimed of it.
#[verifier::external_body]
pub(crate) fn path_parent(path: &str) -> (r: Option<String>)
    ensures
        text_view(r) == parent_of(path@),
{
    Path::new(path).parent().map(|e| e.to_string_lossy().into_owned())
}

/// Calls `Path::join` of the standard library on `base` with `path`. The
/// result depends on the two texts alone, by the rules of the platform that
/// the library is built for; nothing more is claimed of it.
#[verifier::external_body]
pub(crate) fn path_join(base: &str, path: &str) -> (r: String)
    ensures
        r@ == join_of(base@, path@),
{
    Path::new(base).join(path).to_string_lossy().into_owned()
}

/// Calls `Path::components` of the standard library on `path` and gives
/// the text of each component. The result depends on the text of the path
/// alone, by the rules of the platform that the library is built for;
/// nothing more is claimed of it.
#[verifier::external_body]
fn path_components(path: &str) -> (r: Vec<String>)
    ensures
        views(r@) == components_of(path@),
{
    Path::new(path).components().map(|c| c.as_os_str().to_string_lossy().into_owned()).collect()
}

/// Gives `std::path::MAIN_SEPARATOR`, the character that the platform
/// puts between the components of a path: `/` or `\`.
#[verifier::external_body]
fn main_separator() -> (c: char)
    ensures
        c == '/' || c == '\\',
{
    std::path::MAIN_SEPARATOR
}

/// Calls `String::push` of the standard library, which puts one character
/// at the end of the text.
#[verifier::external_body]
pub(crate) fn push_char(s: &mut String, c: char)
    ensures
        final(s)@ == old(s)@.push(c),
{
    s.push(c)
}

/// The extension of a file's path, without the dot; empty where the path
/// has none.
pub open spec fn extension_or_empty(path: Seq<char>) -> Seq<char> {
    match extension_of(path) {
        Some(e) => e,
        None => Seq::empty(),
    }
}

/// The extension of a file's path, without the dot; empty where the path
/// has none.
pub fn get_file_extension(file_path: &str) -> (r: String)
    ensures
        r@ == extension_or_empty(file_path@),
{
    match path_extension(file_path) {
        Some(ext) => ext,
        None => String::new(),
    }
}

/// What stands for a component in the middle of a shortened path: the
/// separator, the component's first character and three dots.
pub open spec fn abbreviation(component: Seq<char>, sep: char) -> Seq<char> {
    if component.len() == 0 {
        Seq::empty()
    } else {
        seq![sep, component[0], '.', '.', '.']
    }
}

/// The abbreviations of some components, one after the other.
pub open spec fn abbreviations(components: Seq<Seq<char>>, sep: char) -> Seq<char>
    decreases components.len(),
{
    if components.len() == 0 {
        Seq::empty()
    } else {
        abbreviations(components.drop_last(), sep) + abbreviation(components.last(), sep)
    }
}

/// A path of three or more components with those in the middle
/// abbreviated: the first component as it is, then the abbreviations, then
/// the separator and the last component.
pub open spec fn folded(components: Seq<Seq<char>>, sep: char) -> Seq<char>
    recommends
        components.len() >= 2,
{
    components[0] + abbreviations(components.subrange(1, components.len() - 1), sep) + seq![sep]
        + components.last()
}

/// The number of bytes that a text takes in UTF-8.
pub open spec fn byte_len(s: Seq<char>) -> nat {
    vstd::utf8::encode_utf8(s).len()
}

/// What is shown for a path where at most `max_len` bytes fit.
///
/// A path that fits, or that has two components at most, is shown whole.
/// Otherwise its middle components are abbreviated; if that still does not
/// fit, the file name alone is shown.
pub open spec fn shortened(
    full: Seq<char>,
    components: Seq<Seq<char>>,
    file_name: Option<Seq<char>>,
    sep: char,
    max_len: nat,
) -> Seq<char> {
    if byte_len(full) <= max_len || components.len() <= 2 {
        full
    } else if byte_len(folded(components, sep)) > max_len {
        match file_name {
            Some(name) => name,
            None => Seq::empty(),
        }
    } else {
        folded(components, sep)
    }
}

/// Shortens a path that has been taken apart already, see [`shortened`].
pub fn shorten_components(
    full: &str,
    components: &Vec<String>,
    file_name: Option<String>,
    sep: char,
    max_len: usize,
) -> (r: String)
    ensures
        r@ == shortened(full@, views(components@), text_view(file_name), sep, max_len as nat),
{
    if full.as_bytes().len() <= max_len || components.len() <= 2 {
        return String::from_str(full);
    }
    let ghost comps = views(components@);
    let last: usize = components.len() - 1;
    let mut out = components[0].clone();
    let mut i: usize = 1;
    assert(comps.subrange(1, 1) =~= Seq::<Seq<char>>::empty());
    while i < last
        invariant
            1 <= i <= last,
            last + 1 == components@.len(),
            comps == views(components@),
            out@ == comps[0] + abbreviations(comps.subrange(1, i as int), sep),
        decreases last - i,
    {
        let comp = components[i].as_str();
        proof {
            assert(comps.subrange(1, i + 1).drop_last() =~= comps.subrange(1, i as int));
            assert(comps.subrange(1, i + 1).last() == comp@);
        }
        if !comp.is_empty() {
            let first = comp.get_char(0);
            push_char(&mut out, sep);
            push_char(&mut out, first);
            out.append("...");
            proof {
                reveal_strlit("...");
                assert(out@ =~= comps[0] + abbreviations(comps.subrange(1, i + 1), sep));
            }
        } else {
            assert(out@ =~= comps[0] + abbreviations(comps.subrange(1, i + 1), sep));
        }
        i += 1;
    }
    push_char(&mut out, sep);
    out.append(components[last].as_str());
    assert(out@ =~= folded(comps, sep));
    if out.as_str().as_bytes().len() > max_len {
        match file_name {
            Some(name) => name,
            None => String::new(),
        }
    } else {
        out
    }
}

/// Shortens a path for showing it in `max_len` bytes: the first component
/// and the file name stay, what lies between is abbreviated; where even
/// that is too long, the file name alone is left. The separator is the
/// platform's.
pub fn shorten_path(path: &str, max_len: usize) -> (r: String)
    ensures
        exists|sep: char|
            (sep == '/' || sep == '\\') && r@ == #[trigger] shortened(
                path@,
                components_of(path@),
                file_name_of(path@),
                sep,
                max_len as nat,
            ),
{
    let components = path_components(path);
    let file_name = path_file_name(path);
    let sep = main_separator();
    let r = shorten_components(path, &components, file_name, sep, max_len);
    assert(r@ == shortened(
        path@,
        components_of(path@),
        file_name_of(path@),
        sep,
        max_len as nat,
    ));
    r
}

} // verus!
