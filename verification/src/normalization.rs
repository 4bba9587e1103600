//! URLs as text: the scheme of a URL and the normal form under which URLs are
//! compared.

use crate::text::{
    chars_of, extend, find_first_of, find_last, first_of, last_of, lower, lowered, slice_of,
    starts_with, string_of, trim, trimmed,
};
use vstd::prelude::*;

verus! {

pub open spec fn is_alpha(c: char) -> bool {
    ('a' <= c && c <= 'z') || ('A' <= c && c <= 'Z')
}

pub open spec fn is_digit(c: char) -> bool {
    '0' <= c && c <= '9'
}

/// The characters a scheme is made of: letters, digits, `+`, `-` and `.`.
pub open spec fn is_scheme_char(c: char) -> bool {
    is_alpha(c) || is_digit(c) || c == '+' || c == '-' || c == '.'
}

/// A scheme is a letter followed by any number of scheme characters.
pub open spec fn is_scheme(s: Seq<char>) -> bool {
    &&& s.len() > 0
    &&& is_alpha(s[0])
    &&& forall|i: int| 0 <= i < s.len() ==> is_scheme_char(#[trigger] s[i])
}

/// The scheme of `url`: what stands before its first colon, where that is a
/// scheme.
pub open spec fn url_scheme(url: Seq<char>) -> Option<Seq<char>> {
    let colon = first_of(url, seq![':']);
    if colon < url.len() && is_scheme(url.take(colon)) {
        Some(url.take(colon))
    } else {
        None
    }
}

/// A host in lower case and without a leading `www.`.
pub open spec fn normal_host(host: Seq<char>) -> Seq<char> {
    let low = lower(host);
    if "www."@.is_prefix_of(low) {
        low.skip("www."@.len() as int)
    } else {
        low
    }
}

/// An authority with its host, which follows the last `@`, in normal form.
/// User information is kept as it is.
pub open spec fn normal_authority(authority: Seq<char>) -> Seq<char> {
    let at = last_of(authority, '@');
    authority.take(at + 1) + normal_host(authority.skip(at + 1))
}

/// The normal form of `url`, where it has a scheme: surrounding white space
/// removed, the scheme and the host in lower case, a leading `www.` of the
/// host dropped. Path, query and fragment are kept as they are.
pub open spec fn normalized(url: Seq<char>) -> Option<Seq<char>> {
    let t = trim(url);
    match url_scheme(t) {
        None => None,
        Some(scheme) => {
            let rest = t.skip(scheme.len() as int + 1);
            if seq!['/', '/'].is_prefix_of(rest) {
                let after = rest.skip(2);
                let end = first_of(after, seq!['/', '?', '#']);
                Some(
                    lower(scheme) + seq![':', '/', '/'] + normal_authority(after.take(end))
                        + after.skip(end),
                )
            } else {
                Some(lower(scheme) + seq![':'] + rest)
            }
        },
    }
}

/// The text that URLs are matched against: the normal form of `url`, or `url`
/// itself where it has none.
pub open spec fn normalized_or_same(url: Seq<char>) -> Seq<char> {
    match normalized(url) {
        Some(normal) => normal,
        None => url,
    }
}

/// Why a URL has no normal form.
#[derive(Clone, Copy, Debug, PartialEq, Eq, Structural)]
pub enum NormalizeError {
    /// The text does not begin with a scheme and a colon.
    MissingScheme,
}

fn is_alpha_char(c: char) -> (alpha: bool)
    ensures
        alpha == is_alpha(c),
{
    ('a' <= c && c <= 'z') || ('A' <= c && c <= 'Z')
}

fn is_scheme_character(c: char) -> (ok: bool)
    ensures
        ok == is_scheme_char(c),
{
    is_alpha_char(c) || ('0' <= c && c <= '9') || c == '+' || c == '-' || c == '.'
}

/// The scheme of `url`, if it has one.
pub fn scheme_of(url: &Vec<char>) -> (scheme: Option<Vec<char>>)
    ensures
        match scheme {
            Some(s) => url_scheme(url@) == Some(s@) && s.len() < url.len(),
            None => url_scheme(url@) is None,
        },
{
    let stops: Vec<char> = vec![':'];
    assert(stops@ =~= seq![':']);
    let colon = find_first_of(url, &stops);
    if colon >= url.len() || colon == 0 {
        return None;
    }
    if !is_alpha_char(url[0]) {
        return None;
    }
    let mut i: usize = 0;
    while i < colon
        invariant
            i <= colon < url.len(),
            colon == first_of(url@, seq![':']),
            forall|j: int| 0 <= j < i ==> is_scheme_char(#[trigger] url@.take(colon as int)[j]),
        decreases colon - i,
    {
        if !is_scheme_character(url[i]) {
            assert(!is_scheme_char(url@.take(colon as int)[i as int]));
            return None;
        }
        assert(url@.take(colon as int)[i as int] == url@[i as int]);
        i += 1;
    }
    Some(slice_of(url, 0, colon))
}

fn normalize_host(host: &Vec<char>) -> (normal: Vec<char>)
    ensures
        normal@ == normal_host(host@),
{
    let low = lowered(host);
    let www = chars_of("www.");
    if starts_with(&low, &www) {
        slice_of(&low, www.len(), low.len())
    } else {
        low
    }
}

fn normalize_authority(authority: &Vec<char>) -> (normal: Vec<char>)
    ensures
        normal@ == normal_authority(authority@),
{
    let host_from: usize = match find_last(authority, '@') {
        Some(at) => at + 1,
        None => 0,
    };
    let mut normal = slice_of(authority, 0, host_from);
    let host = slice_of(authority, host_from, authority.len());
    let normal_host = normalize_host(&host);
    extend(&mut normal, &normal_host);
    normal
}

/// Brings `url` into normal form, see [`normalized`]. Fails where `url` has
/// no scheme.
pub fn normalize_url(url: &str) -> (normal: Result<String, NormalizeError>)
    ensures
        match normal {
            Ok(text) => normalized(url@) == Some(text@),
            Err(e) => normalized(url@) is None && e == NormalizeError::MissingScheme,
        },
{
    let all = chars_of(url);
    let t = trimmed(&all);
    let scheme = match scheme_of(&t) {
        Some(scheme) => scheme,
        None => {
            return Err(NormalizeError::MissingScheme);
        },
    };
    let rest = slice_of(&t, scheme.len() + 1, t.len());
    let mut out = lowered(&scheme);
    let slashes: Vec<char> = vec!['/', '/'];
    assert(slashes@ =~= seq!['/', '/']);
    if starts_with(&rest, &slashes) {
        let after = slice_of(&rest, 2, rest.len());
        let stops: Vec<char> = vec!['/', '?', '#'];
        assert(stops@ =~= seq!['/', '?', '#']);
        let end = find_first_of(&after, &stops);
        let authority = slice_of(&after, 0, end);
        let tail = slice_of(&after, end, after.len());
        let normal_authority = normalize_authority(&authority);
        let mark: Vec<char> = vec![':', '/', '/'];
        assert(mark@ =~= seq![':', '/', '/']);
        extend(&mut out, &mark);
        extend(&mut out, &normal_authority);
        extend(&mut out, &tail);
    } else {
        let mark: Vec<char> = vec![':'];
        assert(mark@ =~= seq![':']);
        extend(&mut out, &mark);
        extend(&mut out, &rest);
    }
    Ok(string_of(&out))
}

/// `url` in normal form, or `url` itself where it has none.
pub fn normalize_or_keep(url: &str) -> (text: String)
    ensures
        text@ == normalized_or_same(url@),
{
    match normalize_url(url) {
        Ok(normal) => normal,
        Err(_) => url.to_owned(),
    }
}

} // verus!
