//! Which modules handle a URL.
//!
//! A [`ResolverBuilder`] takes manifests one at a time and keeps those that
//! are well formed. [`ResolverBuilder::build`] turns it into a [`Resolver`],
//! which answers queries and can no longer change.
//!
//! Three rules are tried in turn, and the first that names any module
//! decides: modules that declare the URL's scheme; modules that declare the
//! longest prefix of the URL that any module declares; modules with a pattern
//! that matches the URL. Within a rule the modules come in the order in which
//! their manifests were inserted, each name once.

use crate::manifest::{valid_module_name, ModuleManifest};
use crate::normalization::{normalize_or_keep, normalized_or_same, scheme_of, url_scheme};
use crate::pattern::{compile, is_match, pattern_accepts, pattern_is_valid, pattern_source};
use crate::text::{chars_of, same_chars, starts_with, views};
use vstd::prelude::*;

verus! {

/// What the index holds of one manifest.
pub struct Handler {
    pub name: Seq<char>,
    pub protocols: Seq<Seq<char>>,
    pub prefixes: Seq<Seq<char>>,
    pub patterns: Seq<Seq<char>>,
}

/// One of the three ways in which a manifest can claim a URL.
pub enum Rule {
    /// The manifest declares the URL's scheme.
    Protocol,
    /// The manifest declares a prefix of the URL that has this length.
    Prefix(int),
    /// One of the manifest's patterns matches the URL.
    Pattern,
}

/// Why a URL could not be resolved.
#[derive(Clone, Copy, Debug, PartialEq, Eq, Structural)]
pub enum ResolveError {
    /// No module declares the URL, by any rule.
    NoMatch,
    /// A manifest is not well formed: its name is no module name or one of
    /// its patterns is no regular expression.
    InvalidManifest,
}

/// The prefix at position `i` of `h` is a prefix of `url`.
pub open spec fn prefix_hit(h: Handler, i: int, url: Seq<char>) -> bool {
    0 <= i < h.prefixes.len() && h.prefixes[i].is_prefix_of(url)
}

/// The pattern at position `i` of `h` matches `url`.
pub open spec fn pattern_hit(h: Handler, i: int, url: Seq<char>) -> bool {
    0 <= i < h.patterns.len() && pattern_accepts(h.patterns[i], url)
}

/// Whether `h` claims `url` by `rule`.
pub open spec fn claims(rule: Rule, h: Handler, url: Seq<char>) -> bool {
    match rule {
        Rule::Protocol => match url_scheme(url) {
            Some(scheme) => h.protocols.contains(scheme),
            None => false,
        },
        Rule::Prefix(len) => exists|i: int| #[trigger]
            prefix_hit(h, i, url) && h.prefixes[i].len() == len,
        Rule::Pattern => exists|i: int| pattern_hit(h, i, url),
    }
}

/// The length of the longest of the first `n` of `prefixes` that is a prefix
/// of `url`, or -1 where none is.
pub open spec fn longest_of(prefixes: Seq<Seq<char>>, url: Seq<char>, n: nat) -> int
    decreases n,
{
    if n == 0 {
        -1
    } else {
        let before = longest_of(prefixes, url, (n - 1) as nat);
        let p = prefixes[n - 1];
        if p.is_prefix_of(url) && p.len() > before {
            p.len() as int
        } else {
            before
        }
    }
}

/// The length of the longest prefix of `url` that any of the first `n`
/// handlers declares, or -1 where none declares one.
pub open spec fn longest_prefix_upto(hs: Seq<Handler>, url: Seq<char>, n: nat) -> int
    decreases n,
{
    if n == 0 {
        -1
    } else {
        let before = longest_prefix_upto(hs, url, (n - 1) as nat);
        let here = longest_of(hs[n - 1].prefixes, url, hs[n - 1].prefixes.len());
        if here > before {
            here
        } else {
            before
        }
    }
}

/// The length of the longest prefix of `url` that any handler declares, or -1.
pub open spec fn longest_prefix(hs: Seq<Handler>, url: Seq<char>) -> int {
    longest_prefix_upto(hs, url, hs.len())
}

/// Of the first `n` names those that are marked, in order, each once.
pub open spec fn select_first(names: Seq<Seq<char>>, marks: Seq<bool>, n: nat) -> Seq<Seq<char>>
    decreases n,
{
    if n == 0 {
        Seq::empty()
    } else {
        let before = select_first(names, marks, (n - 1) as nat);
        if marks[n - 1] && !before.contains(names[n - 1]) {
            before.push(names[n - 1])
        } else {
            before
        }
    }
}

pub open spec fn names_of(hs: Seq<Handler>) -> Seq<Seq<char>> {
    Seq::new(hs.len(), |k: int| hs[k].name)
}

pub open spec fn marks_of(hs: Seq<Handler>, rule: Rule, url: Seq<char>) -> Seq<bool> {
    Seq::new(hs.len(), |k: int| claims(rule, hs[k], url))
}

/// The names of the handlers that claim `url` by `rule`, in the order of the
/// handlers, each name once.
pub open spec fn tier(hs: Seq<Handler>, rule: Rule, url: Seq<char>) -> Seq<Seq<char>> {
    select_first(names_of(hs), marks_of(hs, rule, url), hs.len())
}

/// The modules that handle `url`: the first of the three tiers that is not
/// empty, or nothing.
pub open spec fn resolution(hs: Seq<Handler>, url: Seq<char>) -> Seq<Seq<char>> {
    let by_protocol = tier(hs, Rule::Protocol, url);
    let by_prefix = tier(hs, Rule::Prefix(longest_prefix(hs, url)), url);
    let by_pattern = tier(hs, Rule::Pattern, url);
    if by_protocol.len() > 0 {
        by_protocol
    } else if by_prefix.len() > 0 {
        by_prefix
    } else {
        by_pattern
    }
}

/// What [`select_first`] holds: exactly the marked names, none twice.
pub proof fn lemma_select_first(names: Seq<Seq<char>>, marks: Seq<bool>, n: nat)
    requires
        n <= names.len(),
        names.len() == marks.len(),
    ensures
        select_first(names, marks, n).no_duplicates(),
        forall|name: Seq<char>| #[trigger]
            select_first(names, marks, n).contains(name) <==> exists|k: int|
                0 <= k < n && marks[k] && #[trigger] names[k] == name,
    decreases n,
{
    if n > 0 {
        let m = (n - 1) as nat;
        lemma_select_first(names, marks, m);
        let before = select_first(names, marks, m);
        let now = select_first(names, marks, n);
        assert forall|name: Seq<char>| #[trigger] now.contains(name) <==> exists|k: int|
            0 <= k < n && marks[k] && #[trigger] names[k] == name by {
            if now.contains(name) {
                if before.contains(name) {
                    let k = choose|k: int| 0 <= k < m && marks[k] && #[trigger] names[k] == name;
                    assert(0 <= k < n && marks[k] && names[k] == name);
                } else {
                    assert(now == before.push(names[n - 1]));
                    let at = choose|at: int| 0 <= at < now.len() && now[at] == name;
                    if at < before.len() {
                        assert(before[at] == name);
                    }
                    assert(names[n - 1] == name);
                }
            }
            if exists|k: int| 0 <= k < n && marks[k] && #[trigger] names[k] == name {
                let k = choose|k: int| 0 <= k < n && marks[k] && #[trigger] names[k] == name;
                if k < m {
                    assert(before.contains(name));
                    let at = choose|at: int| 0 <= at < before.len() && before[at] == name;
                    assert(now[at] == name);
                } else if before.contains(name) {
                    let at = choose|at: int| 0 <= at < before.len() && before[at] == name;
                    assert(now[at] == name);
                } else {
                    assert(now == before.push(names[n - 1]));
                    assert(now[now.len() - 1] == name);
                }
            }
        }
    }
}

/// What [`longest_of`] is: the length of a matching prefix that no matching
/// prefix exceeds.
pub proof fn lemma_longest_of(prefixes: Seq<Seq<char>>, url: Seq<char>, n: nat)
    requires
        n <= prefixes.len(),
    ensures
        -1 <= longest_of(prefixes, url, n),
        longest_of(prefixes, url, n) >= 0 ==> exists|i: int|
            0 <= i < n && (#[trigger] prefixes[i]).is_prefix_of(url) && prefixes[i].len()
                == longest_of(prefixes, url, n),
        forall|i: int|
            0 <= i < n && (#[trigger] prefixes[i]).is_prefix_of(url) ==> prefixes[i].len()
                <= longest_of(prefixes, url, n),
    decreases n,
{
    if n > 0 {
        lemma_longest_of(prefixes, url, (n - 1) as nat);
        let before = longest_of(prefixes, url, (n - 1) as nat);
        let now = longest_of(prefixes, url, n);
        if now >= 0 {
            if now == before {
                let i = choose|i: int|
                    0 <= i < n - 1 && (#[trigger] prefixes[i]).is_prefix_of(url) && prefixes[i].len()
                        == before;
                assert(0 <= i < n && prefixes[i].is_prefix_of(url) && prefixes[i].len() == now);
            } else {
                assert(prefixes[n - 1].is_prefix_of(url) && prefixes[n - 1].len() == now);
            }
        }
    }
}

/// What [`longest_prefix_upto`] is: the length of a matching prefix of one of
/// the first `n` handlers that no matching prefix of any of them exceeds.
pub proof fn lemma_longest_prefix(hs: Seq<Handler>, url: Seq<char>, n: nat)
    requires
        n <= hs.len(),
    ensures
        -1 <= longest_prefix_upto(hs, url, n),
        longest_prefix_upto(hs, url, n) >= 0 ==> exists|k: int, i: int|
            0 <= k < n && #[trigger] prefix_hit(hs[k], i, url) && hs[k].prefixes[i].len()
                == longest_prefix_upto(hs, url, n),
        forall|k: int, i: int|
            0 <= k < n && #[trigger] prefix_hit(hs[k], i, url) ==> hs[k].prefixes[i].len()
                <= longest_prefix_upto(hs, url, n),
    decreases n,
{
    if n > 0 {
        lemma_longest_prefix(hs, url, (n - 1) as nat);
        let h = hs[n - 1];
        lemma_longest_of(h.prefixes, url, h.prefixes.len());
        let before = longest_prefix_upto(hs, url, (n - 1) as nat);
        let here = longest_of(h.prefixes, url, h.prefixes.len());
        let now = longest_prefix_upto(hs, url, n);
        if now >= 0 {
            if here > before {
                let i = choose|i: int|
                    0 <= i < h.prefixes.len() && (#[trigger] h.prefixes[i]).is_prefix_of(url)
                        && h.prefixes[i].len() == here;
                assert(prefix_hit(hs[n - 1], i, url) && hs[n - 1].prefixes[i].len() == now);
            } else {
                let (k, i) = choose|k: int, i: int|
                    0 <= k < n - 1 && #[trigger] prefix_hit(hs[k], i, url) && hs[k].prefixes[i].len()
                        == before;
                assert(0 <= k < n && prefix_hit(hs[k], i, url) && hs[k].prefixes[i].len() == now);
            }
        }
        assert forall|k: int, i: int|
            0 <= k < n && #[trigger] prefix_hit(hs[k], i, url) implies hs[k].prefixes[i].len()
            <= now by {
            if k == n - 1 {
                assert(h.prefixes[i].is_prefix_of(url));
            }
        }
    }
}

/// A name is in a tier exactly if a handler of that name claims the URL by
/// the tier's rule, and no name is in a tier twice.
pub proof fn lemma_tier(hs: Seq<Handler>, rule: Rule, url: Seq<char>)
    ensures
        tier(hs, rule, url).no_duplicates(),
        forall|name: Seq<char>| #[trigger]
            tier(hs, rule, url).contains(name) <==> exists|k: int|
                0 <= k < hs.len() && (#[trigger] hs[k]).name == name && claims(rule, hs[k], url),
{
    let names = names_of(hs);
    let marks = marks_of(hs, rule, url);
    lemma_select_first(names, marks, hs.len());
    assert forall|name: Seq<char>| #[trigger]
        tier(hs, rule, url).contains(name) <==> exists|k: int|
            0 <= k < hs.len() && (#[trigger] hs[k]).name == name && claims(rule, hs[k], url) by {
        if tier(hs, rule, url).contains(name) {
            let k = choose|k: int| 0 <= k < hs.len() && marks[k] && #[trigger] names[k] == name;
            assert(hs[k].name == name && claims(rule, hs[k], url));
        }
        if exists|k: int|
            0 <= k < hs.len() && (#[trigger] hs[k]).name == name && claims(rule, hs[k], url) {
            let k = choose|k: int|
                0 <= k < hs.len() && (#[trigger] hs[k]).name == name && claims(rule, hs[k], url);
            assert(marks[k] && names[k] == name);
        }
    }
}

/// Where a handler declares the scheme of the URL, the modules returned are
/// exactly those whose manifests declare that scheme; prefixes and patterns
/// play no part.
pub proof fn law_protocol_first(hs: Seq<Handler>, url: Seq<char>, k: int)
    requires
        0 <= k < hs.len(),
        claims(Rule::Protocol, hs[k], url),
    ensures
        resolution(hs, url) == tier(hs, Rule::Protocol, url),
        resolution(hs, url).contains(hs[k].name),
        forall|name: Seq<char>| #[trigger]
            resolution(hs, url).contains(name) <==> exists|j: int|
                0 <= j < hs.len() && (#[trigger] hs[j]).name == name && claims(
                    Rule::Protocol,
                    hs[j],
                    url,
                ),
{
    lemma_tier(hs, Rule::Protocol, url);
    assert(tier(hs, Rule::Protocol, url).contains(hs[k].name));
}

/// Where no handler declares the scheme of the URL and some handler declares
/// a prefix of it, a module is returned exactly if one of its manifests
/// declares a prefix of the URL that no declared prefix of the URL exceeds in
/// length.
pub proof fn law_longest_prefix_only(hs: Seq<Handler>, url: Seq<char>, name: Seq<char>)
    requires
        forall|k: int| 0 <= k < hs.len() ==> !claims(Rule::Protocol, #[trigger] hs[k], url),
        exists|k: int, i: int| 0 <= k < hs.len() && #[trigger] prefix_hit(hs[k], i, url),
    ensures
        resolution(hs, url).len() > 0,
        resolution(hs, url).contains(name) <==> exists|k: int, i: int|
            0 <= k < hs.len() && hs[k].name == name && #[trigger] prefix_hit(hs[k], i, url)
                && is_longest(hs, url, hs[k].prefixes[i].len() as int),
{
    let best = longest_prefix(hs, url);
    lemma_longest_prefix(hs, url, hs.len());
    lemma_tier(hs, Rule::Protocol, url);
    lemma_tier(hs, Rule::Prefix(best), url);
    assert(best >= 0);
    let top = choose|k: int, i: int|
        0 <= k < hs.len() && #[trigger] prefix_hit(hs[k], i, url) && hs[k].prefixes[i].len() == best;
    assert(claims(Rule::Prefix(best), hs[top.0], url));
    assert(tier(hs, Rule::Prefix(best), url).contains(hs[top.0].name));
    if tier(hs, Rule::Protocol, url).len() > 0 {
        let first = tier(hs, Rule::Protocol, url)[0];
        assert(tier(hs, Rule::Protocol, url).contains(first));
    }
    assert(resolution(hs, url) == tier(hs, Rule::Prefix(best), url));
    assert(is_longest(hs, url, best));
    if resolution(hs, url).contains(name) {
        let k = choose|k: int|
            0 <= k < hs.len() && (#[trigger] hs[k]).name == name && claims(
                Rule::Prefix(best),
                hs[k],
                url,
            );
        let i = choose|i: int| #[trigger] prefix_hit(hs[k], i, url) && hs[k].prefixes[i].len() == best;
        assert(prefix_hit(hs[k], i, url) && is_longest(hs, url, hs[k].prefixes[i].len() as int));
    }
    if exists|k: int, i: int|
        0 <= k < hs.len() && hs[k].name == name && #[trigger] prefix_hit(hs[k], i, url)
            && is_longest(hs, url, hs[k].prefixes[i].len() as int) {
        let (k, i) = choose|k: int, i: int|
            0 <= k < hs.len() && hs[k].name == name && #[trigger] prefix_hit(hs[k], i, url)
                && is_longest(hs, url, hs[k].prefixes[i].len() as int);
        assert(prefix_hit(hs[top.0], top.1, url));
        assert(hs[k].prefixes[i].len() == best);
        assert(claims(Rule::Prefix(best), hs[k], url));
    }
}

/// No prefix of `url` that a handler declares is longer than `len`.
pub open spec fn is_longest(hs: Seq<Handler>, url: Seq<char>, len: int) -> bool {
    forall|k: int, i: int|
        0 <= k < hs.len() && #[trigger] prefix_hit(hs[k], i, url) ==> hs[k].prefixes[i].len() <= len
}

/// No module is returned twice.
pub proof fn law_each_module_once(hs: Seq<Handler>, url: Seq<char>)
    ensures
        resolution(hs, url).no_duplicates(),
{
    lemma_tier(hs, Rule::Protocol, url);
    lemma_tier(hs, Rule::Prefix(longest_prefix(hs, url)), url);
    lemma_tier(hs, Rule::Pattern, url);
}

/// Nothing is returned exactly if no handler claims the URL by any rule.
pub proof fn law_no_match(hs: Seq<Handler>, url: Seq<char>)
    ensures
        resolution(hs, url).len() == 0 <==> forall|k: int|
            0 <= k < hs.len() ==> !claims(Rule::Protocol, #[trigger] hs[k], url) && !(exists|
                i: int,
            |
                prefix_hit(hs[k], i, url)) && !claims(Rule::Pattern, hs[k], url),
{
    let best = longest_prefix(hs, url);
    lemma_longest_prefix(hs, url, hs.len());
    lemma_tier(hs, Rule::Protocol, url);
    lemma_tier(hs, Rule::Prefix(best), url);
    lemma_tier(hs, Rule::Pattern, url);
    let by_protocol = tier(hs, Rule::Protocol, url);
    let by_prefix = tier(hs, Rule::Prefix(best), url);
    let by_pattern = tier(hs, Rule::Pattern, url);
    if resolution(hs, url).len() == 0 {
        assert forall|k: int| 0 <= k < hs.len() implies !claims(
            Rule::Protocol,
            #[trigger] hs[k],
            url,
        ) && !(exists|i: int| prefix_hit(hs[k], i, url)) && !claims(Rule::Pattern, hs[k], url) by {
            if claims(Rule::Protocol, hs[k], url) {
                assert(by_protocol.contains(hs[k].name));
            }
            if claims(Rule::Pattern, hs[k], url) {
                assert(by_pattern.contains(hs[k].name));
            }
            if exists|i: int| prefix_hit(hs[k], i, url) {
                let i = choose|i: int| prefix_hit(hs[k], i, url);
                assert(prefix_hit(hs[k], i, url));
                assert(best >= 0);
                let top = choose|k: int, i: int|
                    0 <= k < hs.len() && #[trigger] prefix_hit(hs[k], i, url)
                        && hs[k].prefixes[i].len() == best;
                assert(claims(Rule::Prefix(best), hs[top.0], url));
                assert(by_prefix.contains(hs[top.0].name));
            }
        }
    } else {
        let name = resolution(hs, url)[0];
        assert(resolution(hs, url).contains(name));
        if by_protocol.len() > 0 {
            let k = choose|k: int|
                0 <= k < hs.len() && (#[trigger] hs[k]).name == name && claims(
                    Rule::Protocol,
                    hs[k],
                    url,
                );
            assert(claims(Rule::Protocol, hs[k], url));
        } else if by_prefix.len() > 0 {
            let k = choose|k: int|
                0 <= k < hs.len() && (#[trigger] hs[k]).name == name && claims(
                    Rule::Prefix(best),
                    hs[k],
                    url,
                );
            let i = choose|i: int| #[trigger]
                prefix_hit(hs[k], i, url) && hs[k].prefixes[i].len() == best;
            assert(prefix_hit(hs[k], i, url));
        } else {
            let k = choose|k: int|
                0 <= k < hs.len() && (#[trigger] hs[k]).name == name && claims(
                    Rule::Pattern,
                    hs[k],
                    url,
                );
            assert(claims(Rule::Pattern, hs[k], url));
        }
    }
}

/// What the index holds of `manifest`.
pub open spec fn handler_of(manifest: ModuleManifest) -> Handler {
    Handler {
        name: manifest.name@,
        protocols: views(manifest.handles.protocols@),
        prefixes: views(manifest.handles.prefixes@),
        patterns: views(manifest.handles.patterns@),
    }
}

/// The handlers of the well-formed ones among the first `n` manifests.
pub open spec fn accepted(manifests: Seq<ModuleManifest>, n: nat) -> Seq<Handler>
    decreases n,
{
    if n == 0 {
        Seq::empty()
    } else {
        let before = accepted(manifests, (n - 1) as nat);
        if manifests[n - 1].wf() {
            before.push(handler_of(manifests[n - 1]))
        } else {
            before
        }
    }
}

/// The positions of the malformed ones among the first `n` manifests.
pub open spec fn rejected(manifests: Seq<ModuleManifest>, n: nat) -> Seq<usize>
    decreases n,
{
    if n == 0 {
        Seq::empty()
    } else {
        let before = rejected(manifests, (n - 1) as nat);
        if manifests[n - 1].wf() {
            before
        } else {
            before.push((n - 1) as usize)
        }
    }
}

/// The handlers of all the manifests, in order.
pub open spec fn handlers_of(manifests: Seq<ModuleManifest>) -> Seq<Handler> {
    Seq::new(manifests.len(), |k: int| handler_of(manifests[k]))
}

/// Where every manifest is well formed, all of them are accepted: adding
/// them leniently gives the same index as adding them strictly.
pub proof fn law_well_formed_are_all_accepted(manifests: Seq<ModuleManifest>, n: nat)
    requires
        n <= manifests.len(),
        forall|k: int| 0 <= k < n ==> (#[trigger] manifests[k]).wf(),
    ensures
        accepted(manifests, n) == handlers_of(manifests.take(n as int)),
    decreases n,
{
    if n > 0 {
        law_well_formed_are_all_accepted(manifests, (n - 1) as nat);
        assert(handlers_of(manifests.take(n as int)) =~= handlers_of(
            manifests.take(n - 1),
        ).push(handler_of(manifests[n - 1])));
    } else {
        assert(handlers_of(manifests.take(0)) =~= Seq::<Handler>::empty());
    }
}

/// No unmarked name is selected.
proof fn lemma_select_none(names: Seq<Seq<char>>, marks: Seq<bool>, n: nat)
    requires
        n <= marks.len(),
        forall|k: int| 0 <= k < n ==> !marks[k],
    ensures
        select_first(names, marks, n).len() == 0,
    decreases n,
{
    if n > 0 {
        lemma_select_none(names, marks, (n - 1) as nat);
    }
}

/// What the index keeps of one manifest, with its patterns compiled.
pub struct Entry {
    name: String,
    protocols: Vec<String>,
    prefixes: Vec<String>,
    patterns: Vec<regex::Regex>,
}

impl View for Entry {
    type V = Handler;

    closed spec fn view(&self) -> Handler {
        Handler {
            name: self.name@,
            protocols: views(self.protocols@),
            prefixes: views(self.prefixes@),
            patterns: Seq::new(self.patterns.len() as nat, |i: int| pattern_source(self.patterns[i])),
        }
    }
}

/// An index under construction.
pub struct ResolverBuilder {
    entries: Vec<Entry>,
}

/// A finished index: it answers queries and does not change.
pub struct Resolver {
    entries: Vec<Entry>,
}

/// What holds of an index that took in nothing but through
/// [`ResolverBuilder::insert`]: each handler has a module name for its name
/// and regular expressions for its patterns.
pub open spec fn all_valid(hs: Seq<Handler>) -> bool {
    forall|k: int| 0 <= k < hs.len() ==> valid_handler(#[trigger] hs[k])
}

pub open spec fn valid_handler(h: Handler) -> bool {
    &&& valid_module_name(h.name)
    &&& forall|i: int| 0 <= i < h.patterns.len() ==> pattern_is_valid(#[trigger] h.patterns[i])
}

spec fn entries_view(entries: Seq<Entry>) -> Seq<Handler> {
    Seq::new(entries.len(), |k: int| entries[k]@)
}

impl View for ResolverBuilder {
    type V = Seq<Handler>;

    closed spec fn view(&self) -> Seq<Handler> {
        entries_view(self.entries@)
    }
}

impl View for Resolver {
    type V = Seq<Handler>;

    closed spec fn view(&self) -> Seq<Handler> {
        entries_view(self.entries@)
    }
}

fn copy_strings(items: &Vec<String>) -> (copy: Vec<String>)
    ensures
        views(copy@) == views(items@),
{
    let mut copy: Vec<String> = Vec::new();
    let mut i: usize = 0;
    while i < items.len()
        invariant
            i <= items.len(),
            copy.len() == i,
            forall|j: int| 0 <= j < i ==> (#[trigger] copy@[j])@ == items@[j]@,
        decreases items.len() - i,
    {
        copy.push(items[i].clone());
        i += 1;
    }
    assert(views(copy@) =~= views(items@));
    copy
}

/// Whether one of `items` is the text `needle`.
fn holds_text(items: &Vec<String>, needle: &Vec<char>) -> (found: bool)
    ensures
        found == views(items@).contains(needle@),
{
    let mut i: usize = 0;
    while i < items.len()
        invariant
            i <= items.len(),
            forall|j: int| 0 <= j < i ==> views(items@)[j] != needle@,
        decreases items.len() - i,
    {
        let item = chars_of(items[i].as_str());
        if same_chars(&item, needle) {
            assert(views(items@)[i as int] == needle@);
            return true;
        }
        i += 1;
    }
    false
}

pub open spec fn as_length(best: Option<usize>) -> int {
    match best {
        Some(len) => len as int,
        None => -1,
    }
}

fn longer(a: Option<usize>, b: Option<usize>) -> (best: Option<usize>)
    ensures
        as_length(best) == if as_length(b) > as_length(a) {
            as_length(b)
        } else {
            as_length(a)
        },
{
    match (a, b) {
        (Some(x), Some(y)) => if y > x {
            b
        } else {
            a
        },
        (None, Some(_)) => b,
        (_, None) => a,
    }
}

/// The length of the longest of `prefixes` that `url` begins with.
fn longest_in(prefixes: &Vec<String>, url: &Vec<char>) -> (best: Option<usize>)
    ensures
        as_length(best) == longest_of(views(prefixes@), url@, prefixes.len() as nat),
{
    let mut best: Option<usize> = None;
    let mut i: usize = 0;
    while i < prefixes.len()
        invariant
            i <= prefixes.len(),
            as_length(best) == longest_of(views(prefixes@), url@, i as nat),
        decreases prefixes.len() - i,
    {
        let prefix = chars_of(prefixes[i].as_str());
        assert(views(prefixes@)[i as int] == prefix@);
        if starts_with(url, &prefix) {
            best = longer(best, Some(prefix.len()));
        }
        i += 1;
    }
    best
}

/// Whether `url` begins with one of `prefixes` that has length `len`.
fn begins_with_one_of(prefixes: &Vec<String>, url: &Vec<char>, len: usize) -> (found: bool)
    ensures
        found == exists|i: int|
            0 <= i < prefixes.len() && (#[trigger] views(prefixes@)[i]).is_prefix_of(url@) && views(
                prefixes@,
            )[i].len() == len,
{
    let mut i: usize = 0;
    while i < prefixes.len()
        invariant
            i <= prefixes.len(),
            forall|j: int|
                0 <= j < i ==> !((#[trigger] views(prefixes@)[j]).is_prefix_of(url@) && views(
                    prefixes@,
                )[j].len() == len),
        decreases prefixes.len() - i,
    {
        let prefix = chars_of(prefixes[i].as_str());
        assert(views(prefixes@)[i as int] == prefix@);
        if prefix.len() == len && starts_with(url, &prefix) {
            return true;
        }
        i += 1;
    }
    false
}

/// Whether one of `patterns` matches `url`.
fn any_matches(patterns: &Vec<regex::Regex>, url: &str) -> (found: bool)
    ensures
        found == exists|i: int|
            0 <= i < patterns.len() && pattern_accepts(#[trigger] pattern_source(patterns@[i]), url@),
{
    let mut i: usize = 0;
    while i < patterns.len()
        invariant
            i <= patterns.len(),
            forall|j: int|
                0 <= j < i ==> !pattern_accepts(#[trigger] pattern_source(patterns@[j]), url@),
        decreases patterns.len() - i,
    {
        if is_match(&patterns[i], url) {
            return true;
        }
        i += 1;
    }
    false
}

impl Entry {
    /// Copies out of `manifest` what the index needs and compiles its
    /// patterns. Fails where the manifest is not well formed.
    fn from_manifest(manifest: &ModuleManifest) -> (made: Option<Entry>)
        ensures
            made is Some == manifest.wf(),
            made matches Some(entry) ==> entry@ == handler_of(*manifest),
    {
        if !crate::manifest::is_valid_module_name(manifest.name.as_str()) {
            return None;
        }
        let mut patterns: Vec<regex::Regex> = Vec::new();
        let mut i: usize = 0;
        while i < manifest.handles.patterns.len()
            invariant
                i <= manifest.handles.patterns.len(),
                patterns.len() == i,
                manifest.patterns_valid_upto(i as int),
                forall|j: int|
                    0 <= j < i ==> pattern_source(#[trigger] patterns@[j])
                        == manifest.handles.patterns@[j]@,
            decreases manifest.handles.patterns.len() - i,
        {
            match compile(manifest.handles.patterns[i].as_str()) {
                Ok(expression) => {
                    patterns.push(expression);
                },
                Err(_) => {
                    assert(!pattern_is_valid(manifest.handles.patterns[i as int]@));
                    return None;
                },
            }
            i += 1;
        }
        let entry = Entry {
            name: manifest.name.clone(),
            protocols: copy_strings(&manifest.handles.protocols),
            prefixes: copy_strings(&manifest.handles.prefixes),
            patterns,
        };
        assert(entry@.patterns =~= handler_of(*manifest).patterns);
        Some(entry)
    }

    fn claims_by_protocol(&self, scheme: &Option<Vec<char>>, Ghost(url): Ghost<Seq<char>>) -> (hit:
        bool)
        requires
            match scheme {
                Some(s) => url_scheme(url) == Some(s@),
                None => url_scheme(url) is None,
            },
        ensures
            hit == claims(Rule::Protocol, self@, url),
    {
        match scheme {
            Some(s) => holds_text(&self.protocols, s),
            None => false,
        }
    }

    fn claims_by_prefix(&self, url: &Vec<char>, len: usize) -> (hit: bool)
        ensures
            hit == claims(Rule::Prefix(len as int), self@, url@),
    {
        let hit = begins_with_one_of(&self.prefixes, url, len);
        proof {
            let h = self@;
            if hit {
                let i = choose|i: int|
                    0 <= i < self.prefixes.len() && (#[trigger] views(self.prefixes@)[i]).is_prefix_of(
                        url@,
                    ) && views(self.prefixes@)[i].len() == len;
                assert(prefix_hit(h, i, url@) && h.prefixes[i].len() == len);
            }
            if claims(Rule::Prefix(len as int), h, url@) {
                let i = choose|i: int| #[trigger]
                    prefix_hit(h, i, url@) && h.prefixes[i].len() == len;
                assert(views(self.prefixes@)[i].is_prefix_of(url@));
            }
        }
        hit
    }

    fn claims_by_pattern(&self, url: &str) -> (hit: bool)
        ensures
            hit == claims(Rule::Pattern, self@, url@),
    {
        let hit = any_matches(&self.patterns, url);
        proof {
            let h = self@;
            if hit {
                let i = choose|i: int|
                    0 <= i < self.patterns.len() && pattern_accepts(
                        #[trigger] pattern_source(self.patterns@[i]),
                        url@,
                    );
                assert(pattern_hit(h, i, url@));
            }
            if claims(Rule::Pattern, h, url@) {
                let i = choose|i: int| pattern_hit(h, i, url@);
                assert(pattern_accepts(pattern_source(self.patterns@[i]), url@));
            }
        }
        hit
    }
}

/// Whether `name` is among `names`.
fn is_listed(names: &Vec<String>, name: &String) -> (found: bool)
    ensures
        found == views(names@).contains(name@),
{
    let needle = chars_of(name.as_str());
    holds_text(names, &needle)
}

impl ResolverBuilder {
    /// An index that holds nothing.
    pub fn new() -> (builder: ResolverBuilder)
        ensures
            builder@ == Seq::<Handler>::empty(),
            all_valid(builder@),
    {
        let builder = ResolverBuilder { entries: Vec::new() };
        assert(builder@ =~= Seq::<Handler>::empty());
        builder
    }

    /// Adds `manifest` to the index, unless it is not well formed: then the
    /// index stays as it was.
    pub fn insert(&mut self, manifest: &ModuleManifest) -> (added: Result<(), ResolveError>)
        ensures
            match added {
                Ok(()) => manifest.wf() && final(self)@ == old(self)@.push(handler_of(*manifest)),
                Err(e) => e == ResolveError::InvalidManifest && !manifest.wf() && final(self)@
                    == old(self)@,
            },
            all_valid(old(self)@) ==> all_valid(final(self)@),
    {
        match Entry::from_manifest(manifest) {
            Some(entry) => {
                self.entries.push(entry);
                assert(self@ =~= old(self)@.push(handler_of(*manifest)));
                Ok(())
            },
            None => Err(ResolveError::InvalidManifest),
        }
    }

    /// Adds each well-formed one of `manifests`, in order, and returns the
    /// positions of the others, which are left out.
    pub fn insert_all(&mut self, manifests: &Vec<ModuleManifest>) -> (skipped: Vec<usize>)
        ensures
            final(self)@ == old(self)@ + accepted(manifests@, manifests.len() as nat),
            skipped@ == rejected(manifests@, manifests.len() as nat),
            all_valid(old(self)@) ==> all_valid(final(self)@),
    {
        let mut skipped: Vec<usize> = Vec::new();
        let mut i: usize = 0;
        assert(self@ =~= old(self)@ + accepted(manifests@, 0));
        while i < manifests.len()
            invariant
                i <= manifests.len(),
                self@ == old(self)@ + accepted(manifests@, i as nat),
                skipped@ == rejected(manifests@, i as nat),
                all_valid(old(self)@) ==> all_valid(self@),
            decreases manifests.len() - i,
        {
            match self.insert(&manifests[i]) {
                Ok(()) => {
                    assert(self@ =~= old(self)@ + accepted(manifests@, (i + 1) as nat));
                },
                Err(_) => {
                    skipped.push(i);
                },
            }
            i += 1;
        }
        skipped
    }

    /// Closes the index.
    pub fn build(self) -> (resolver: Resolver)
        ensures
            resolver@ == self@,
    {
        Resolver { entries: self.entries }
    }
}

impl Resolver {
    /// An index of all of `manifests`. Fails where one of them is not well
    /// formed.
    pub fn try_from_manifests(manifests: &Vec<ModuleManifest>) -> (made: Result<
        Resolver,
        ResolveError,
    >)
        ensures
            match made {
                Ok(resolver) => resolver@ == handlers_of(manifests@) && all_valid(resolver@)
                    && forall|k: int| 0 <= k < manifests.len() ==> (#[trigger] manifests[k]).wf(),
                Err(e) => e == ResolveError::InvalidManifest && exists|k: int|
                    0 <= k < manifests.len() && !(#[trigger] manifests[k]).wf(),
            },
    {
        let mut builder = ResolverBuilder::new();
        let mut i: usize = 0;
        assert(builder@ =~= handlers_of(manifests@.take(0)));
        while i < manifests.len()
            invariant
                i <= manifests.len(),
                builder@ == handlers_of(manifests@.take(i as int)),
                all_valid(builder@),
                forall|k: int| 0 <= k < i ==> (#[trigger] manifests[k]).wf(),
            decreases manifests.len() - i,
        {
            match builder.insert(&manifests[i]) {
                Ok(()) => {
                    assert(builder@ =~= handlers_of(manifests@.take(i + 1)));
                },
                Err(e) => {
                    return Err(e);
                },
            }
            i += 1;
        }
        assert(manifests@.take(manifests.len() as int) == manifests@);
        Ok(builder.build())
    }

    /// How many manifests the index holds.
    pub fn len(&self) -> (n: usize)
        ensures
            n == self@.len(),
    {
        self.entries.len()
    }

    fn marks_by_protocol(&self, url: &Vec<char>) -> (marks: Vec<bool>)
        ensures
            marks@ == marks_of(self@, Rule::Protocol, url@),
    {
        let scheme = scheme_of(url);
        let mut marks: Vec<bool> = Vec::new();
        let mut k: usize = 0;
        while k < self.entries.len()
            invariant
                k <= self.entries.len(),
                marks.len() == k,
                match scheme {
                    Some(s) => url_scheme(url@) == Some(s@),
                    None => url_scheme(url@) is None,
                },
                forall|j: int| 0 <= j < k ==> marks@[j] == claims(Rule::Protocol, self@[j], url@),
            decreases self.entries.len() - k,
        {
            marks.push(self.entries[k].claims_by_protocol(&scheme, Ghost(url@)));
            k += 1;
        }
        assert(marks@ =~= marks_of(self@, Rule::Protocol, url@));
        marks
    }

    fn longest(&self, url: &Vec<char>) -> (best: Option<usize>)
        ensures
            as_length(best) == longest_prefix(self@, url@),
    {
        let mut best: Option<usize> = None;
        let mut k: usize = 0;
        while k < self.entries.len()
            invariant
                k <= self.entries.len(),
                as_length(best) == longest_prefix_upto(self@, url@, k as nat),
            decreases self.entries.len() - k,
        {
            let here = longest_in(&self.entries[k].prefixes, url);
            best = longer(best, here);
            k += 1;
        }
        best
    }

    fn marks_by_prefix(&self, url: &Vec<char>, len: usize) -> (marks: Vec<bool>)
        ensures
            marks@ == marks_of(self@, Rule::Prefix(len as int), url@),
    {
        let mut marks: Vec<bool> = Vec::new();
        let mut k: usize = 0;
        while k < self.entries.len()
            invariant
                k <= self.entries.len(),
                marks.len() == k,
                forall|j: int|
                    0 <= j < k ==> marks@[j] == claims(Rule::Prefix(len as int), self@[j], url@),
            decreases self.entries.len() - k,
        {
            marks.push(self.entries[k].claims_by_prefix(url, len));
            k += 1;
        }
        assert(marks@ =~= marks_of(self@, Rule::Prefix(len as int), url@));
        marks
    }

    fn marks_by_pattern(&self, url: &str) -> (marks: Vec<bool>)
        ensures
            marks@ == marks_of(self@, Rule::Pattern, url@),
    {
        let mut marks: Vec<bool> = Vec::new();
        let mut k: usize = 0;
        while k < self.entries.len()
            invariant
                k <= self.entries.len(),
                marks.len() == k,
                forall|j: int| 0 <= j < k ==> marks@[j] == claims(Rule::Pattern, self@[j], url@),
            decreases self.entries.len() - k,
        {
            marks.push(self.entries[k].claims_by_pattern(url));
            k += 1;
        }
        assert(marks@ =~= marks_of(self@, Rule::Pattern, url@));
        marks
    }

    /// The names of the marked entries, in order, each once.
    fn select(&self, marks: &Vec<bool>) -> (names: Vec<String>)
        requires
            marks.len() == self@.len(),
        ensures
            views(names@) == select_first(names_of(self@), marks@, self@.len()),
    {
        let mut names: Vec<String> = Vec::new();
        let mut k: usize = 0;
        assert(views(names@) =~= select_first(names_of(self@), marks@, 0));
        while k < self.entries.len()
            invariant
                k <= self.entries.len(),
                marks.len() == self.entries.len(),
                views(names@) == select_first(names_of(self@), marks@, k as nat),
            decreases self.entries.len() - k,
        {
            assert(names_of(self@)[k as int] == self.entries[k as int].name@);
            if marks[k] && !is_listed(&names, &self.entries[k].name) {
                let ghost before = views(names@);
                names.push(self.entries[k].name.clone());
                assert(views(names@) =~= before.push(self.entries[k as int].name@));
            }
            k += 1;
        }
        names
    }

    /// The modules that handle `url`, by the first of the three rules that
    /// names any. Fails where no rule names one.
    pub fn resolve(&self, url: &str) -> (found: Result<Vec<String>, ResolveError>)
        ensures
            match found {
                Ok(names) => names.len() > 0 && views(names@) == resolution(self@, url@),
                Err(e) => e == ResolveError::NoMatch && resolution(self@, url@).len() == 0,
            },
    {
        let text = chars_of(url);
        let protocol_marks = self.marks_by_protocol(&text);
        let by_protocol = self.select(&protocol_marks);
        if by_protocol.len() > 0 {
            return Ok(by_protocol);
        }
        match self.longest(&text) {
            Some(len) => {
                let prefix_marks = self.marks_by_prefix(&text, len);
                let by_prefix = self.select(&prefix_marks);
                if by_prefix.len() > 0 {
                    return Ok(by_prefix);
                }
            },
            None => {
                proof {
                    let marks = marks_of(self@, Rule::Prefix(-1), url@);
                    assert forall|k: int| 0 <= k < self@.len() implies !marks[k] by {
                        if claims(Rule::Prefix(-1), self@[k], url@) {
                            let i = choose|i: int| #[trigger]
                                prefix_hit(self@[k], i, url@) && self@[k].prefixes[i].len() == -1;
                        }
                    }
                    lemma_select_none(names_of(self@), marks, self@.len());
                }
            },
        }
        let pattern_marks = self.marks_by_pattern(url);
        let by_pattern = self.select(&pattern_marks);
        if by_pattern.len() > 0 {
            Ok(by_pattern)
        } else {
            Err(ResolveError::NoMatch)
        }
    }

    /// The modules that handle `url` once it is brought into normal form;
    /// a URL that has no normal form is taken as it is.
    pub fn resolve_url(&self, url: &str) -> (found: Result<Vec<String>, ResolveError>)
        ensures
            match found {
                Ok(names) => names.len() > 0 && views(names@) == resolution(
                    self@,
                    normalized_or_same(url@),
                ),
                Err(e) => e == ResolveError::NoMatch && resolution(
                    self@,
                    normalized_or_same(url@),
                ).len() == 0,
            },
    {
        let normal = normalize_or_keep(url);
        self.resolve(normal.as_str())
    }
}

} // verus!
