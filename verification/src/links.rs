//! The links of a module, in the order in which they are shown.
//!
//! Each link gets a score; links are shown with the highest score first, and
//! links of one score in the order in which the manifest lists them.

use crate::registry::github::{repository_name, repository_of};
use crate::text::{chars_of, contains, contains_text, ends_with, views};
use vstd::prelude::*;

verus! {

/// What is read of a link once it is parsed as a URL.
#[derive(Clone, Debug, PartialEq, Eq)]
pub struct LinkParts {
    /// The host, where the URL has one.
    pub host: Option<String>,
    pub path: String,
}

pub struct LinkPartsView {
    pub host: Option<Seq<char>>,
    pub path: Seq<char>,
}

impl View for LinkParts {
    type V = LinkPartsView;

    open spec fn view(&self) -> LinkPartsView {
        LinkPartsView {
            host: match self.host {
                Some(h) => Some(h@),
                None => None,
            },
            path: self.path@,
        }
    }
}

/// The host and the path of the URL that `reqwest::Url::parse` reads from
/// `link`, or nothing where it reads none.
pub uninterp spec fn link_parts(link: Seq<char>) -> Option<LinkPartsView>;

/// `reqwest::Url::parse`, of whose result the host (`host_str`) and the path
/// (`path`) are kept.
#[verifier::external_body]
fn parse_link(link: &str) -> (parsed: Option<LinkParts>)
    ensures
        match parsed {
            Some(parts) => link_parts(link@) == Some(parts@),
            None => link_parts(link@) is None,
        },
{
    let parsed = reqwest::Url::parse(link).ok()?;
    Some(
        LinkParts {
            host: parsed.host_str().map(|host| host.to_string()),
            path: parsed.path().to_string(),
        },
    )
}

/// The highest score that a link can get.
pub const TOP_SCORE: u8 = 15;

pub open spec fn points(earned: bool, worth: int) -> int {
    if earned {
        worth
    } else {
        0
    }
}

/// What the host of a link is worth: 2 for GitHub, 1 for a package index.
pub open spec fn host_score(host: Seq<char>) -> int {
    points("github.com"@.is_suffix_of(host), 2) + points(
        "crates.io"@.is_suffix_of(host) || "pypi.org"@.is_suffix_of(host)
            || "rubygems.org"@.is_suffix_of(host) || "npmjs.com"@.is_suffix_of(host),
        1,
    )
}

/// What the path of a link is worth: 3 where it names the repository of the
/// module, 2 where it names some module outside the common organisation, 1
/// where it lies under the common organisation.
pub open spec fn path_score(path: Seq<char>, module: Seq<char>) -> int {
    points(contains_text(path, repository_name(module)), 3) + points(
        contains_text(path, "asimov-"@) && contains_text(path, "-module"@) && !contains_text(
            path,
            "/asimov-modules/"@,
        ),
        2,
    ) + points(contains_text(path, "/asimov-modules/"@), 1)
}

/// The score of `link` for the module `module`, given what was read of the
/// link as a URL. A link that is no URL or has no host scores 0, any
/// other at least 1; 5 more where it points into the common organisation
/// on GitHub.
pub open spec fn score_of(link: Seq<char>, parts: Option<LinkPartsView>, module: Seq<char>) -> int {
    match parts {
        Some(LinkPartsView { host: Some(host), path }) => points(
            contains_text(link, "github.com/asimov-modules/"@),
            5,
        ) + host_score(host) + path_score(path, module) + 1,
        _ => 0,
    }
}

/// The score of `link` for the module `module`.
pub open spec fn link_score(link: Seq<char>, module: Seq<char>) -> int {
    score_of(link, link_parts(link), module)
}

fn has_ending(text: &Vec<char>, ending: &str) -> (found: bool)
    ensures
        found == ending@.is_suffix_of(text@),
{
    ends_with(text, &chars_of(ending))
}

fn holds(text: &Vec<char>, part: &str) -> (found: bool)
    ensures
        found == contains_text(text@, part@),
{
    contains(text, &chars_of(part))
}

fn score_host(host: &str) -> (score: u8)
    ensures
        score == host_score(host@),
{
    let text = chars_of(host);
    let mut score: u8 = 0;
    if has_ending(&text, "github.com") {
        score = 2;
    }
    if has_ending(&text, "crates.io") || has_ending(&text, "pypi.org") || has_ending(
        &text,
        "rubygems.org",
    ) || has_ending(&text, "npmjs.com") {
        score = score + 1;
    }
    score
}

fn score_path(path: &str, module_name: &str) -> (score: u8)
    ensures
        score == path_score(path@, module_name@),
{
    let text = chars_of(path);
    let mut score: u8 = 0;
    if holds(&text, repository_of(module_name).as_str()) {
        score = 3;
    }
    let shared = holds(&text, "/asimov-modules/");
    if holds(&text, "asimov-") && holds(&text, "-module") && !shared {
        score = score + 2;
    }
    if shared {
        score = score + 1;
    }
    score
}

/// The score of `link` for the module `module_name`, given what was read of
/// the link as a URL.
pub fn score_link(link: &str, parts: &Option<LinkParts>, module_name: &str) -> (score: u8)
    ensures
        score == score_of(
            link@,
            match parts {
                Some(p) => Some(p@),
                None => None,
            },
            module_name@,
        ),
        score <= TOP_SCORE,
{
    match parts {
        Some(LinkParts { host: Some(host), path }) => {
            let mut score: u8 = 1;
            if holds(&chars_of(link), "github.com/asimov-modules/") {
                score = 6;
            }
            score + score_host(host.as_str()) + score_path(path.as_str(), module_name)
        },
        _ => 0,
    }
}

/// The score of `link` for the module `module_name`.
pub fn rate_link(link: &str, module_name: &str) -> (score: u8)
    ensures
        score == link_score(link@, module_name@),
        score <= TOP_SCORE,
{
    let parts = parse_link(link);
    score_link(link, &parts, module_name)
}

/// Those of the first `n` links that have the score `score`, in order.
pub open spec fn with_score(links: Seq<Seq<char>>, module: Seq<char>, score: int, n: nat) -> Seq<
    Seq<char>,
>
    decreases n,
{
    if n == 0 {
        Seq::empty()
    } else {
        let before = with_score(links, module, score, (n - 1) as nat);
        if link_score(links[n - 1], module) == score {
            before.push(links[n - 1])
        } else {
            before
        }
    }
}

/// The links with a score from `top` down to `bottom`: those of the highest
/// score first, those of one score in their own order.
pub open spec fn ranked(links: Seq<Seq<char>>, module: Seq<char>, top: int, bottom: int) -> Seq<
    Seq<char>,
>
    decreases top - bottom + 1,
{
    if top < bottom {
        Seq::empty()
    } else {
        ranked(links, module, top, bottom + 1) + with_score(links, module, bottom, links.len())
    }
}

/// The links in the order in which they are shown.
pub open spec fn shown_order(links: Seq<Seq<char>>, module: Seq<char>) -> Seq<Seq<char>> {
    ranked(links, module, TOP_SCORE as int, 0)
}

fn rate_all(links: &Vec<String>, module_name: &str) -> (scores: Vec<u8>)
    ensures
        scores.len() == links.len(),
        forall|i: int|
            0 <= i < links.len() ==> #[trigger] scores@[i] == link_score(
                links@[i]@,
                module_name@,
            ),
{
    let mut scores: Vec<u8> = Vec::new();
    let mut i: usize = 0;
    while i < links.len()
        invariant
            i <= links.len(),
            scores.len() == i,
            forall|j: int|
                0 <= j < i ==> #[trigger] scores@[j] == link_score(links@[j]@, module_name@),
        decreases links.len() - i,
    {
        scores.push(rate_link(links[i].as_str(), module_name));
        i += 1;
    }
    scores
}

/// Brings `links` into the order in which they are shown for the module
/// `module_name`: by score, highest first, links of one score in the order
/// they had.
pub fn sort_links(module_name: &str, links: &mut Vec<String>)
    ensures
        views(final(links)@) == shown_order(views(old(links)@), module_name@),
{
    let scores = rate_all(links, module_name);
    let ghost given = views(links@);
    let mut sorted: Vec<String> = Vec::new();
    let mut remaining: u8 = TOP_SCORE + 1;
    assert(views(sorted@) =~= ranked(given, module_name@, TOP_SCORE as int, TOP_SCORE + 1));
    while remaining > 0
        invariant
            remaining <= TOP_SCORE + 1,
            given == views(links@),
            scores.len() == links.len(),
            forall|i: int|
                0 <= i < links.len() ==> #[trigger] scores@[i] == link_score(
                    links@[i]@,
                    module_name@,
                ),
            views(sorted@) == ranked(given, module_name@, TOP_SCORE as int, remaining as int),
        decreases remaining,
    {
        let wanted: u8 = remaining - 1;
        let ghost before = views(sorted@);
        let mut i: usize = 0;
        assert(views(sorted@) =~= before + with_score(given, module_name@, wanted as int, 0));
        while i < links.len()
            invariant
                i <= links.len(),
                given == views(links@),
                scores.len() == links.len(),
                forall|j: int|
                    0 <= j < links.len() ==> #[trigger] scores@[j] == link_score(
                        links@[j]@,
                        module_name@,
                    ),
                views(sorted@) == before + with_score(
                    given,
                    module_name@,
                    wanted as int,
                    i as nat,
                ),
            decreases links.len() - i,
        {
            assert(given[i as int] == links@[i as int]@);
            if scores[i] == wanted {
                let ghost so_far = views(sorted@);
                sorted.push(links[i].clone());
                assert(views(sorted@) =~= so_far.push(links@[i as int]@));
                assert(views(sorted@) =~= before + with_score(
                    given,
                    module_name@,
                    wanted as int,
                    (i + 1) as nat,
                ));
            }
            i += 1;
        }
        remaining = wanted;
    }
    *links = sorted;
}

/// The link that is opened for a module: the first in the order in which
/// its links are shown, if it has any.
pub fn best_link(module_name: &str, links: &Vec<String>) -> (best: Option<String>)
    ensures
        match best {
            Some(link) => links.len() > 0 && shown_order(views(links@), module_name@).len() > 0
                && link@ == shown_order(views(links@), module_name@)[0],
            None => links.len() == 0,
        },
{
    let mut sorted: Vec<String> = Vec::new();
    let mut i: usize = 0;
    while i < links.len()
        invariant
            i <= links.len(),
            sorted.len() == i,
            forall|j: int| 0 <= j < i ==> (#[trigger] sorted@[j])@ == links@[j]@,
        decreases links.len() - i,
    {
        sorted.push(links[i].clone());
        i += 1;
    }
    assert(views(sorted@) =~= views(links@));
    sort_links(module_name, &mut sorted);
    proof {
        law_shown_order_keeps_all(views(links@), module_name@);
    }
    if sorted.len() == 0 {
        None
    } else {
        Some(sorted[0].clone())
    }
}

/// The number of the first `n` links whose score lies from `bottom` to `top`.
pub open spec fn count_between(
    links: Seq<Seq<char>>,
    module: Seq<char>,
    top: int,
    bottom: int,
    n: nat,
) -> nat
    decreases n,
{
    if n == 0 {
        0
    } else {
        count_between(links, module, top, bottom, (n - 1) as nat) + if bottom <= link_score(
            links[n - 1],
            module,
        ) <= top {
            1nat
        } else {
            0nat
        }
    }
}

proof fn lemma_count_split(links: Seq<Seq<char>>, module: Seq<char>, top: int, bottom: int, n: nat)
    requires
        bottom <= top,
    ensures
        count_between(links, module, top, bottom, n) == count_between(
            links,
            module,
            top,
            bottom + 1,
            n,
        ) + with_score(links, module, bottom, n).len(),
    decreases n,
{
    if n > 0 {
        lemma_count_split(links, module, top, bottom, (n - 1) as nat);
    }
}

proof fn lemma_count_none(links: Seq<Seq<char>>, module: Seq<char>, top: int, bottom: int, n: nat)
    requires
        top < bottom,
    ensures
        count_between(links, module, top, bottom, n) == 0,
    decreases n,
{
    if n > 0 {
        lemma_count_none(links, module, top, bottom, (n - 1) as nat);
    }
}

proof fn lemma_ranked_len(links: Seq<Seq<char>>, module: Seq<char>, top: int, bottom: int)
    ensures
        ranked(links, module, top, bottom).len() == count_between(
            links,
            module,
            top,
            bottom,
            links.len(),
        ),
    decreases top - bottom + 1,
{
    if top < bottom {
        lemma_count_none(links, module, top, bottom, links.len());
    } else {
        lemma_ranked_len(links, module, top, bottom + 1);
        lemma_count_split(links, module, top, bottom, links.len());
    }
}

proof fn lemma_score_range(link: Seq<char>, module: Seq<char>)
    ensures
        0 <= link_score(link, module) <= TOP_SCORE,
{
}

proof fn lemma_count_all(links: Seq<Seq<char>>, module: Seq<char>, n: nat)
    ensures
        count_between(links, module, TOP_SCORE as int, 0, n) == n,
    decreases n,
{
    if n > 0 {
        lemma_count_all(links, module, (n - 1) as nat);
        lemma_score_range(links[n - 1], module);
    }
}

/// The order in which links are shown holds as many links as there are.
pub proof fn law_shown_order_keeps_all(links: Seq<Seq<char>>, module: Seq<char>)
    ensures
        shown_order(links, module).len() == links.len(),
{
    lemma_ranked_len(links, module, TOP_SCORE as int, 0);
    lemma_count_all(links, module, links.len());
}

/// Each of the links picked out for a score is one of the links and has
/// that score.
proof fn lemma_with_score(links: Seq<Seq<char>>, module: Seq<char>, score: int, n: nat)
    requires
        n <= links.len(),
    ensures
        forall|i: int|
            0 <= i < with_score(links, module, score, n).len() ==> link_score(
                #[trigger] with_score(links, module, score, n)[i],
                module,
            ) == score && links.contains(with_score(links, module, score, n)[i]),
    decreases n,
{
    if n > 0 {
        lemma_with_score(links, module, score, (n - 1) as nat);
        let before = with_score(links, module, score, (n - 1) as nat);
        let now = with_score(links, module, score, n);
        assert forall|i: int| 0 <= i < now.len() implies link_score(#[trigger] now[i], module)
            == score && links.contains(now[i]) by {
            if i < before.len() {
                assert(now[i] == before[i]);
            } else {
                assert(now[i] == links[n - 1]);
            }
        }
    }
}

/// In the order in which links are shown no link stands before a link with
/// a higher score, and every link shown is one of the links.
pub proof fn law_shown_order_descends(links: Seq<Seq<char>>, module: Seq<char>)
    ensures
        forall|i: int, j: int|
            0 <= i < j < shown_order(links, module).len() ==> link_score(
                #[trigger] shown_order(links, module)[i],
                module,
            ) >= link_score(#[trigger] shown_order(links, module)[j], module),
        forall|i: int|
            0 <= i < shown_order(links, module).len() ==> links.contains(
                #[trigger] shown_order(links, module)[i],
            ),
{
    lemma_ranked_descends(links, module, TOP_SCORE as int, 0);
}

proof fn lemma_ranked_descends(links: Seq<Seq<char>>, module: Seq<char>, top: int, bottom: int)
    ensures
        forall|i: int|
            0 <= i < ranked(links, module, top, bottom).len() ==> bottom <= link_score(
                #[trigger] ranked(links, module, top, bottom)[i],
                module,
            ) <= top && links.contains(ranked(links, module, top, bottom)[i]),
        forall|i: int, j: int|
            0 <= i < j < ranked(links, module, top, bottom).len() ==> link_score(
                #[trigger] ranked(links, module, top, bottom)[i],
                module,
            ) >= link_score(#[trigger] ranked(links, module, top, bottom)[j], module),
    decreases top - bottom + 1,
{
    if top >= bottom {
        lemma_ranked_descends(links, module, top, bottom + 1);
        lemma_with_score(links, module, bottom, links.len());
        let higher = ranked(links, module, top, bottom + 1);
        let lowest = with_score(links, module, bottom, links.len());
        let all = ranked(links, module, top, bottom);
        assert(all == higher + lowest);
        assert forall|i: int| 0 <= i < all.len() implies bottom <= link_score(
            #[trigger] all[i],
            module,
        ) <= top && links.contains(all[i]) by {
            if i < higher.len() {
                assert(all[i] == higher[i]);
            } else {
                assert(all[i] == lowest[i - higher.len()]);
            }
        }
        assert forall|i: int, j: int| 0 <= i < j < all.len() implies link_score(
            #[trigger] all[i],
            module,
        ) >= link_score(#[trigger] all[j], module) by {
            if j < higher.len() {
                assert(all[i] == higher[i] && all[j] == higher[j]);
            } else if i < higher.len() {
                assert(all[i] == higher[i] && all[j] == lowest[j - higher.len()]);
            } else {
                assert(all[i] == lowest[i - higher.len()] && all[j] == lowest[j - higher.len()]);
            }
        }
    }
}

/// Those of the first `n` links whose score lies from `bottom` to `top`, in
/// order.
spec fn scored_between(links: Seq<Seq<char>>, module: Seq<char>, top: int, bottom: int, n: nat) -> Seq<
    Seq<char>,
>
    decreases n,
{
    if n == 0 {
        Seq::empty()
    } else {
        let before = scored_between(links, module, top, bottom, (n - 1) as nat);
        if bottom <= link_score(links[n - 1], module) <= top {
            before.push(links[n - 1])
        } else {
            before
        }
    }
}

proof fn lemma_scored_split(links: Seq<Seq<char>>, module: Seq<char>, top: int, bottom: int, n: nat)
    requires
        bottom <= top,
        n <= links.len(),
    ensures
        scored_between(links, module, top, bottom, n).to_multiset() == scored_between(
            links,
            module,
            top,
            bottom + 1,
            n,
        ).to_multiset().add(with_score(links, module, bottom, n).to_multiset()),
    decreases n,
{
    broadcast use {vstd::seq_lib::to_multiset_build, vstd::multiset::group_multiset_axioms};

    if n > 0 {
        lemma_scored_split(links, module, top, bottom, (n - 1) as nat);
        let all = scored_between(links, module, top, bottom, (n - 1) as nat);
        let higher = scored_between(links, module, top, bottom + 1, (n - 1) as nat);
        let lowest = with_score(links, module, bottom, (n - 1) as nat);
        let link = links[n - 1];
        let score = link_score(link, module);
        if score == bottom {
            assert(all.to_multiset().insert(link) =~= higher.to_multiset().add(
                lowest.to_multiset().insert(link),
            ));
        } else if bottom < score <= top {
            assert(all.to_multiset().insert(link) =~= higher.to_multiset().insert(link).add(
                lowest.to_multiset(),
            ));
        }
    } else {
        let none = Seq::<Seq<char>>::empty();
        none.to_multiset_ensures();
        assert forall|link: Seq<char>| none.to_multiset().count(link) == 0 by {
            assert(!none.contains(link));
        }
        assert(none.to_multiset() =~= vstd::multiset::Multiset::<Seq<char>>::empty());
        assert(none.to_multiset() =~= none.to_multiset().add(none.to_multiset()));
    }
}

proof fn lemma_scored_none(links: Seq<Seq<char>>, module: Seq<char>, top: int, bottom: int, n: nat)
    requires
        top < bottom,
    ensures
        scored_between(links, module, top, bottom, n) == Seq::<Seq<char>>::empty(),
    decreases n,
{
    if n > 0 {
        lemma_scored_none(links, module, top, bottom, (n - 1) as nat);
    }
}

proof fn lemma_scored_all(links: Seq<Seq<char>>, module: Seq<char>, n: nat)
    requires
        n <= links.len(),
    ensures
        scored_between(links, module, TOP_SCORE as int, 0, n) == links.take(n as int),
    decreases n,
{
    if n > 0 {
        lemma_scored_all(links, module, (n - 1) as nat);
        lemma_score_range(links[n - 1], module);
        assert(links.take(n as int) =~= links.take(n - 1).push(links[n - 1]));
    } else {
        assert(links.take(0) =~= Seq::<Seq<char>>::empty());
    }
}

proof fn lemma_ranked_is_scored(links: Seq<Seq<char>>, module: Seq<char>, top: int, bottom: int)
    ensures
        ranked(links, module, top, bottom).to_multiset() == scored_between(
            links,
            module,
            top,
            bottom,
            links.len(),
        ).to_multiset(),
    decreases top - bottom + 1,
{
    broadcast use vstd::seq_lib::lemma_multiset_commutative;

    if top < bottom {
        lemma_scored_none(links, module, top, bottom, links.len());
    } else {
        lemma_ranked_is_scored(links, module, top, bottom + 1);
        lemma_scored_split(links, module, top, bottom, links.len());
    }
}

/// The order in which links are shown holds each link as often as it is
/// among the links: showing rearranges the links and does no more.
pub proof fn law_shown_order_rearranges(links: Seq<Seq<char>>, module: Seq<char>)
    ensures
        shown_order(links, module).to_multiset() == links.to_multiset(),
{
    lemma_ranked_is_scored(links, module, TOP_SCORE as int, 0);
    lemma_scored_all(links, module, links.len());
    assert(links.take(links.len() as int) =~= links);
}

} // verus!
