//! The modules that the crates.io index lists.

use crate::registry::{metadata_views, modules_among, modules_of, ModuleMetadata, ModuleType};
use crate::text::{chars_of, is_space, is_space_char, slice_of, string_of, views};
use vstd::prelude::*;

verus! {

/// One line of a crate's index file: a published version and what it depends on.
#[derive(Debug)]
pub struct CrateVersion {
    pub name: String,
    pub vers: String,
    pub deps: Vec<Dependency>,
    pub yanked: bool,
}

/// One dependency of a published crate version.
#[derive(Debug, Clone)]
pub struct Dependency {
    pub name: String,
    pub req: String,
    pub optional: bool,
    pub kind: String,
}

/// The names of the dependencies, in order.
pub open spec fn dependency_names(deps: Seq<Dependency>) -> Seq<Seq<char>> {
    Seq::new(deps.len(), |i: int| deps[i].name@)
}

fn names_of(deps: &Vec<Dependency>) -> (names: Vec<String>)
    ensures
        views(names@) == dependency_names(deps@),
        names.len() == deps.len(),
{
    let mut names: Vec<String> = Vec::new();
    let mut i: usize = 0;
    while i < deps.len()
        invariant
            i <= deps.len(),
            names.len() == i,
            forall|j: int| 0 <= j < i ==> (#[trigger] names@[j])@ == deps@[j].name@,
        decreases deps.len() - i,
    {
        names.push(deps[i].name.clone());
        i += 1;
    }
    assert(views(names@) =~= dependency_names(deps@));
    names
}

/// The modules that the version of the collection crate depends on, each
/// with the version of the collection.
pub fn extract_module_names(crate_version: &CrateVersion) -> (modules: Vec<ModuleMetadata>)
    ensures
        metadata_views(modules@) == modules_among(
            dependency_names(crate_version.deps@),
            crate_version.vers@,
            ModuleType::Rust,
            crate_version.deps.len() as nat,
        ),
{
    let names = names_of(&crate_version.deps);
    modules_of(&names, crate_version.vers.as_str(), ModuleType::Rust)
}

/// Whether the text from `from` up to `to` holds only white space.
pub open spec fn is_blank(text: Seq<char>, from: int, to: int) -> bool {
    forall|i: int| from <= i < to ==> is_space(#[trigger] text[i])
}

/// `to` ends a line of `text` that begins at `from`: the line runs up to a
/// line feed or the end of the text, and holds no line feed.
pub open spec fn is_line(text: Seq<char>, from: int, to: int) -> bool {
    &&& 0 <= from <= to <= text.len()
    &&& from == 0 || text[from - 1] == '\n'
    &&& to == text.len() || text[to] == '\n'
    &&& forall|i: int| from <= i < to ==> #[trigger] text[i] != '\n'
}

/// The line of `text` from `from` to `end` is the last that holds more than
/// white space, and `to` is where it ends once a carriage return that stands
/// before the line feed is left off.
pub open spec fn is_last_filled_line(text: Seq<char>, from: int, to: int, end: int) -> bool {
    &&& is_line(text, from, end)
    &&& !is_blank(text, from, end)
    &&& is_blank(text, end, text.len() as int)
    &&& to == (if end < text.len() && end > from && text[end - 1] == '\r' {
        end - 1
    } else {
        end
    })
}

/// Where the line that ends at `end` begins, and whether the line holds more
/// than white space.
fn line_before(text: &Vec<char>, end: usize) -> (found: (usize, bool))
    requires
        end <= text.len(),
        end == text.len() || text@[end as int] == '\n',
    ensures
        is_line(text@, found.0 as int, end as int),
        found.1 == !is_blank(text@, found.0 as int, end as int),
{
    let mut from: usize = end;
    let mut filled = false;
    while from > 0 && text[from - 1] != '\n'
        invariant
            from <= end <= text.len(),
            forall|i: int| from <= i < end ==> #[trigger] text@[i] != '\n',
            filled == !is_blank(text@, from as int, end as int),
        decreases from,
    {
        from -= 1;
        if !is_space_char(text[from]) {
            filled = true;
        }
    }
    (from, filled)
}

/// The bounds of the last line of `text` that holds more than white space,
/// if there is one. A carriage return before the line feed is not part of
/// the line.
pub fn last_filled_line(text: &Vec<char>) -> (bounds: Option<(usize, usize)>)
    ensures
        bounds matches Some(b) ==> b.0 <= b.1 <= text.len() && exists|end: int|
            is_last_filled_line(text@, b.0 as int, b.1 as int, end),
        bounds is None ==> is_blank(text@, 0, text.len() as int),
{
    let mut end: usize = text.len();
    loop
        invariant
            end <= text.len(),
            end == text.len() || text@[end as int] == '\n',
            is_blank(text@, end as int, text.len() as int),
        decreases end,
    {
        let (from, filled) = line_before(text, end);
        if filled {
            let to = if end < text.len() && end > from && text[end - 1] == '\r' {
                end - 1
            } else {
                end
            };
            assert(is_last_filled_line(text@, from as int, to as int, end as int));
            return Some((from, to));
        }
        if from == 0 {
            proof {
                lemma_blank_joined(text@, 0, end as int, text.len() as int);
            }
            return None;
        }
        proof {
            assert(is_space('\n'));
            assert(is_blank(text@, from - 1, from as int));
            lemma_blank_joined(text@, from - 1, from as int, end as int);
            lemma_blank_joined(text@, from - 1, end as int, text.len() as int);
        }
        end = from - 1;
    }
}

proof fn lemma_blank_joined(text: Seq<char>, from: int, mid: int, to: int)
    requires
        from <= mid <= to,
        is_blank(text, from, mid),
        is_blank(text, mid, to),
    ensures
        is_blank(text, from, to),
{
    assert forall|i: int| from <= i < to implies is_space(#[trigger] text[i]) by {
        if i < mid {
        } else {
        }
    }
}

/// The last line of an index file that holds more than white space, which
/// describes the newest version; empty where the file has no such line.
pub fn newest_entry(index_file: &str) -> (line: String)
    ensures
        is_blank(index_file@, 0, index_file@.len() as int) ==> line@.len() == 0,
        !is_blank(index_file@, 0, index_file@.len() as int) ==> exists|from: int, to: int, end: int|
            #[trigger] is_last_filled_line(index_file@, from, to, end) && line@
                == index_file@.subrange(from, to),
{
    let text = chars_of(index_file);
    match last_filled_line(&text) {
        Some((from, to)) => {
            proof {
                let end = choose|end: int| is_last_filled_line(text@, from as int, to as int, end);
                assert(is_last_filled_line(index_file@, from as int, to as int, end));
                assert(!is_blank(text@, 0, text.len() as int)) by {
                    let i = choose|i: int| from <= i < end && !is_space(#[trigger] text@[i]);
                    assert(!is_space(text@[i]));
                }
            }
            string_of(&slice_of(&text, from, to))
        },
        None => String::new(),
    }
}

} // verus!
