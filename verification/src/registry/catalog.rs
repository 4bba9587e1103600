//! One catalogue out of the lists of the three package indexes.

use crate::registry::{metadata_views, position_of, MetadataView, ModuleMetadata, ModuleType};
use crate::text::chars_of;
use vstd::prelude::*;

verus! {

/// How one text stands to another in the dictionary.
#[derive(Clone, Copy, Debug, PartialEq, Eq, Structural)]
pub enum Order {
    Before,
    Same,
    After,
}

/// `a` comes before `b` in the dictionary: at the first place where they
/// differ `a` has the smaller character, or `a` ends there and `b` does not.
pub open spec fn comes_before(a: Seq<char>, b: Seq<char>) -> bool
    decreases a.len(),
{
    if b.len() == 0 {
        false
    } else if a.len() == 0 {
        true
    } else if a[0] == b[0] {
        comes_before(a.drop_first(), b.drop_first())
    } else {
        a[0] < b[0]
    }
}

/// No text comes before itself.
pub proof fn lemma_never_before_itself(a: Seq<char>)
    ensures
        !comes_before(a, a),
    decreases a.len(),
{
    if a.len() > 0 {
        lemma_never_before_itself(a.drop_first());
    }
}

/// What comes before a text comes before all that the text comes before.
pub proof fn lemma_before_is_transitive(a: Seq<char>, b: Seq<char>, c: Seq<char>)
    requires
        comes_before(a, b),
        comes_before(b, c),
    ensures
        comes_before(a, c),
    decreases a.len(),
{
    if a.len() > 0 && a[0] == b[0] && b[0] == c[0] {
        lemma_before_is_transitive(a.drop_first(), b.drop_first(), c.drop_first());
    }
}

/// Of two texts that differ one comes before the other.
pub proof fn law_order_is_total(a: Seq<char>, b: Seq<char>)
    ensures
        a == b || comes_before(a, b) || comes_before(b, a),
    decreases a.len(),
{
    if a.len() > 0 && b.len() > 0 && a[0] == b[0] {
        law_order_is_total(a.drop_first(), b.drop_first());
        if a.drop_first() == b.drop_first() {
            assert(a =~= seq![a[0]] + a.drop_first());
            assert(b =~= seq![b[0]] + b.drop_first());
        }
    } else if a.len() == 0 && b.len() == 0 {
        assert(a =~= b);
    }
}

/// Texts that agree on their first `n` characters stand to each other as
/// what follows those characters.
proof fn lemma_common_start(a: Seq<char>, b: Seq<char>, n: int)
    requires
        0 <= n <= a.len(),
        n <= b.len(),
        forall|i: int| 0 <= i < n ==> a[i] == b[i],
    ensures
        comes_before(a, b) == comes_before(a.skip(n), b.skip(n)),
        comes_before(b, a) == comes_before(b.skip(n), a.skip(n)),
    decreases n,
{
    if n == 0 {
        assert(a.skip(0) =~= a);
        assert(b.skip(0) =~= b);
    } else {
        assert(a[0] == b[0]);
        let a1 = a.drop_first();
        let b1 = b.drop_first();
        assert forall|i: int| 0 <= i < n - 1 implies a1[i] == b1[i] by {
            assert(a1[i] == a[i + 1]);
            assert(b1[i] == b[i + 1]);
        }
        lemma_common_start(a1, b1, n - 1);
        assert(a1.skip(n - 1) =~= a.skip(n));
        assert(b1.skip(n - 1) =~= b.skip(n));
    }
}

/// How `a` stands to `b` in the dictionary.
pub fn compare(a: &Vec<char>, b: &Vec<char>) -> (order: Order)
    ensures
        order == Order::Before <==> comes_before(a@, b@),
        order == Order::Same <==> a@ == b@,
        order == Order::After <==> comes_before(b@, a@),
{
    let mut i: usize = 0;
    while i < a.len() && i < b.len()
        invariant
            i <= a.len(),
            i <= b.len(),
            forall|j: int| 0 <= j < i ==> a@[j] == b@[j],
        decreases a.len() - i,
    {
        if a[i] != b[i] {
            proof {
                lemma_common_start(a@, b@, i as int);
                assert(a@.skip(i as int)[0] == a@[i as int]);
                assert(b@.skip(i as int)[0] == b@[i as int]);
                assert(a@ != b@);
            }
            return if a[i] < b[i] {
                Order::Before
            } else {
                Order::After
            };
        }
        i += 1;
    }
    proof {
        lemma_common_start(a@, b@, i as int);
        if a.len() == b.len() {
            assert(a@ =~= b@);
            lemma_never_before_itself(a@);
        } else {
            assert(a@ != b@);
        }
    }
    if a.len() == b.len() {
        Order::Same
    } else if a.len() < b.len() {
        Order::Before
    } else {
        Order::After
    }
}

/// The entries stand in the order of their names, and no name stands twice.
pub open spec fn ascending(entries: Seq<MetadataView>) -> bool {
    forall|i: int, j: int|
        0 <= i < j < entries.len() ==> comes_before(
            (#[trigger] entries[i]).name,
            (#[trigger] entries[j]).name,
        )
}

/// One of the entries bears the name.
pub open spec fn has_name(entries: Seq<MetadataView>, name: Seq<char>) -> bool {
    exists|i: int| 0 <= i < entries.len() && (#[trigger] entries[i]).name == name
}

/// `catalogue` is the catalogue of `listed`: it holds, in the order of
/// their names, for each name that is listed the first entry listed under it.
pub open spec fn is_catalogue_of(catalogue: Seq<MetadataView>, listed: Seq<MetadataView>) -> bool {
    &&& ascending(catalogue)
    &&& forall|i: int|
        0 <= i < catalogue.len() ==> {
            let at = position_of(listed, (#[trigger] catalogue[i]).name, listed.len());
            0 <= at < listed.len() && listed[at] == catalogue[i]
        }
    &&& forall|k: int| 0 <= k < listed.len() ==> has_name(catalogue, (#[trigger] listed[k]).name)
}

/// Where the entry for `name` stands or would stand.
fn slot_for(catalogue: &Vec<ModuleMetadata>, name: &Vec<char>) -> (slot: (usize, bool))
    requires
        ascending(metadata_views(catalogue@)),
    ensures
        slot.0 <= catalogue.len(),
        forall|i: int|
            0 <= i < slot.0 ==> comes_before((#[trigger] metadata_views(catalogue@)[i]).name, name@),
        slot.1 ==> slot.0 < catalogue.len() && metadata_views(catalogue@)[slot.0 as int].name
            == name@,
        !slot.1 ==> forall|i: int|
            slot.0 <= i < catalogue.len() ==> comes_before(
                name@,
                (#[trigger] metadata_views(catalogue@)[i]).name,
            ),
{
    let ghost entries = metadata_views(catalogue@);
    let mut at: usize = 0;
    while at < catalogue.len()
        invariant
            at <= catalogue.len(),
            entries == metadata_views(catalogue@),
            ascending(entries),
            forall|i: int| 0 <= i < at ==> comes_before((#[trigger] entries[i]).name, name@),
        decreases catalogue.len() - at,
    {
        let here = chars_of(catalogue[at].name.as_str());
        assert(entries[at as int].name == here@);
        match compare(&here, name) {
            Order::Before => {},
            Order::Same => {
                return (at, true);
            },
            Order::After => {
                proof {
                    assert forall|i: int| at <= i < catalogue.len() implies comes_before(
                        name@,
                        (#[trigger] entries[i]).name,
                    ) by {
                        if i > at {
                            assert(comes_before(entries[at as int].name, entries[i].name));
                            lemma_before_is_transitive(
                                name@,
                                entries[at as int].name,
                                entries[i].name,
                            );
                        }
                    }
                }
                return (at, false);
            },
        }
        at += 1;
    }
    (at, false)
}

/// Adding an entry under a name that is listed already changes nothing of
/// where names are first listed.
proof fn lemma_position_kept(listed: Seq<MetadataView>, entry: MetadataView, name: Seq<char>)
    requires
        position_of(listed, name, listed.len()) >= 0,
    ensures
        position_of(listed.push(entry), name, listed.len() + 1) == position_of(
            listed,
            name,
            listed.len(),
        ),
{
    lemma_position_same(listed, listed.push(entry), name, listed.len());
}

/// Where a name is first listed depends on the entries up to there alone.
proof fn lemma_position_same(a: Seq<MetadataView>, b: Seq<MetadataView>, name: Seq<char>, n: nat)
    requires
        n <= a.len(),
        n <= b.len(),
        forall|i: int| 0 <= i < n ==> a[i] == b[i],
    ensures
        position_of(a, name, n) == position_of(b, name, n),
    decreases n,
{
    if n > 0 {
        lemma_position_same(a, b, name, (n - 1) as nat);
    }
}

/// A name that no entry bears is listed nowhere.
proof fn lemma_position_none(listed: Seq<MetadataView>, name: Seq<char>, n: nat)
    requires
        n <= listed.len(),
        forall|k: int| 0 <= k < n ==> (#[trigger] listed[k]).name != name,
    ensures
        position_of(listed, name, n) == -1,
    decreases n,
{
    if n > 0 {
        lemma_position_none(listed, name, (n - 1) as nat);
    }
}

/// Takes `entry` into the catalogue, unless the catalogue has an entry of
/// that name.
fn enter(catalogue: &mut Vec<ModuleMetadata>, entry: ModuleMetadata, Ghost(listed): Ghost<
    Seq<MetadataView>,
>)
    requires
        is_catalogue_of(metadata_views(old(catalogue)@), listed),
    ensures
        is_catalogue_of(metadata_views(final(catalogue)@), listed.push(entry@)),
{
    let ghost before = metadata_views(catalogue@);
    let ghost now_listed = listed.push(entry@);
    let name = chars_of(entry.name.as_str());
    let (at, taken) = slot_for(catalogue, &name);
    proof {
        lemma_position_same(listed, now_listed, entry@.name, listed.len());
    }
    if taken {
        proof {
            assert forall|i: int| 0 <= i < before.len() implies {
                let p = position_of(now_listed, (#[trigger] before[i]).name, now_listed.len());
                0 <= p < now_listed.len() && now_listed[p] == before[i]
            } by {
                lemma_position_kept(listed, entry@, before[i].name);
                let p = position_of(listed, before[i].name, listed.len());
                assert(now_listed[p] == listed[p]);
            }
            assert forall|k: int| 0 <= k < now_listed.len() implies has_name(
                before,
                (#[trigger] now_listed[k]).name,
            ) by {
                if k < listed.len() {
                    assert(now_listed[k] == listed[k]);
                } else {
                    assert(before[at as int].name == entry@.name);
                }
            }
        }
        return ;
    }
    catalogue.insert(at, entry);
    proof {
        let after = metadata_views(catalogue@);
        assert(after =~= before.insert(at as int, entry@));
        assert forall|i: int| 0 <= i < before.len() implies (#[trigger] before[i]).name
            != entry@.name by {
            if i < at {
                lemma_never_before_itself(entry@.name);
            } else {
                lemma_never_before_itself(entry@.name);
            }
        }
        assert forall|k: int| 0 <= k < listed.len() implies (#[trigger] listed[k]).name
            != entry@.name by {
            if listed[k].name == entry@.name {
                assert(has_name(before, listed[k].name));
            }
        }
        lemma_position_none(listed, entry@.name, listed.len());
        assert forall|i: int, j: int| 0 <= i < j < after.len() implies comes_before(
            (#[trigger] after[i]).name,
            (#[trigger] after[j]).name,
        ) by {
            if j < at {
                assert(after[i] == before[i] && after[j] == before[j]);
            } else if j == at {
                assert(after[i] == before[i]);
            } else if i < at {
                assert(after[i] == before[i] && after[j] == before[j - 1]);
            } else if i == at {
                assert(after[j] == before[j - 1]);
            } else {
                assert(after[i] == before[i - 1] && after[j] == before[j - 1]);
            }
        }
        assert forall|i: int| 0 <= i < after.len() implies {
            let p = position_of(now_listed, (#[trigger] after[i]).name, now_listed.len());
            0 <= p < now_listed.len() && now_listed[p] == after[i]
        } by {
            if i == at {
                assert(position_of(now_listed, entry@.name, now_listed.len()) == listed.len());
            } else {
                let old_i = if i < at {
                    i
                } else {
                    i - 1
                };
                assert(after[i] == before[old_i]);
                lemma_position_kept(listed, entry@, before[old_i].name);
                let p = position_of(listed, before[old_i].name, listed.len());
                assert(now_listed[p] == listed[p]);
            }
        }
        assert forall|k: int| 0 <= k < now_listed.len() implies has_name(
            after,
            (#[trigger] now_listed[k]).name,
        ) by {
            if k < listed.len() {
                assert(now_listed[k] == listed[k]);
                let i = choose|i: int| 0 <= i < before.len() && (#[trigger] before[i]).name
                    == listed[k].name;
                let new_i = if i < at {
                    i
                } else {
                    i + 1
                };
                assert(after[new_i] == before[i]);
            } else {
                assert(after[at as int].name == entry@.name);
            }
        }
    }
}

fn copy_entry(entry: &ModuleMetadata) -> (copy: ModuleMetadata)
    ensures
        copy@ == entry@,
{
    ModuleMetadata {
        name: entry.name.clone(),
        version: entry.version.clone(),
        kind: entry.kind,
        url: entry.url.clone(),
    }
}

fn enter_all(catalogue: &mut Vec<ModuleMetadata>, list: &Vec<ModuleMetadata>, Ghost(listed): Ghost<
    Seq<MetadataView>,
>)
    requires
        is_catalogue_of(metadata_views(old(catalogue)@), listed),
    ensures
        is_catalogue_of(metadata_views(final(catalogue)@), listed + metadata_views(list@)),
{
    let mut i: usize = 0;
    assert(listed + metadata_views(list@).take(0) =~= listed);
    while i < list.len()
        invariant
            i <= list.len(),
            is_catalogue_of(
                metadata_views(catalogue@),
                listed + metadata_views(list@).take(i as int),
            ),
        decreases list.len() - i,
    {
        let entry = copy_entry(&list[i]);
        let ghost so_far = listed + metadata_views(list@).take(i as int);
        enter(catalogue, entry, Ghost(so_far));
        assert(so_far.push(entry@) =~= listed + metadata_views(list@).take(i + 1));
        i += 1;
    }
    assert(metadata_views(list@).take(list.len() as int) =~= metadata_views(list@));
}

/// The catalogue of the modules that the three indexes list: ordered by
/// name, each name once, with the entry of the first index that lists it.
pub fn merge_modules(
    rust: &Vec<ModuleMetadata>,
    ruby: &Vec<ModuleMetadata>,
    python: &Vec<ModuleMetadata>,
) -> (catalogue: Vec<ModuleMetadata>)
    ensures
        is_catalogue_of(
            metadata_views(catalogue@),
            metadata_views(rust@) + metadata_views(ruby@) + metadata_views(python@),
        ),
{
    let mut catalogue: Vec<ModuleMetadata> = Vec::new();
    let ghost nothing = Seq::<MetadataView>::empty();
    assert(is_catalogue_of(metadata_views(catalogue@), nothing));
    enter_all(&mut catalogue, rust, Ghost(nothing));
    assert(nothing + metadata_views(rust@) =~= metadata_views(rust@));
    enter_all(&mut catalogue, ruby, Ghost(metadata_views(rust@)));
    enter_all(&mut catalogue, python, Ghost(metadata_views(rust@) + metadata_views(ruby@)));
    catalogue
}

/// What went wrong with an index.
#[derive(Clone, Copy, Debug, PartialEq, Eq, Structural)]
pub enum Cause {
    /// Its answer did not arrive.
    Fetch,
    /// Its answer could not be read.
    Parse,
    /// The task that asked it did not end.
    Join,
}

/// The failure of one index.
#[derive(Clone, Copy, Debug, PartialEq, Eq, Structural)]
pub struct RegistryError {
    pub index: ModuleType,
    pub cause: Cause,
}

impl RegistryError {
    /// The exit status that reports the failure: 69 where the index was not
    /// available, 65 where its data was bad, 70 for a fault of the program.
    pub fn exit_code(&self) -> (code: u8)
        ensures
            code == match self.cause {
                Cause::Fetch => 69u8,
                Cause::Parse => 65u8,
                Cause::Join => 70u8,
            },
    {
        match self.cause {
            Cause::Fetch => 69,
            Cause::Parse => 65,
            Cause::Join => 70,
        }
    }
}

/// The catalogue, once all three indexes have answered: their lists merged
/// where all are there, else the failure of the first that failed, Rust
/// before Ruby before Python.
pub fn collect_modules(
    rust: Result<Vec<ModuleMetadata>, RegistryError>,
    ruby: Result<Vec<ModuleMetadata>, RegistryError>,
    python: Result<Vec<ModuleMetadata>, RegistryError>,
) -> (catalogue: Result<Vec<ModuleMetadata>, RegistryError>)
    ensures
        match (rust, ruby, python) {
            (Ok(a), Ok(b), Ok(c)) => catalogue is Ok && is_catalogue_of(
                metadata_views(catalogue->Ok_0@),
                metadata_views(a@) + metadata_views(b@) + metadata_views(c@),
            ),
            (Err(e), _, _) => catalogue == Err::<Vec<ModuleMetadata>, RegistryError>(e),
            (Ok(_), Err(e), _) => catalogue == Err::<Vec<ModuleMetadata>, RegistryError>(e),
            (Ok(_), Ok(_), Err(e)) => catalogue == Err::<Vec<ModuleMetadata>, RegistryError>(e),
        },
{
    let rust = match rust {
        Ok(list) => list,
        Err(e) => {
            return Err(e);
        },
    };
    let ruby = match ruby {
        Ok(list) => list,
        Err(e) => {
            return Err(e);
        },
    };
    let python = match python {
        Ok(list) => list,
        Err(e) => {
            return Err(e);
        },
    };
    Ok(merge_modules(&rust, &ruby, &python))
}

/// The list of an index that has answered, or nothing for one that failed.
pub open spec fn listed_by(answer: Result<Vec<ModuleMetadata>, RegistryError>) -> Seq<MetadataView> {
    match answer {
        Ok(list) => metadata_views(list@),
        Err(_) => Seq::empty(),
    }
}

/// The failure of an index, if it failed.
pub open spec fn failure_of(answer: Result<Vec<ModuleMetadata>, RegistryError>) -> Seq<
    RegistryError,
> {
    match answer {
        Ok(_) => Seq::empty(),
        Err(e) => seq![e],
    }
}

fn list_or_nothing(answer: Result<Vec<ModuleMetadata>, RegistryError>, failures: &mut Vec<
    RegistryError,
>) -> (list: Vec<ModuleMetadata>)
    ensures
        metadata_views(list@) == listed_by(answer),
        final(failures)@ == old(failures)@ + failure_of(answer),
{
    match answer {
        Ok(list) => {
            assert(failures@ =~= old(failures)@ + failure_of(answer));
            list
        },
        Err(e) => {
            failures.push(e);
            assert(failures@ =~= old(failures)@ + failure_of(answer));
            let list: Vec<ModuleMetadata> = Vec::new();
            assert(metadata_views(list@) =~= Seq::<MetadataView>::empty());
            list
        },
    }
}

/// The catalogue as far as the indexes have answered: the lists of those
/// that answered merged, and the failures of the others, Rust before Ruby
/// before Python.
pub fn collect_available(
    rust: Result<Vec<ModuleMetadata>, RegistryError>,
    ruby: Result<Vec<ModuleMetadata>, RegistryError>,
    python: Result<Vec<ModuleMetadata>, RegistryError>,
) -> (found: (Vec<ModuleMetadata>, Vec<RegistryError>))
    ensures
        is_catalogue_of(
            metadata_views(found.0@),
            listed_by(rust) + listed_by(ruby) + listed_by(python),
        ),
        found.1@ == failure_of(rust) + failure_of(ruby) + failure_of(python),
{
    let mut failures: Vec<RegistryError> = Vec::new();
    let rust_list = list_or_nothing(rust, &mut failures);
    let ruby_list = list_or_nothing(ruby, &mut failures);
    let python_list = list_or_nothing(python, &mut failures);
    assert(failures@ =~= failure_of(rust) + failure_of(ruby) + failure_of(python));
    (merge_modules(&rust_list, &ruby_list, &python_list), failures)
}

/// Two catalogues of the same lists are the same.
pub proof fn law_catalogue_is_unique(
    first: Seq<MetadataView>,
    second: Seq<MetadataView>,
    listed: Seq<MetadataView>,
)
    requires
        is_catalogue_of(first, listed),
        is_catalogue_of(second, listed),
    ensures
        first == second,
    decreases first.len(),
{
    lemma_same_length(first, second, listed);
    lemma_same_length(second, first, listed);
    assert forall|i: int| 0 <= i < first.len() implies first[i] == second[i] by {
        lemma_same_entry(first, second, listed, i);
    }
    assert(first =~= second);
}

/// Where an entry of a catalogue stands in another catalogue of the same lists.
spec fn twin(catalogue: Seq<MetadataView>, other: Seq<MetadataView>, i: int) -> int {
    choose|j: int| 0 <= j < other.len() && (#[trigger] other[j]).name == catalogue[i].name
}

proof fn lemma_twin(
    catalogue: Seq<MetadataView>,
    other: Seq<MetadataView>,
    listed: Seq<MetadataView>,
    i: int,
)
    requires
        is_catalogue_of(catalogue, listed),
        is_catalogue_of(other, listed),
        0 <= i < catalogue.len(),
    ensures
        0 <= twin(catalogue, other, i) < other.len(),
        other[twin(catalogue, other, i)] == catalogue[i],
{
    let at = position_of(listed, catalogue[i].name, listed.len());
    assert(listed[at] == catalogue[i]);
    assert(has_name(other, listed[at].name));
    let j = twin(catalogue, other, i);
    let at2 = position_of(listed, other[j].name, listed.len());
    assert(listed[at2] == other[j]);
}

/// Twins stand in the same order as the entries they are twins of.
proof fn lemma_twins_ascend(
    catalogue: Seq<MetadataView>,
    other: Seq<MetadataView>,
    listed: Seq<MetadataView>,
    i: int,
    j: int,
)
    requires
        is_catalogue_of(catalogue, listed),
        is_catalogue_of(other, listed),
        0 <= i < j < catalogue.len(),
    ensures
        twin(catalogue, other, i) < twin(catalogue, other, j),
{
    lemma_twin(catalogue, other, listed, i);
    lemma_twin(catalogue, other, listed, j);
    let ti = twin(catalogue, other, i);
    let tj = twin(catalogue, other, j);
    assert(comes_before(catalogue[i].name, catalogue[j].name));
    if ti == tj {
        lemma_never_before_itself(catalogue[i].name);
    } else if tj < ti {
        assert(comes_before(other[tj].name, other[ti].name));
        lemma_before_is_transitive(catalogue[i].name, catalogue[j].name, catalogue[i].name);
        lemma_never_before_itself(catalogue[i].name);
    }
}

/// The twin of the entry at position `i` stands at position `i` or later.
proof fn lemma_twin_at_least(
    catalogue: Seq<MetadataView>,
    other: Seq<MetadataView>,
    listed: Seq<MetadataView>,
    i: int,
)
    requires
        is_catalogue_of(catalogue, listed),
        is_catalogue_of(other, listed),
        0 <= i < catalogue.len(),
    ensures
        i <= twin(catalogue, other, i),
    decreases i,
{
    lemma_twin(catalogue, other, listed, i);
    if i > 0 {
        lemma_twin_at_least(catalogue, other, listed, i - 1);
        lemma_twins_ascend(catalogue, other, listed, i - 1, i);
    }
}

proof fn lemma_same_length(
    catalogue: Seq<MetadataView>,
    other: Seq<MetadataView>,
    listed: Seq<MetadataView>,
)
    requires
        is_catalogue_of(catalogue, listed),
        is_catalogue_of(other, listed),
    ensures
        catalogue.len() <= other.len(),
{
    if catalogue.len() > 0 {
        let last = catalogue.len() - 1;
        lemma_twin(catalogue, other, listed, last);
        lemma_twin_at_least(catalogue, other, listed, last);
    }
}

proof fn lemma_same_entry(
    catalogue: Seq<MetadataView>,
    other: Seq<MetadataView>,
    listed: Seq<MetadataView>,
    i: int,
)
    requires
        is_catalogue_of(catalogue, listed),
        is_catalogue_of(other, listed),
        catalogue.len() == other.len(),
        0 <= i < catalogue.len(),
    ensures
        catalogue[i] == other[i],
{
    // The twins of the entries from `i` on are as many distinct positions
    // from `twin(i)` on, so the last of them lies `len - 1 - i` beyond.
    lemma_twin(catalogue, other, listed, i);
    lemma_twin_at_least(catalogue, other, listed, i);
    lemma_twin_gap(catalogue, other, listed, i, catalogue.len() - 1);
    lemma_twin(catalogue, other, listed, catalogue.len() - 1);
}

/// Between the twins of two entries lie at least as many positions as
/// between the entries.
proof fn lemma_twin_gap(
    catalogue: Seq<MetadataView>,
    other: Seq<MetadataView>,
    listed: Seq<MetadataView>,
    i: int,
    j: int,
)
    requires
        is_catalogue_of(catalogue, listed),
        is_catalogue_of(other, listed),
        0 <= i <= j < catalogue.len(),
    ensures
        twin(catalogue, other, j) - twin(catalogue, other, i) >= j - i,
    decreases j - i,
{
    if i < j {
        lemma_twin_gap(catalogue, other, listed, i, j - 1);
        lemma_twins_ascend(catalogue, other, listed, j - 1, j);
    }
}

} // verus!
