//! What the removal of a module removes.

use crate::registry::github::{manifest_file_name, repository_name, repository_of};
use crate::text::{chars_of, same_chars, starts_with, views};
use vstd::prelude::*;

verus! {

/// The beginning of the names of the programs of a module.
pub open spec fn program_stem(module: Seq<char>) -> Seq<char> {
    "asimov-"@ + module
}

/// Whether the file `file` belongs to the module: the manifest declares a
/// program of that name, or the name begins with `asimov-<module>`.
pub open spec fn belongs_to(module: Seq<char>, programs: Seq<Seq<char>>, file: Seq<char>) -> bool {
    programs.contains(file) || program_stem(module).is_prefix_of(file)
}

/// Those of the first `n` files that belong to the module, in order.
pub open spec fn targets_among(
    module: Seq<char>,
    programs: Seq<Seq<char>>,
    files: Seq<Seq<char>>,
    n: nat,
) -> Seq<Seq<char>>
    decreases n,
{
    if n == 0 {
        Seq::empty()
    } else {
        let before = targets_among(module, programs, files, (n - 1) as nat);
        if belongs_to(module, programs, files[n - 1]) {
            before.push(files[n - 1])
        } else {
            before
        }
    }
}

/// Those of the first `n` files that do not belong to the module, in order:
/// what is left of the files once the module is removed.
pub open spec fn left_among(
    module: Seq<char>,
    programs: Seq<Seq<char>>,
    files: Seq<Seq<char>>,
    n: nat,
) -> Seq<Seq<char>>
    decreases n,
{
    if n == 0 {
        Seq::empty()
    } else {
        let before = left_among(module, programs, files, (n - 1) as nat);
        if belongs_to(module, programs, files[n - 1]) {
            before
        } else {
            before.push(files[n - 1])
        }
    }
}

fn is_listed(items: &Vec<String>, wanted: &Vec<char>) -> (found: bool)
    ensures
        found == views(items@).contains(wanted@),
{
    let mut i: usize = 0;
    while i < items.len()
        invariant
            i <= items.len(),
            forall|j: int| 0 <= j < i ==> views(items@)[j] != wanted@,
        decreases items.len() - i,
    {
        let item = chars_of(items[i].as_str());
        if same_chars(&item, wanted) {
            assert(views(items@)[i as int] == wanted@);
            return true;
        }
        i += 1;
    }
    false
}

/// Whether `file` is a program of the module `module_name`, whose manifest
/// declares `programs`.
pub fn is_program_of(module_name: &str, programs: &Vec<String>, file: &str) -> (belongs: bool)
    ensures
        belongs == belongs_to(module_name@, views(programs@), file@),
{
    let name = chars_of(file);
    if is_listed(programs, &name) {
        return true;
    }
    let mut stem = String::from_str("asimov-");
    stem.append(module_name);
    starts_with(&name, &chars_of(stem.as_str()))
}

/// The files to remove from the installation directory, of which `installed`
/// are the names of the files: those that belong to the module.
pub fn uninstall_targets(module_name: &str, programs: &Vec<String>, installed: &Vec<String>) -> (
    targets: Vec<String>
)
    ensures
        views(targets@) == targets_among(
            module_name@,
            views(programs@),
            views(installed@),
            installed.len() as nat,
        ),
{
    let mut targets: Vec<String> = Vec::new();
    let mut i: usize = 0;
    assert(views(targets@) =~= targets_among(
        module_name@,
        views(programs@),
        views(installed@),
        0,
    ));
    while i < installed.len()
        invariant
            i <= installed.len(),
            views(targets@) == targets_among(
                module_name@,
                views(programs@),
                views(installed@),
                i as nat,
            ),
        decreases installed.len() - i,
    {
        assert(views(installed@)[i as int] == installed@[i as int]@);
        if is_program_of(module_name, programs, installed[i].as_str()) {
            let ghost before = views(targets@);
            targets.push(installed[i].clone());
            assert(views(targets@) =~= before.push(installed@[i as int]@));
        }
        i += 1;
    }
    targets
}

/// The name of the manifest file that is removed with the module.
pub fn manifest_to_remove(module_name: &str) -> (name: String)
    ensures
        name@ == module_name@ + ".yaml"@,
{
    manifest_file_name(module_name)
}

/// What the removal of the module `module_name` removes: from the
/// installation directory, of which `installed` are the names of the files,
/// the files that belong to the module, and from the manifest directory the
/// manifest of the module.
pub fn removal_plan(module_name: &str, programs: &Vec<String>, installed: &Vec<String>) -> (plan: (
    Vec<String>,
    String,
))
    ensures
        views(plan.0@) == targets_among(
            module_name@,
            views(programs@),
            views(installed@),
            installed.len() as nat,
        ),
        plan.1@ == module_name@ + ".yaml"@,
{
    (uninstall_targets(module_name, programs, installed), manifest_to_remove(module_name))
}

/// How the removal of one file ended.
#[derive(Clone, Copy, Debug, PartialEq, Eq, Structural)]
pub enum Removal {
    Removed,
    /// There was no such file.
    Missing,
    /// The file is there and could not be removed.
    Failed,
}

/// A module could not be removed.
#[derive(Clone, Copy, Debug, PartialEq, Eq, Structural)]
pub enum UninstallError {
    /// The file at this position of those to remove could not be removed.
    Io(usize),
}

/// The position of the first of the first `n` removals that failed, or -1.
pub open spec fn first_failure(removals: Seq<Removal>, n: nat) -> int
    decreases n,
{
    if n == 0 {
        -1
    } else {
        let before = first_failure(removals, (n - 1) as nat);
        if before >= 0 {
            before
        } else if removals[n - 1] == Removal::Failed {
            n - 1
        } else {
            -1
        }
    }
}

proof fn lemma_first_failure_found(removals: Seq<Removal>, at: nat, n: nat)
    requires
        at < n <= removals.len(),
        first_failure(removals, at) == -1,
        removals[at as int] == Removal::Failed,
    ensures
        first_failure(removals, n) == at,
    decreases n,
{
    if n > at + 1 {
        lemma_first_failure_found(removals, at, (n - 1) as nat);
    }
}

/// What the removals of the files of a module amount to. A file that was
/// not there counts as removed; the first file that could not be removed
/// makes the removal of the module fail.
pub fn uninstall_outcome(removals: &Vec<Removal>) -> (outcome: Result<(), UninstallError>)
    ensures
        match outcome {
            Ok(()) => first_failure(removals@, removals.len() as nat) == -1,
            Err(UninstallError::Io(at)) => at == first_failure(removals@, removals.len() as nat),
        },
{
    let mut i: usize = 0;
    while i < removals.len()
        invariant
            i <= removals.len(),
            first_failure(removals@, i as nat) == -1,
        decreases removals.len() - i,
    {
        match removals[i] {
            Removal::Failed => {
                proof {
                    lemma_first_failure_found(removals@, i as nat, removals.len() as nat);
                }
                return Err(UninstallError::Io(i));
            },
            _ => {},
        }
        i += 1;
    }
    Ok(())
}

/// Of what is left once a module is removed nothing belongs to the module:
/// removing it again finds nothing to remove.
pub proof fn law_uninstall_is_idempotent(
    module: Seq<char>,
    programs: Seq<Seq<char>>,
    files: Seq<Seq<char>>,
    n: nat,
)
    requires
        n <= files.len(),
    ensures
        ({
            let left = left_among(module, programs, files, n);
            &&& forall|i: int| 0 <= i < left.len() ==> !belongs_to(module, programs, #[trigger] left[i])
            &&& targets_among(module, programs, left, left.len()).len() == 0
            &&& left_among(module, programs, left, left.len()) == left
        }),
    decreases n,
{
    let left = left_among(module, programs, files, n);
    if n > 0 {
        law_uninstall_is_idempotent(module, programs, files, (n - 1) as nat);
    }
    assert forall|i: int| 0 <= i < left.len() implies !belongs_to(
        module,
        programs,
        #[trigger] left[i],
    ) by {
        if n > 0 {
            let before = left_among(module, programs, files, (n - 1) as nat);
            if i < before.len() {
                assert(left[i] == before[i]);
            }
        }
    }
    lemma_nothing_belongs(module, programs, left, left.len());
}

proof fn lemma_nothing_belongs(
    module: Seq<char>,
    programs: Seq<Seq<char>>,
    files: Seq<Seq<char>>,
    n: nat,
)
    requires
        n <= files.len(),
        forall|i: int| 0 <= i < files.len() ==> !belongs_to(module, programs, #[trigger] files[i]),
    ensures
        targets_among(module, programs, files, n).len() == 0,
        left_among(module, programs, files, n) == files.take(n as int),
    decreases n,
{
    if n > 0 {
        lemma_nothing_belongs(module, programs, files, (n - 1) as nat);
        assert(files.take(n as int) =~= files.take(n - 1).push(files[n - 1]));
    } else {
        assert(files.take(0) =~= Seq::<Seq<char>>::empty());
    }
}

/// Every file is either removed with the module or left, never both.
pub proof fn law_uninstall_splits_files(
    module: Seq<char>,
    programs: Seq<Seq<char>>,
    files: Seq<Seq<char>>,
    n: nat,
)
    requires
        n <= files.len(),
    ensures
        targets_among(module, programs, files, n).len() + left_among(
            module,
            programs,
            files,
            n,
        ).len() == n,
        forall|i: int|
            0 <= i < n ==> (belongs_to(module, programs, #[trigger] files[i]) ==> targets_among(
                module,
                programs,
                files,
                n,
            ).contains(files[i])),
    decreases n,
{
    if n > 0 {
        law_uninstall_splits_files(module, programs, files, (n - 1) as nat);
        let before = targets_among(module, programs, files, (n - 1) as nat);
        let now = targets_among(module, programs, files, n);
        assert forall|i: int| 0 <= i < n && belongs_to(
            module,
            programs,
            #[trigger] files[i],
        ) implies now.contains(files[i]) by {
            if i < n - 1 {
                let at = choose|at: int| 0 <= at < before.len() && before[at] == files[i];
                assert(now[at] == files[i]);
            } else {
                assert(now[now.len() - 1] == files[i]);
            }
        }
    }
}

proof fn lemma_left_same(
    module: Seq<char>,
    programs: Seq<Seq<char>>,
    a: Seq<Seq<char>>,
    b: Seq<Seq<char>>,
    n: nat,
)
    requires
        n <= a.len(),
        n <= b.len(),
        forall|i: int| 0 <= i < n ==> a[i] == b[i],
    ensures
        left_among(module, programs, a, n) == left_among(module, programs, b, n),
    decreases n,
{
    if n > 0 {
        lemma_left_same(module, programs, a, b, (n - 1) as nat);
    }
}

proof fn lemma_left_after_install(
    module: Seq<char>,
    programs: Seq<Seq<char>>,
    before: Seq<Seq<char>>,
    installed: Seq<Seq<char>>,
    n: nat,
)
    requires
        before.len() <= n <= before.len() + installed.len(),
        forall|i: int|
            0 <= i < installed.len() ==> belongs_to(module, programs, #[trigger] installed[i]),
    ensures
        left_among(module, programs, before + installed, n) == left_among(
            module,
            programs,
            before,
            before.len(),
        ),
    decreases n,
{
    let all = before + installed;
    if n == before.len() {
        lemma_left_same(module, programs, all, before, n);
    } else {
        lemma_left_after_install(module, programs, before, installed, (n - 1) as nat);
        assert(all[n - 1] == installed[n - 1 - before.len()]);
    }
}

/// Where every file that an installation puts into the directory belongs to
/// the module, removing the module afterwards leaves of the directory what
/// was left of it before the installation, and none of the files that were
/// installed.
pub proof fn law_install_then_uninstall(
    module: Seq<char>,
    programs: Seq<Seq<char>>,
    before: Seq<Seq<char>>,
    installed: Seq<Seq<char>>,
)
    requires
        forall|i: int|
            0 <= i < installed.len() ==> belongs_to(module, programs, #[trigger] installed[i]),
    ensures
        ({
            let after = before + installed;
            let left = left_among(module, programs, after, after.len());
            &&& left == left_among(module, programs, before, before.len())
            &&& forall|i: int| 0 <= i < installed.len() ==> !left.contains(#[trigger] installed[i])
        }),
{
    let after = before + installed;
    let left = left_among(module, programs, after, after.len());
    lemma_left_after_install(module, programs, before, installed, after.len());
    law_uninstall_is_idempotent(module, programs, after, after.len());
    assert forall|i: int| 0 <= i < installed.len() implies !left.contains(
        #[trigger] installed[i],
    ) by {
        if left.contains(installed[i]) {
            let at = choose|at: int| 0 <= at < left.len() && left[at] == installed[i];
            assert(!belongs_to(module, programs, left[at]));
        }
    }
}

/// The programs of a module are there: its main program
/// `asimov-<module>-module` is among the files, or the manifest declares
/// programs and all of them are.
pub open spec fn programs_present(
    module: Seq<char>,
    programs: Seq<Seq<char>>,
    files: Seq<Seq<char>>,
) -> bool {
    files.contains(repository_name(module)) || (programs.len() > 0 && forall|i: int|
        0 <= i < programs.len() ==> files.contains(#[trigger] programs[i]))
}

/// A module counts as installed where its manifest is stored and its
/// programs are there.
pub open spec fn counts_as_installed(
    module: Seq<char>,
    programs: Seq<Seq<char>>,
    files: Seq<Seq<char>>,
    has_manifest: bool,
) -> bool {
    has_manifest && programs_present(module, programs, files)
}

fn all_listed(wanted: &Vec<String>, files: &Vec<String>) -> (all: bool)
    ensures
        all == forall|i: int|
            0 <= i < wanted.len() ==> views(files@).contains(#[trigger] views(wanted@)[i]),
{
    let mut i: usize = 0;
    while i < wanted.len()
        invariant
            i <= wanted.len(),
            forall|j: int| 0 <= j < i ==> views(files@).contains(#[trigger] views(wanted@)[j]),
        decreases wanted.len() - i,
    {
        let name = chars_of(wanted[i].as_str());
        assert(views(wanted@)[i as int] == name@);
        if !is_listed(files, &name) {
            return false;
        }
        i += 1;
    }
    true
}

/// Whether the module `module_name` counts as installed, given the programs
/// that its manifest declares, the names of the files in the installation
/// directory and whether its manifest is stored.
pub fn is_installed(
    module_name: &str,
    programs: &Vec<String>,
    installed: &Vec<String>,
    has_manifest: bool,
) -> (found: bool)
    ensures
        found == counts_as_installed(
            module_name@,
            views(programs@),
            views(installed@),
            has_manifest,
        ),
{
    if !has_manifest {
        return false;
    }
    let main_program = chars_of(repository_of(module_name).as_str());
    if is_listed(installed, &main_program) {
        return true;
    }
    programs.len() > 0 && all_listed(programs, installed)
}

/// Once a module is removed it no longer counts as installed, whether or
/// not its manifest is still stored: none of its programs is left.
pub proof fn law_removed_is_not_installed(
    module: Seq<char>,
    programs: Seq<Seq<char>>,
    files: Seq<Seq<char>>,
    has_manifest: bool,
)
    ensures
        !counts_as_installed(
            module,
            programs,
            left_among(module, programs, files, files.len()),
            has_manifest,
        ),
{
    let left = left_among(module, programs, files, files.len());
    law_uninstall_is_idempotent(module, programs, files, files.len());
    let main_program = repository_name(module);
    assert(program_stem(module).is_prefix_of(main_program)) by {
        assert(main_program.subrange(0, program_stem(module).len() as int) =~= program_stem(
            module,
        ));
    }
    if left.contains(main_program) {
        let at = choose|at: int| 0 <= at < left.len() && left[at] == main_program;
        assert(!belongs_to(module, programs, left[at]));
    }
    if programs.len() > 0 && left.contains(programs[0]) {
        let at = choose|at: int| 0 <= at < left.len() && left[at] == programs[0];
        assert(!belongs_to(module, programs, left[at]));
    }
}

} // verus!
