//! Artifact collection: which files of a walked workspace are copied into a
//! run directory, and under which names.

use vstd::prelude::*;

use crate::pattern::{glob_matches, glob_regex, regex_valid, Matcher};

verus! {

/// One entry met while walking a workspace tree.
pub struct WalkEntry {
    /// Where the entry lies.
    pub path: String,
    /// Its base name.
    pub file_name: String,
    /// Whether it is a regular file.
    pub is_file: bool,
}

/// The mathematical value of a `WalkEntry`.
pub struct WalkEntryView {
    pub path: Seq<char>,
    pub file_name: Seq<char>,
    pub is_file: bool,
}

impl View for WalkEntry {
    type V = WalkEntryView;

    open spec fn view(&self) -> WalkEntryView {
        WalkEntryView { path: self.path@, file_name: self.file_name@, is_file: self.is_file }
    }
}

/// One file to copy: `source` goes into the destination directory under the
/// name `file_name`.
pub struct CopyTask {
    pub source: String,
    pub file_name: String,
}

/// The mathematical value of a `CopyTask`.
pub struct CopyTaskView {
    pub source: Seq<char>,
    pub file_name: Seq<char>,
}

impl View for CopyTask {
    type V = CopyTaskView;

    open spec fn view(&self) -> CopyTaskView {
        CopyTaskView { source: self.source@, file_name: self.file_name@ }
    }
}

/// The values of a sequence of entries.
pub open spec fn entry_views(entries: Seq<WalkEntry>) -> Seq<WalkEntryView> {
    entries.map_values(|e: WalkEntry| e@)
}

/// The values of a sequence of copy tasks.
pub open spec fn task_views(tasks: Seq<CopyTask>) -> Seq<CopyTaskView> {
    tasks.map_values(|t: CopyTask| t@)
}

/// The globs of a sequence of matchers.
pub open spec fn globs_of(matchers: Seq<Matcher>) -> Seq<Seq<char>> {
    matchers.map_values(|m: Matcher| m.glob())
}

/// The copy of one entry.
pub open spec fn task_for(entry: WalkEntryView) -> CopyTaskView {
    CopyTaskView { source: entry.path, file_name: entry.file_name }
}

/// The copies of the entries that are regular files and whose flag is set,
/// in the order of the walk.
pub open spec fn selected(entries: Seq<WalkEntryView>, flags: Seq<bool>) -> Seq<CopyTaskView>
    decreases entries.len(),
{
    if entries.len() == 0 {
        Seq::empty()
    } else {
        let before = selected(entries.drop_last(), flags);
        let i = entries.len() - 1;
        if entries[i].is_file && i < flags.len() && flags[i] {
            before.push(task_for(entries[i]))
        } else {
            before
        }
    }
}

/// Whether at least one of `globs` matches `name`.
pub open spec fn any_glob_matches(globs: Seq<Seq<char>>, name: Seq<char>) -> bool {
    exists|i: int| 0 <= i < globs.len() && glob_matches(#[trigger] globs[i], name)
}

/// For each entry, whether one of `globs` matches its base name.
pub open spec fn match_flags(entries: Seq<WalkEntryView>, globs: Seq<Seq<char>>) -> Seq<bool> {
    Seq::new(entries.len(), |i: int| any_glob_matches(globs, entries[i].file_name))
}

/// The copies that collecting `entries` under `globs` makes: one for every
/// regular file whose base name matches a glob, in the order of the walk.
pub open spec fn copy_plan(entries: Seq<WalkEntryView>, globs: Seq<Seq<char>>) -> Seq<
    CopyTaskView,
> {
    selected(entries, match_flags(entries, globs))
}

/// Whether collecting under `globs` takes the entry.
pub open spec fn is_artifact(entry: WalkEntryView, globs: Seq<Seq<char>>) -> bool {
    entry.is_file && any_glob_matches(globs, entry.file_name)
}

/// A selection holds the copies of the flagged regular files and nothing
/// else.
pub proof fn lemma_selected_members(
    entries: Seq<WalkEntryView>,
    flags: Seq<bool>,
    task: CopyTaskView,
)
    requires
        flags.len() >= entries.len(),
    ensures
        selected(entries, flags).contains(task) <==> exists|i: int|
            0 <= i < entries.len() && (#[trigger] entries[i]).is_file && flags[i] && task
                == task_for(entries[i]),
    decreases entries.len(),
{
    if entries.len() > 0 {
        let front = entries.drop_last();
        let last = entries.len() - 1;
        let before = selected(front, flags);
        let all = selected(entries, flags);
        lemma_selected_members(front, flags, task);
        if all.contains(task) {
            let k = choose|k: int| 0 <= k < all.len() && all[k] == task;
            if k < before.len() {
                assert(before[k] == task);
                let i = choose|i: int|
                    0 <= i < front.len() && (#[trigger] front[i]).is_file && flags[i] && task
                        == task_for(front[i]);
                assert(entries[i] == front[i]);
            } else {
                assert(task == task_for(entries[last]));
            }
        }
        if exists|i: int|
            0 <= i < entries.len() && (#[trigger] entries[i]).is_file && flags[i] && task
                == task_for(entries[i]) {
            let i = choose|i: int|
                0 <= i < entries.len() && (#[trigger] entries[i]).is_file && flags[i] && task
                    == task_for(entries[i]);
            if i < last {
                assert(front[i] == entries[i]);
                let k = choose|k: int| 0 <= k < before.len() && before[k] == task;
                assert(all[k] == task);
            } else {
                assert(all[all.len() - 1] == task);
            }
        }
    }
}

/// Collecting copies exactly the regular files whose base name matches one
/// of the globs: every such file, and no other entry.
pub proof fn lemma_copy_plan_members(
    entries: Seq<WalkEntryView>,
    globs: Seq<Seq<char>>,
    task: CopyTaskView,
)
    ensures
        copy_plan(entries, globs).contains(task) <==> exists|i: int|
            0 <= i < entries.len() && is_artifact(#[trigger] entries[i], globs) && task
                == task_for(entries[i]),
{
    let flags = match_flags(entries, globs);
    lemma_selected_members(entries, flags, task);
    if copy_plan(entries, globs).contains(task) {
        let i = choose|i: int|
            0 <= i < entries.len() && (#[trigger] entries[i]).is_file && flags[i] && task
                == task_for(entries[i]);
        assert(is_artifact(entries[i], globs));
    }
    if exists|i: int|
        0 <= i < entries.len() && is_artifact(#[trigger] entries[i], globs) && task == task_for(
            entries[i],
        ) {
        let i = choose|i: int|
            0 <= i < entries.len() && is_artifact(#[trigger] entries[i], globs) && task
                == task_for(entries[i]);
        assert(entries[i].is_file && flags[i]);
    }
}

/// Builds the copy list from the walked entries and, for each of them, the
/// answer whether a pattern matched its base name. An entry without an
/// answer counts as not matched.
pub fn plan_copies(entries: &Vec<WalkEntry>, matched: &Vec<bool>) -> (plan: Vec<CopyTask>)
    ensures
        task_views(plan@) == selected(entry_views(entries@), matched@),
{
    let mut plan: Vec<CopyTask> = Vec::new();
    let mut i: usize = 0;
    let ghost all = entry_views(entries@);
    while i < entries.len()
        invariant
            i <= entries.len(),
            all == entry_views(entries@),
            task_views(plan@) == selected(all.take(i as int), matched@),
        decreases entries.len() - i,
    {
        let entry = &entries[i];
        assert(all.take(i + 1).drop_last() == all.take(i as int));
        if entry.is_file && i < matched.len() && matched[i] {
            plan.push(
                CopyTask { source: entry.path.clone(), file_name: entry.file_name.clone() },
            );
        }
        i += 1;
    }
    assert(all.take(entries.len() as int) == all);
    plan
}

/// Whether one of `patterns` matches `name`.
pub fn any_matches(patterns: &Vec<Matcher>, name: &str) -> (hit: bool)
    ensures
        hit == any_glob_matches(globs_of(patterns@), name@),
{
    let mut i: usize = 0;
    while i < patterns.len()
        invariant
            i <= patterns.len(),
            forall|k: int| 0 <= k < i ==> !glob_matches(#[trigger] globs_of(patterns@)[k], name@),
        decreases patterns.len() - i,
    {
        if patterns[i].matches(name) {
            assert(glob_matches(globs_of(patterns@)[i as int], name@));
            return true;
        }
        i += 1;
    }
    false
}

/// Decides which of the walked `entries` are collected under `patterns`:
/// every regular file whose base name matches at least one pattern, each
/// once, in the order of the walk. A later copy under the same base name
/// overwrites an earlier one.
pub fn collect(entries: &Vec<WalkEntry>, patterns: &Vec<Matcher>) -> (plan: Vec<CopyTask>)
    ensures
        task_views(plan@) == copy_plan(entry_views(entries@), globs_of(patterns@)),
{
    let mut matched: Vec<bool> = Vec::new();
    let mut i: usize = 0;
    let ghost flags = match_flags(entry_views(entries@), globs_of(patterns@));
    while i < entries.len()
        invariant
            i <= entries.len(),
            flags == match_flags(entry_views(entries@), globs_of(patterns@)),
            matched@ == flags.take(i as int),
        decreases entries.len() - i,
    {
        let hit = any_matches(patterns, entries[i].file_name.as_str());
        matched.push(hit);
        i += 1;
    }
    assert(flags.take(entries.len() as int) == flags);
    plan_copies(entries, &matched)
}

/// Collects under a single glob. `None` when the glob cannot be compiled.
pub fn find_and_copy_artifacts(entries: &Vec<WalkEntry>, glob_pattern: &str) -> (plan: Option<
    Vec<CopyTask>,
>)
    ensures
        plan is Some <==> regex_valid(glob_regex(glob_pattern@)),
        plan matches Some(p) ==> task_views(p@) == copy_plan(
            entry_views(entries@),
            seq![glob_pattern@],
        ),
{
    match Matcher::compile(glob_pattern) {
        Some(matcher) => {
            let mut patterns: Vec<Matcher> = Vec::new();
            patterns.push(matcher);
            assert(globs_of(patterns@) == seq![glob_pattern@]);
            Some(collect(entries, &patterns))
        },
        None => None,
    }
}

/// The contents of a directory: for each file name, its bytes.
pub type Files = Map<Seq<char>, Seq<u8>>;

/// The destination after one copy. A source that cannot be read (one that
/// `sources` does not hold) leaves the destination as it was.
pub open spec fn after_copy(dest: Files, task: CopyTaskView, sources: Files) -> Files {
    if sources.dom().contains(task.source) {
        dest.insert(task.file_name, sources[task.source])
    } else {
        dest
    }
}

/// The destination after the copies of `plan`, made in order.
pub open spec fn after_copies(dest: Files, plan: Seq<CopyTaskView>, sources: Files) -> Files
    decreases plan.len(),
{
    if plan.len() == 0 {
        dest
    } else {
        after_copy(after_copies(dest, plan.drop_last(), sources), plan.last(), sources)
    }
}

/// Whether some copy of `plan` writes the destination file `name`.
pub open spec fn writes(plan: Seq<CopyTaskView>, sources: Files, name: Seq<char>) -> bool
    decreases plan.len(),
{
    plan.len() > 0 && ((plan.last().file_name == name && sources.dom().contains(plan.last().source))
        || writes(plan.drop_last(), sources, name))
}

/// Whether two directories hold the same under `name`.
pub open spec fn same_at(a: Files, b: Files, name: Seq<char>) -> bool {
    a.dom().contains(name) == b.dom().contains(name) && (a.dom().contains(name) ==> a[name]
        == b[name])
}

/// A destination file that no copy writes stays as it was.
pub proof fn lemma_unwritten_stays(dest: Files, plan: Seq<CopyTaskView>, sources: Files, name: Seq<char>)
    requires
        !writes(plan, sources, name),
    ensures
        same_at(after_copies(dest, plan, sources), dest, name),
    decreases plan.len(),
{
    if plan.len() > 0 {
        lemma_unwritten_stays(dest, plan.drop_last(), sources, name);
    }
}

/// What a destination file holds after the copies depends on what it held
/// before only if no copy writes it.
pub proof fn lemma_written_is_determined(
    a: Files,
    b: Files,
    plan: Seq<CopyTaskView>,
    sources: Files,
    name: Seq<char>,
)
    requires
        same_at(a, b, name) || writes(plan, sources, name),
    ensures
        same_at(after_copies(a, plan, sources), after_copies(b, plan, sources), name),
    decreases plan.len(),
{
    if plan.len() > 0 {
        let last = plan.last();
        if !(last.file_name == name && sources.dom().contains(last.source)) {
            lemma_written_is_determined(a, b, plan.drop_last(), sources, name);
        }
    }
}

/// Making the copies of a plan a second time, from unchanged sources, leaves
/// every destination file as the first time left it.
pub proof fn lemma_copies_are_idempotent(dest: Files, plan: Seq<CopyTaskView>, sources: Files)
    ensures
        after_copies(after_copies(dest, plan, sources), plan, sources) == after_copies(
            dest,
            plan,
            sources,
        ),
{
    let once = after_copies(dest, plan, sources);
    let twice = after_copies(once, plan, sources);
    assert forall|name: Seq<char>| same_at(twice, once, name) by {
        if !writes(plan, sources, name) {
            lemma_unwritten_stays(dest, plan, sources, name);
        }
        lemma_written_is_determined(once, dest, plan, sources, name);
    }
    assert(twice =~= once) by {
        assert forall|name: Seq<char>| twice.dom().contains(name) == once.dom().contains(name) by {
            assert(same_at(twice, once, name));
        }
        assert forall|name: Seq<char>| twice.dom().contains(name) implies twice[name]
            == once[name] by {
            assert(same_at(twice, once, name));
        }
    }
}

/// Collecting twice from an unchanged workspace into the same destination
/// leaves the destination as collecting once does.
pub proof fn lemma_collect_is_idempotent(
    dest: Files,
    entries: Seq<WalkEntryView>,
    globs: Seq<Seq<char>>,
    sources: Files,
)
    ensures
        after_copies(
            after_copies(dest, copy_plan(entries, globs), sources),
            copy_plan(entries, globs),
            sources,
        ) == after_copies(dest, copy_plan(entries, globs), sources),
{
    lemma_copies_are_idempotent(dest, copy_plan(entries, globs), sources);
}

} // verus!
