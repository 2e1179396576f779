//! The files that agents touched last.

use vstd::prelude::*;
use vstd::string::*;
use crate::ordering;
use crate::ordering::sorted_positions;
use crate::palette::entry;
use crate::palette::entry::{
    list_with_way_back, push_entry, push_plain, ActionView, EntryView, PaletteAction, PaletteEntry,
};
use crate::pane::PaneLeaf;
use crate::paths;
use crate::paths::{join_path, parent_path, path_file_name, same_path};
use crate::workspace::{AppState, Tab};

verus! {

/// A file that an agent touched.
#[derive(Clone, Debug, PartialEq, Eq)]
pub struct TouchedFile {
    /// The path as the agent wrote it.
    pub path: String,
    pub at_unix_ms: u64,
    /// What the agent did to the file, in a word.
    pub verb: String,
}

/// The mathematical value of a [`TouchedFile`].
pub struct FileView {
    pub path: Seq<char>,
    pub at: u64,
    pub verb: Seq<char>,
}

impl DeepView for TouchedFile {
    type V = FileView;

    open spec fn deep_view(&self) -> FileView {
        FileView { path: self.path@, at: self.at_unix_ms, verb: self.verb@ }
    }
}

/// The files that the agent in a pane touched.
pub struct PaneTranscript {
    pub tab_id: u32,
    pub pane_id: u32,
    pub recent_files: Vec<TouchedFile>,
}

/// The path of a file as the pane's directory makes it.
pub open spec fn resolved_path(path: Seq<char>, cwd: Option<Seq<char>>) -> Seq<char> {
    match cwd {
        Some(dir) => paths::joined_path(dir, path),
        None => path,
    }
}

/// The path of a touched file: one that is not absolute is in the pane's directory.
pub fn resolve_touched_file_path(path: &str, cwd: &Option<String>) -> (r: String)
    ensures
        r@ == resolved_path(path@, cwd.deep_view()),
{
    match cwd {
        Some(dir) => join_path(dir.as_str(), path),
        None => path.to_owned(),
    }
}

/// The files of the pane with this id, as the transcripts hold them.
pub open spec fn transcript_of(
    transcripts: Seq<PaneTranscript>,
    tab_id: u32,
    pane_id: u32,
) -> Seq<FileView>
    decreases transcripts.len(),
{
    if transcripts.len() == 0 {
        Seq::empty()
    } else if transcripts[0].tab_id == tab_id && transcripts[0].pane_id == pane_id {
        transcripts[0].recent_files.deep_view()
    } else {
        transcript_of(transcripts.skip(1), tab_id, pane_id)
    }
}

/// The files of one pane, with their resolved paths.
pub open spec fn pane_files(
    tab_id: u32,
    leaf: PaneLeaf,
    transcripts: Seq<PaneTranscript>,
) -> Seq<FileView> {
    transcript_of(transcripts, tab_id, leaf.pane_id).map_values(
        |file: FileView| FileView { path: resolved_path(file.path, leaf.local_dir()), ..file },
    )
}

/// The files of several panes.
pub open spec fn panes_files(
    tab_id: u32,
    leaves: Seq<PaneLeaf>,
    transcripts: Seq<PaneTranscript>,
) -> Seq<FileView>
    decreases leaves.len(),
{
    if leaves.len() == 0 {
        Seq::empty()
    } else {
        panes_files(tab_id, leaves.drop_last(), transcripts) + pane_files(
            tab_id,
            leaves.last(),
            transcripts,
        )
    }
}

/// The position of the pane's transcript.
fn find_transcript(
    transcripts: &Vec<PaneTranscript>,
    tab_id: u32,
    pane_id: u32,
) -> (r: Option<&Vec<TouchedFile>>)
    ensures
        match r {
            Some(files) => files.deep_view() == transcript_of(transcripts@, tab_id, pane_id),
            None => transcript_of(transcripts@, tab_id, pane_id) == Seq::<FileView>::empty(),
        },
{
    let ghost all = transcripts@;
    let mut i: usize = 0;
    assert(all.skip(0) =~= all);
    while i < transcripts.len()
        invariant
            all == transcripts@,
            i <= all.len(),
            transcript_of(all.skip(i as int), tab_id, pane_id) == transcript_of(
                all,
                tab_id,
                pane_id,
            ),
        decreases all.len() - i,
    {
        assert(all.skip(i as int).skip(1) =~= all.skip(i + 1));
        if transcripts[i].tab_id == tab_id && transcripts[i].pane_id == pane_id {
            return Some(&transcripts[i].recent_files);
        }
        i += 1;
    }
    None
}

/// The files that the agents of a tab touched, pane by pane, with their resolved paths.
pub fn files_of_tab(tab: &Tab, transcripts: &Vec<PaneTranscript>) -> (r: Vec<TouchedFile>)
    ensures
        r.deep_view() == panes_files(tab.id, tab.panes.live(), transcripts@),
{
    let leaves = tab.panes.leaves();
    let ghost all = tab.panes.live();
    let mut r: Vec<TouchedFile> = Vec::new();
    let mut i: usize = 0;
    assert(r.deep_view() =~= panes_files(tab.id, all.take(0), transcripts@));
    while i < leaves.len()
        invariant
            leaves@.len() == all.len(),
            forall|k: int| 0 <= k < leaves@.len() ==> *(#[trigger] leaves@[k]) == all[k],
            i <= leaves.len(),
            r.deep_view() == panes_files(tab.id, all.take(i as int), transcripts@),
        decreases leaves.len() - i,
    {
        assert(all.take(i + 1).drop_last() =~= all.take(i as int));
        assert(*leaves@[i as int] == all[i as int]);
        let leaf = leaves[i];
        let ghost done = r.deep_view();
        let ghost own = pane_files(tab.id, *leaf, transcripts@);
        let cwd = leaf.local_cwd();
        if let Some(files) = find_transcript(transcripts, tab.id, leaf.pane_id) {
            let ghost raw = files.deep_view();
            let mut j: usize = 0;
            assert(r.deep_view() =~= done + own.take(0));
            while j < files.len()
                invariant
                    raw == files.deep_view(),
                    raw == transcript_of(transcripts@, tab.id, leaf.pane_id),
                    own == pane_files(tab.id, *leaf, transcripts@),
                    cwd.deep_view() == leaf.local_dir(),
                    j <= files.len(),
                    r.deep_view() == done + own.take(j as int),
                decreases files.len() - j,
            {
                let file = &files[j];
                assert(raw[j as int] == file.deep_view());
                let ghost before = r.deep_view();
                let resolved = TouchedFile {
                    path: resolve_touched_file_path(file.path.as_str(), &cwd),
                    at_unix_ms: file.at_unix_ms,
                    verb: file.verb.clone(),
                };
                assert(resolved.deep_view() == own[j as int]);
                r.push(resolved);
                assert(r.deep_view() =~= before.push(own[j as int]));
                assert(r.deep_view() =~= done + own.take(j + 1));
                j += 1;
            }
            assert(own.take(j as int) =~= own);
        } else {
            assert(own =~= Seq::<FileView>::empty());
            assert(done + own =~= done);
        }
        i += 1;
    }
    assert(all.take(i as int) =~= all);
    r
}

/// Whether the file has this path.
pub open spec fn is_at(file: FileView, path: Seq<char>) -> bool {
    paths::is_same_path(file.path, path)
}

/// Whether no two of the files have the same path.
pub open spec fn distinct_paths(files: Seq<FileView>) -> bool {
    forall|i: int, j: int|
        0 <= i < j < files.len() ==> !is_at(#[trigger] files[i], (#[trigger] files[j]).path)
}

/// A file after it was touched once more: the newer of the two, with the path as it was
/// first written.
pub open spec fn touched_again(file: FileView, again: FileView) -> FileView {
    if again.at >= file.at {
        FileView { path: file.path, ..again }
    } else {
        file
    }
}

/// The files after one more was touched: a path that is there already keeps its place,
/// with the newer of the two.
pub open spec fn with_file(files: Seq<FileView>, file: FileView) -> Seq<FileView> {
    if exists|i: int| 0 <= i < files.len() && is_at(#[trigger] files[i], file.path) {
        files.map_values(
            |known: FileView|
                if is_at(known, file.path) {
                    touched_again(known, file)
                } else {
                    known
                },
        )
    } else {
        files.push(file)
    }
}

/// The files by their paths, each as it was last touched.
pub open spec fn latest_files(touched: Seq<FileView>) -> Seq<FileView>
    decreases touched.len(),
{
    if touched.len() == 0 {
        Seq::empty()
    } else {
        with_file(latest_files(touched.drop_last()), touched.last())
    }
}

/// One more file keeps the paths apart.
proof fn lemma_with_file_distinct(files: Seq<FileView>, file: FileView)
    requires
        distinct_paths(files),
    ensures
        distinct_paths(with_file(files, file)),
{
    let next = with_file(files, file);
    assert forall|i: int, j: int| 0 <= i < j < next.len() implies !is_at(
        #[trigger] next[i],
        (#[trigger] next[j]).path,
    ) by {
        if exists|k: int| 0 <= k < files.len() && is_at(#[trigger] files[k], file.path) {
            assert(!is_at(files[i], files[j].path));
        } else {
            assert(!is_at(files[i], file.path));
            if j < files.len() {
                assert(!is_at(files[i], files[j].path));
            }
        }
    }
}

/// Takes one more touched file into the list.
fn add_file(files: &mut Vec<TouchedFile>, file: &TouchedFile)
    requires
        distinct_paths(old(files).deep_view()),
    ensures
        final(files).deep_view() == with_file(old(files).deep_view(), file.deep_view()),
        distinct_paths(final(files).deep_view()),
{
    let ghost before = files.deep_view();
    let ghost added = file.deep_view();
    proof {
        lemma_with_file_distinct(before, added);
    }
    let mut i: usize = 0;
    while i < files.len()
        invariant
            i <= files.len(),
            before == files.deep_view(),
            added == file.deep_view(),
            forall|k: int| 0 <= k < i ==> !is_at(#[trigger] before[k], added.path),
        ensures
            i < files.len() ==> is_at(before[i as int], added.path),
        decreases files.len() - i,
    {
        assert(before[i as int] == files[i as int].deep_view());
        if same_path(files[i].path.as_str(), file.path.as_str()) {
            break ;
        }
        i += 1;
    }
    if i < files.len() {
        assert(before[i as int] == files[i as int].deep_view());
        assert(is_at(before[i as int], added.path));
        if file.at_unix_ms >= files[i].at_unix_ms {
            let again = TouchedFile {
                path: files[i].path.clone(),
                at_unix_ms: file.at_unix_ms,
                verb: file.verb.clone(),
            };
            assert(again.deep_view() == touched_again(before[i as int], added));
            files.set(i, again);
        }
        assert forall|k: int| 0 <= k < before.len() && k != i implies !is_at(
            #[trigger] before[k],
            added.path,
        ) by {
            if k < i {
                assert(!is_at(before[k], added.path));
            } else {
                assert(!is_at(before[i as int], before[k].path));
            }
        }
        assert(files.deep_view() =~= with_file(before, added));
    } else {
        let copy = TouchedFile {
            path: file.path.clone(),
            at_unix_ms: file.at_unix_ms,
            verb: file.verb.clone(),
        };
        assert(copy.deep_view() == added);
        files.push(copy);
        assert(files.deep_view() =~= with_file(before, added));
    }
}

/// How many files are listed.
pub const RECENT_FILES: usize = 20;

/// The order of the list: the newest first.
pub open spec fn newest_first() -> spec_fn(FileView) -> int {
    |file: FileView| u64::MAX - file.at
}

/// The files of the list.
pub open spec fn recent_files(touched: Seq<FileView>) -> Seq<FileView> {
    let sorted = ordering::sorted_by_key(latest_files(touched), newest_first());
    if sorted.len() > RECENT_FILES {
        sorted.take(RECENT_FILES as int)
    } else {
        sorted
    }
}

/// The newest twenty of the files, each as it was last touched, the newest first. A file
/// stands under the path that was first written for it. Of files that were touched at the
/// same time, the one that was first named comes first.
pub fn newest_files(touched: &Vec<TouchedFile>) -> (r: Vec<TouchedFile>)
    ensures
        r.deep_view() == recent_files(touched.deep_view()),
{
    let ghost all = touched.deep_view();
    let mut latest: Vec<TouchedFile> = Vec::new();
    let mut i: usize = 0;
    assert(latest.deep_view() =~= latest_files(all.take(0)));
    while i < touched.len()
        invariant
            all == touched.deep_view(),
            i <= touched.len(),
            latest.deep_view() == latest_files(all.take(i as int)),
            distinct_paths(latest.deep_view()),
        decreases touched.len() - i,
    {
        assert(all.take(i + 1).drop_last() =~= all.take(i as int));
        assert(all[i as int] == touched[i as int].deep_view());
        add_file(&mut latest, &touched[i]);
        i += 1;
    }
    assert(all.take(i as int) =~= all);
    let ghost key = |file: TouchedFile| u64::MAX - file.at_unix_ms;
    let ghost view = |file: TouchedFile| file.deep_view();
    let mut keys: Vec<u64> = Vec::new();
    let mut k: usize = 0;
    while k < latest.len()
        invariant
            k <= latest.len(),
            keys.len() == k,
            forall|j: int| 0 <= j < k ==> #[trigger] keys@[j] == u64::MAX - latest@[j].at_unix_ms,
        decreases latest.len() - k,
    {
        keys.push(u64::MAX - latest[k].at_unix_ms);
        k += 1;
    }
    let positions = sorted_positions(&latest, &keys, Ghost(key));
    let ghost sorted = ordering::sorted_by_key(latest@, key);
    let ghost shown = ordering::sorted_by_key(latest.deep_view(), newest_first());
    proof {
        assert(latest@.map_values(view) =~= latest.deep_view());
        ordering::lemma_sorted_views(latest@, key, view, newest_first());
        assert(sorted.map_values(view) == shown);
    }
    let mut r: Vec<TouchedFile> = Vec::new();
    let mut n: usize = 0;
    assert(r.deep_view() =~= shown.take(0));
    while n < positions.len() && n < RECENT_FILES
        invariant
            positions@.len() == sorted.len(),
            sorted.len() == latest@.len(),
            view == (|file: TouchedFile| file.deep_view()),
            shown == sorted.map_values(view),
            forall|j: int| 0 <= j < positions@.len() ==> (#[trigger] positions@[j]) < latest@.len(),
            forall|j: int|
                0 <= j < positions@.len() ==> latest@[(#[trigger] positions@[j]) as int]
                    == sorted[j],
            n <= positions.len(),
            n <= RECENT_FILES,
            r.deep_view() == shown.take(n as int),
        decreases positions.len() - n,
    {
        let file = &latest[positions[n]];
        assert(shown[n as int] == file.deep_view());
        let ghost before = r.deep_view();
        r.push(
            TouchedFile {
                path: file.path.clone(),
                at_unix_ms: file.at_unix_ms,
                verb: file.verb.clone(),
            },
        );
        assert(r.deep_view() =~= before.push(shown[n as int]));
        assert(r.deep_view() =~= shown.take(n + 1));
        n += 1;
    }
    assert(shown.take(n as int) =~= recent_files(all));
    r
}

/// The entry of a file: what was done and its name, with the directory beside it.
pub open spec fn file_entry(file: FileView) -> EntryView {
    EntryView {
        label: file.verb + " "@ + match paths::file_name(file.path) {
            Some(name) => name,
            None => file.path,
        },
        shortcut: Some(
            match paths::parent(file.path) {
                Some(dir) => if dir.len() > 0 {
                    dir
                } else {
                    file.path
                },
                None => file.path,
            },
        ),
        action: ActionView::OpenRecentFile(file.path),
    }
}

/// The entries of the list of files.
pub open spec fn file_entries(files: Seq<FileView>) -> Seq<EntryView> {
    seq![entry::back_entry()] + if files.len() == 0 {
        seq![entry::plain("No recent files."@, ActionView::Noop)]
    } else {
        files.map_values(|file: FileView| file_entry(file))
    }
}

/// The files that the agents of the active tab touched.
pub open spec fn active_files(state: AppState, transcripts: Seq<PaneTranscript>) -> Seq<FileView> {
    match state.active_tab_value() {
        Some(tab) => recent_files(panes_files(tab.id, tab.panes.live(), transcripts)),
        None => Seq::empty(),
    }
}

/// The entries of the list of files that the agents of the active tab touched: the way
/// back, and one for each file, the newest first.
pub fn build_recent_files_entries(state: &AppState, transcripts: &Vec<PaneTranscript>) -> (r: Vec<
    PaletteEntry,
>)
    ensures
        r.deep_view() == file_entries(active_files(*state, transcripts@)),
{
    let files = match state.active_tab() {
        Some(tab) => {
            let touched = files_of_tab(tab, transcripts);
            newest_files(&touched)
        },
        None => Vec::new(),
    };
    assert(files.deep_view() =~= active_files(*state, transcripts@));
    let mut entries = list_with_way_back();
    let ghost head = entries.deep_view();
    if files.len() == 0 {
        push_plain(&mut entries, "No recent files.", PaletteAction::Noop);
        assert(entries.deep_view() =~= file_entries(files.deep_view()));
        return entries;
    }
    let ghost all = files.deep_view();
    let ghost rows = all.map_values(|file: FileView| file_entry(file));
    let mut i: usize = 0;
    assert(entries.deep_view() =~= head + rows.take(0));
    while i < files.len()
        invariant
            all == files.deep_view(),
            rows == all.map_values(|file: FileView| file_entry(file)),
            i <= files.len(),
            entries.deep_view() == head + rows.take(i as int),
        decreases files.len() - i,
    {
        let file = &files[i];
        assert(all[i as int] == file.deep_view());
        let name = match path_file_name(file.path.as_str()) {
            Some(name) => name,
            None => file.path.clone(),
        };
        let location = match parent_path(file.path.as_str()) {
            Some(dir) => {
                if dir.as_str().is_empty() {
                    file.path.clone()
                } else {
                    dir
                }
            },
            None => file.path.clone(),
        };
        let mut label = file.verb.clone();
        label.append(" ");
        label.append(name.as_str());
        push_entry(
            &mut entries,
            label,
            Some(location),
            PaletteAction::OpenRecentFile(file.path.clone()),
        );
        assert(entries.deep_view() =~= head + rows.take(i + 1));
        i += 1;
    }
    assert(rows.take(i as int) =~= rows);
    entries
}

/// Every path that was touched is in the list of the latest, as new as any of its files.
proof fn lemma_latest_covers(touched: Seq<FileView>, i: int)
    requires
        0 <= i < touched.len(),
    ensures
        exists|k: int|
            0 <= k < latest_files(touched).len() && is_at(
                #[trigger] latest_files(touched)[k],
                touched[i].path,
            ) && latest_files(touched)[k].at >= touched[i].at,
    decreases touched.len(),
{
    let short = touched.drop_last();
    let last = touched.last();
    let before = latest_files(short);
    let after = latest_files(touched);
    if i < short.len() {
        lemma_latest_covers(short, i);
        let k = choose|k: int|
            0 <= k < before.len() && is_at(#[trigger] before[k], short[i].path) && before[k].at
                >= short[i].at;
        assert(is_at(after[k], touched[i].path));
        assert(after[k].at >= touched[i].at);
    } else if exists|k: int| 0 <= k < before.len() && is_at(#[trigger] before[k], last.path) {
        let k = choose|k: int| 0 <= k < before.len() && is_at(#[trigger] before[k], last.path);
        assert(is_at(after[k], touched[i].path));
        assert(after[k].at >= touched[i].at);
    } else {
        assert(is_at(after[before.len() as int], touched[i].path));
    }
}

/// Whether a row shows what was done to a touched file.
pub open spec fn is_touch_of(row: FileView, file: FileView) -> bool {
    is_at(file, row.path) && file.at == row.at && file.verb == row.verb
}

/// Whether a row shows the path as it was written for a touched file.
pub open spec fn is_path_of(row: FileView, file: FileView) -> bool {
    file.path == row.path
}

/// Whether a row shows what was done to one of the touched files, and the path as one of
/// them wrote it.
pub open spec fn is_touched(touched: Seq<FileView>, row: FileView) -> bool {
    &&& exists|i: int| 0 <= i < touched.len() && is_touch_of(row, #[trigger] touched[i])
    &&& exists|i: int| 0 <= i < touched.len() && is_path_of(row, #[trigger] touched[i])
}

/// The latest files are files that were touched, under different paths.
proof fn lemma_latest_files(touched: Seq<FileView>)
    ensures
        distinct_paths(latest_files(touched)),
        forall|row: FileView| #[trigger]
            latest_files(touched).contains(row) ==> is_touched(touched, row),
    decreases touched.len(),
{
    if touched.len() > 0 {
        let short = touched.drop_last();
        let last = touched.last();
        let end = touched.len() - 1;
        let before = latest_files(short);
        let after = latest_files(touched);
        lemma_latest_files(short);
        lemma_with_file_distinct(before, last);
        assert forall|row: FileView| #[trigger] after.contains(row) implies is_touched(
            touched,
            row,
        ) by {
            let k = choose|k: int| 0 <= k < after.len() && after[k] == row;
            assert(touched[end] == last);
            if k < before.len() {
                assert(before.contains(before[k]));
                let i = choose|i: int|
                    0 <= i < short.len() && is_touch_of(before[k], #[trigger] short[i]);
                let j = choose|j: int|
                    0 <= j < short.len() && is_path_of(before[k], #[trigger] short[j]);
                assert(touched[i] == short[i]);
                assert(touched[j] == short[j]);
                assert(is_path_of(after[k], touched[j]));
                if after[k] == before[k] {
                    assert(is_touch_of(after[k], touched[i]));
                } else {
                    assert(is_touch_of(after[k], touched[end]));
                }
            } else {
                assert(is_touch_of(after[k], touched[end]));
                assert(is_path_of(after[k], touched[end]));
            }
        }
    }
}

/// Sorting the latest files keeps them.
proof fn lemma_sorted_latest(touched: Seq<FileView>)
    ensures
        ({
            let latest = latest_files(touched);
            let sorted = ordering::sorted_by_key(latest, newest_first());
            &&& ordering::ascending(sorted, newest_first())
            &&& sorted.no_duplicates()
            &&& forall|file: FileView| #[trigger]
                sorted.contains(file) <==> latest.contains(file)
        }),
{
    broadcast use vstd::seq_lib::group_to_multiset_ensures;

    let latest = latest_files(touched);
    let sorted = ordering::sorted_by_key(latest, newest_first());
    lemma_latest_files(touched);
    ordering::lemma_sorted_items(latest, newest_first());
    ordering::lemma_sorted_ascending(latest, newest_first());
    assert(latest.no_duplicates()) by {
        assert forall|i: int, j: int| 0 <= i < latest.len() && 0 <= j < latest.len() && i
            != j implies latest[i] != latest[j] by {
            if i < j {
                assert(!is_at(latest[i], latest[j].path));
            } else {
                assert(!is_at(latest[j], latest[i].path));
            }
        }
    }
    latest.lemma_multiset_has_no_duplicates();
    sorted.lemma_multiset_has_no_duplicates_conv();
    assert forall|file: FileView| #[trigger] sorted.contains(file) <==> latest.contains(file) by {
        assert(sorted.contains(file) <==> sorted.to_multiset().count(file) > 0);
        assert(latest.contains(file) <==> latest.to_multiset().count(file) > 0);
    }
}

/// Of files with different paths, two at the same path are one.
proof fn lemma_one_file_at(files: Seq<FileView>, x: FileView, y: FileView)
    requires
        distinct_paths(files),
        files.contains(x),
        files.contains(y),
        paths::is_same_path(x.path, y.path),
    ensures
        x == y,
{
    let a = choose|a: int| 0 <= a < files.len() && files[a] == x;
    let b = choose|b: int| 0 <= b < files.len() && files[b] == y;
    if a < b {
        assert(!is_at(files[a], files[b].path));
    } else if b < a {
        assert(!is_at(files[b], files[a].path));
    }
}

/// The list names each file once, the newest first, and with the last of what was done to
/// it; it leaves files out only where it is full.
pub proof fn law_recent_files(touched: Seq<FileView>)
    ensures
        distinct_paths(recent_files(touched)),
        ordering::ascending(recent_files(touched), newest_first()),
        recent_files(touched).len() <= RECENT_FILES,
        forall|row: FileView| #[trigger]
            recent_files(touched).contains(row) ==> is_touched(touched, row),
        forall|k: int, i: int|
            0 <= k < recent_files(touched).len() && 0 <= i < touched.len() && is_at(
                #[trigger] recent_files(touched)[k],
                (#[trigger] touched[i]).path,
            ) ==> touched[i].at <= recent_files(touched)[k].at,
        recent_files(touched).len() < RECENT_FILES ==> forall|i: int|
            0 <= i < touched.len() ==> exists|k: int|
                0 <= k < recent_files(touched).len() && is_at(
                    #[trigger] recent_files(touched)[k],
                    (#[trigger] touched[i]).path,
                ),
{
    let latest = latest_files(touched);
    let sorted = ordering::sorted_by_key(latest, newest_first());
    let listed = recent_files(touched);
    lemma_latest_files(touched);
    lemma_sorted_latest(touched);
    assert forall|i: int, j: int| 0 <= i < j < listed.len() implies !is_at(
        #[trigger] listed[i],
        (#[trigger] listed[j]).path,
    ) by {
        assert(sorted[i] != sorted[j]);
        assert(sorted.contains(sorted[i]));
        assert(sorted.contains(sorted[j]));
        if is_at(listed[i], listed[j].path) {
            lemma_one_file_at(latest, sorted[i], sorted[j]);
        }
    }
    assert forall|row: FileView| #[trigger] listed.contains(row) implies is_touched(
        touched,
        row,
    ) by {
        let k = choose|k: int| 0 <= k < listed.len() && listed[k] == row;
        assert(sorted[k] == row);
        assert(sorted.contains(row));
        assert(latest.contains(row));
    }
    assert forall|k: int, i: int|
        0 <= k < listed.len() && 0 <= i < touched.len() && is_at(
            #[trigger] listed[k],
            (#[trigger] touched[i]).path,
        ) implies touched[i].at <= listed[k].at by {
        lemma_latest_covers(touched, i);
        let b = choose|b: int|
            0 <= b < latest.len() && is_at(#[trigger] latest[b], touched[i].path) && latest[b].at
                >= touched[i].at;
        assert(latest.contains(latest[b]));
        assert(sorted.contains(sorted[k]));
        lemma_one_file_at(latest, sorted[k], latest[b]);
    }
    if listed.len() < RECENT_FILES {
        assert forall|i: int| 0 <= i < touched.len() implies exists|k: int|
            0 <= k < listed.len() && is_at(#[trigger] listed[k], (#[trigger] touched[i]).path) by {
            lemma_latest_covers(touched, i);
            let b = choose|b: int|
                0 <= b < latest.len() && is_at(#[trigger] latest[b], touched[i].path) && latest[b].at
                    >= touched[i].at;
            assert(sorted.contains(latest[b]));
            let k = choose|k: int| 0 <= k < sorted.len() && sorted[k] == latest[b];
            assert(is_at(listed[k], touched[i].path));
        }
    }
}

/// Whether one of the files has this path.
pub open spec fn lists_path(files: Seq<FileView>, path: Seq<char>) -> bool {
    exists|k: int| 0 <= k < files.len() && is_at(#[trigger] files[k], path)
}

/// A file that the list leaves out was touched no later than any that it shows.
pub proof fn law_left_out_files_are_older(touched: Seq<FileView>, i: int, k: int)
    requires
        0 <= i < touched.len(),
        0 <= k < recent_files(touched).len(),
        !lists_path(recent_files(touched), touched[i].path),
    ensures
        touched[i].at <= recent_files(touched)[k].at,
{
    let latest = latest_files(touched);
    let sorted = ordering::sorted_by_key(latest, newest_first());
    let listed = recent_files(touched);
    lemma_sorted_latest(touched);
    lemma_latest_covers(touched, i);
    let b = choose|b: int|
        0 <= b < latest.len() && is_at(#[trigger] latest[b], touched[i].path) && latest[b].at
            >= touched[i].at;
    assert(latest.contains(latest[b]));
    assert(sorted.contains(latest[b]));
    let at = choose|at: int| 0 <= at < sorted.len() && sorted[at] == latest[b];
    if at < listed.len() {
        assert(is_at(listed[at], touched[i].path));
    }
    assert(newest_first()(sorted[k]) <= newest_first()(sorted[at]));
}

/// A file is where its agent says, seen from the directory of its pane; an absolute path is
/// what it is, and without a directory every path is.
pub proof fn law_where_touched_files_are(path: Seq<char>, dir: Seq<char>)
    ensures
        resolved_path(path, None) == path,
        path.len() > 0 && path[0] == '/' ==> resolved_path(path, Some(dir)) == path,
        path.len() > 0 && path[0] != '/' && dir.len() > 0 && dir.last() != '/' ==> resolved_path(
            path,
            Some(dir),
        ) == dir + seq!['/'] + path,
{
    paths::law_joining_paths(dir, path);
}

/// The files of a pane are those of its own transcript, by its tab and its id; those of a tab
/// are those of its panes, in their order.
pub proof fn law_files_of_panes(
    tab_id: u32,
    leaves: Seq<PaneLeaf>,
    leaf: PaneLeaf,
    transcripts: Seq<PaneTranscript>,
    i: int,
)
    ensures
        0 <= i < transcripts.len() && transcripts[i].tab_id == tab_id && transcripts[i].pane_id
            == leaf.pane_id && (forall|j: int|
            0 <= j < i ==> (#[trigger] transcripts[j]).tab_id != tab_id || transcripts[j].pane_id
                != leaf.pane_id) ==> transcript_of(transcripts, tab_id, leaf.pane_id)
            == transcripts[i].recent_files.deep_view(),
        (forall|j: int|
            0 <= j < transcripts.len() ==> (#[trigger] transcripts[j]).tab_id != tab_id
                || transcripts[j].pane_id != leaf.pane_id) ==> transcript_of(
            transcripts,
            tab_id,
            leaf.pane_id,
        ).len() == 0,
        panes_files(tab_id, Seq::empty(), transcripts) == Seq::<FileView>::empty(),
        panes_files(tab_id, leaves.push(leaf), transcripts) == panes_files(
            tab_id,
            leaves,
            transcripts,
        ) + pane_files(tab_id, leaf, transcripts),
        forall|k: int|
            0 <= k < pane_files(tab_id, leaf, transcripts).len() ==> {
                let own = transcript_of(transcripts, tab_id, leaf.pane_id)[k];
                let file = #[trigger] pane_files(tab_id, leaf, transcripts)[k];
                file.path == resolved_path(own.path, leaf.local_dir()) && file.at == own.at
                    && file.verb == own.verb
            },
        pane_files(tab_id, leaf, transcripts).len() == transcript_of(
            transcripts,
            tab_id,
            leaf.pane_id,
        ).len(),
    decreases transcripts.len(),
{
    assert(leaves.push(leaf).drop_last() =~= leaves);
    if transcripts.len() > 0 {
        let rest = transcripts.skip(1);
        law_files_of_panes(tab_id, leaves, leaf, rest, i - 1);
        if 0 < i < transcripts.len() && (forall|j: int|
            0 <= j < i ==> (#[trigger] transcripts[j]).tab_id != tab_id || transcripts[j].pane_id
                != leaf.pane_id) {
            assert(transcripts[0].tab_id != tab_id || transcripts[0].pane_id != leaf.pane_id);
            assert(rest[i - 1] == transcripts[i]);
            assert forall|j: int| 0 <= j < i - 1 implies (#[trigger] rest[j]).tab_id != tab_id
                || rest[j].pane_id != leaf.pane_id by {
                assert(rest[j] == transcripts[j + 1]);
            }
        }
        if forall|j: int|
            0 <= j < transcripts.len() ==> (#[trigger] transcripts[j]).tab_id != tab_id
                || transcripts[j].pane_id != leaf.pane_id {
            assert(transcripts[0].tab_id != tab_id || transcripts[0].pane_id != leaf.pane_id);
            assert forall|j: int| 0 <= j < rest.len() implies (#[trigger] rest[j]).tab_id != tab_id
                || rest[j].pane_id != leaf.pane_id by {
                assert(rest[j] == transcripts[j + 1]);
            }
        }
    }
}

/// A row says what was done to a file and how it is called, with its directory beside it, and
/// opens the file.
pub proof fn law_rows_of_files(
    dir: Seq<char>,
    name: Seq<char>,
    at: u64,
    verb: Seq<char>,
    files: Seq<FileView>,
    i: int,
)
    requires
        dir.len() > 0,
        dir.last() != '/',
        dir.last() != '.',
        name.len() > 0,
        !name.contains('/'),
        name != "."@,
        name != ".."@,
    ensures
        file_entry(FileView { path: dir + seq!['/'] + name, at, verb }) == (EntryView {
            label: verb + " "@ + name,
            shortcut: Some(dir),
            action: ActionView::OpenRecentFile(dir + seq!['/'] + name),
        }),
        file_entries(Seq::empty()) == seq![
            entry::back_entry(),
            EntryView { label: "No recent files."@, shortcut: None, action: ActionView::Noop },
        ],
        0 <= i < files.len() ==> file_entries(files).len() == files.len() + 1 && file_entries(
            files,
        )[0] == entry::back_entry() && file_entries(files)[i + 1] == file_entry(files[i]),
{
    paths::law_names_and_directories(dir, name);
    assert(file_entries(Seq::empty()) =~= seq![
        entry::back_entry(),
        entry::plain("No recent files."@, ActionView::Noop),
    ]);
}

/// A file that was touched again shows the later of the two, under the path that was written
/// first.
pub proof fn law_files_that_are_touched_again(file: FileView, again: FileView)
    ensures
        touched_again(file, again).path == file.path,
        again.at >= file.at ==> touched_again(file, again).at == again.at && touched_again(
            file,
            again,
        ).verb == again.verb,
        again.at < file.at ==> touched_again(file, again) == file,
        RECENT_FILES == 20,
        newest_first()(file) < newest_first()(again) <==> file.at > again.at,
{
}

/// The files that are listed are those of the tab with the focus.
pub proof fn law_files_of_the_tab_with_the_focus(state: AppState, transcripts: Seq<PaneTranscript>)
    ensures
        state.active_tab_value() is None ==> active_files(state, transcripts) == Seq::<
            FileView,
        >::empty(),
        state.active_tab_value() matches Some(tab) ==> active_files(state, transcripts)
            == recent_files(panes_files(tab.id, tab.panes.live(), transcripts)),
{
}

} // verus!
