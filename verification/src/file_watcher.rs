//! Detection of file changes by polling, with a guard against watching in vain.
//!
//! The watcher compares what it finds under a directory with what it found before. It stops when
//! nothing has changed for some time. Reading the directory, the clock and the channel to the
//! receiver are left to the caller, who performs the actions that [`WatchState::step`] asks for.

use crate::glob;
use crate::glob::glob_matches;
use crate::strmap;
use crate::strmap::StrMap;
use vstd::prelude::*;

verus! {

/// The time between two polls, in nanoseconds.
pub const DEFAULT_POLL_INTERVAL: u128 = 2_000_000_000;

/// The time without changes after which the watcher stops, in nanoseconds.
pub const DEFAULT_INACTIVITY_TIMEOUT: u128 = 300_000_000_000;

/// The kind of a file change.
#[derive(Debug, Clone, Copy, PartialEq, Eq, Structural)]
pub enum FileChangeKind {
    /// A file appeared.
    Created,
    /// The modification time of a file changed.
    Modified,
    /// A file that was there is gone.
    Deleted,
}

/// A file change.
#[derive(Debug, Clone)]
pub struct FileChange {
    /// The path of the changed file.
    pub path: String,
    /// The kind of the change.
    pub kind: FileChangeKind,
}

impl View for FileChange {
    type V = (Seq<char>, FileChangeKind);

    open spec fn view(&self) -> (Seq<char>, FileChangeKind) {
        (self.path@, self.kind)
    }
}

/// The meaning of a list of changes.
pub open spec fn change_views(changes: Seq<FileChange>) -> Seq<(Seq<char>, FileChangeKind)> {
    changes.map_values(|c: FileChange| c@)
}

/// What a watcher is to look at, and how often.
#[derive(Debug, Clone)]
pub struct FileWatcherConfig {
    /// The time between two polls, in nanoseconds.
    pub poll_interval: u128,
    /// The time without changes after which the watcher stops, in nanoseconds.
    pub inactivity_timeout: u128,
    /// Patterns of the names of files and directories to be passed over, such as `*.tmp`.
    pub ignore_patterns: Vec<String>,
    /// The depth to which directories are looked at; without one, all are.
    pub max_depth: Option<usize>,
}

impl Default for FileWatcherConfig {
    fn default() -> (r: Self)
        ensures
            r.poll_interval == DEFAULT_POLL_INTERVAL,
            r.inactivity_timeout == DEFAULT_INACTIVITY_TIMEOUT,
            r.poll_interval == 2_000_000_000,
            r.inactivity_timeout == 300_000_000_000,
            r.ignore_patterns@.len() == 4,
            r.ignore_patterns@[0]@ == ".git"@,
            r.ignore_patterns@[1]@ == "target"@,
            r.ignore_patterns@[2]@ == "node_modules"@,
            r.ignore_patterns@[3]@ == ".DS_Store"@,
            r.max_depth == Some(5usize),
    {
        let mut ignore_patterns: Vec<String> = Vec::new();
        ignore_patterns.push(".git".to_owned());
        ignore_patterns.push("target".to_owned());
        ignore_patterns.push("node_modules".to_owned());
        ignore_patterns.push(".DS_Store".to_owned());
        FileWatcherConfig {
            poll_interval: DEFAULT_POLL_INTERVAL,
            inactivity_timeout: DEFAULT_INACTIVITY_TIMEOUT,
            ignore_patterns,
            max_depth: Some(5),
        }
    }
}

impl FileWatcherConfig {
    /// Whether files and directories of a name are passed over.
    pub open spec fn is_ignored(&self, name: Seq<char>) -> bool {
        exists|i: int|
            0 <= i < self.ignore_patterns@.len() && glob::matches_glob(
                (#[trigger] self.ignore_patterns@[i])@,
                name,
            )
    }

    /// Whether files and directories of a name are passed over.
    pub fn ignores(&self, name: &str) -> (r: bool)
        ensures
            r == self.is_ignored(name@),
    {
        let mut i: usize = 0;
        while i < self.ignore_patterns.len()
            invariant
                i <= self.ignore_patterns@.len(),
                forall|j: int|
                    0 <= j < i ==> !glob::matches_glob(
                        (#[trigger] self.ignore_patterns@[j])@,
                        name@,
                    ),
            decreases self.ignore_patterns@.len() - i,
        {
            if glob_matches(self.ignore_patterns[i].as_str(), name) {
                assert(glob::matches_glob(self.ignore_patterns@[i as int]@, name@));
                return true;
            }
            i += 1;
        }
        false
    }
}

/// Something in a directory.
#[derive(Debug)]
pub struct DirEntry {
    /// The name in the directory.
    pub name: String,
    /// The path.
    pub path: String,
    /// What it is.
    pub kind: EntryKind,
}

/// What is in a directory.
#[derive(Debug)]
pub enum EntryKind {
    /// A directory with what is in it, unless that cannot be read.
    Directory(Option<Vec<DirEntry>>),
    /// A file with its modification time in nanoseconds from the Unix epoch, unless that cannot
    /// be read.
    File(Option<i128>),
    /// Neither.
    Other,
}

/// Files by their paths, with their modification times.
pub type KnownFiles = StrMap<i128>;

/// How many levels of directories may be entered from here: those above the limit, if there is
/// one.
pub open spec fn level_below(levels: Option<usize>) -> Option<usize> {
    match levels {
        Some(n) => Some((n - 1) as usize),
        None => None,
    }
}

/// Whether a directory may be entered, where so many levels are left.
pub open spec fn may_enter(levels: Option<usize>) -> bool {
    levels != Some(0usize)
}

/// Whether a directory may be entered, where so many levels are left.
pub fn can_enter(levels: Option<usize>) -> (r: bool)
    ensures
        r == may_enter(levels),
{
    match levels {
        Some(n) => n > 0,
        None => true,
    }
}

/// How many levels are left in a directory that was entered.
pub fn next_level(levels: Option<usize>) -> (r: Option<usize>)
    requires
        may_enter(levels),
    ensures
        r == level_below(levels),
{
    match levels {
        Some(n) => Some(n - 1),
        None => None,
    }
}

/// The files that are found in a directory, on top of those already found.
pub open spec fn scanned(
    entries: Seq<DirEntry>,
    config: FileWatcherConfig,
    levels: Option<usize>,
    files: Map<Seq<char>, i128>,
) -> Map<Seq<char>, i128>
    decreases entries,
{
    if entries.len() == 0 {
        files
    } else {
        let before = scanned(entries.drop_last(), config, levels, files);
        let entry = entries.last();
        if config.is_ignored(entry.name@) {
            before
        } else {
            match entry.kind {
                EntryKind::Directory(Some(inner)) => if may_enter(levels) {
                    scanned(inner@, config, level_below(levels), before)
                } else {
                    before
                },
                EntryKind::File(Some(mtime)) => before.insert(entry.path@, mtime),
                _ => before,
            }
        }
    }
}

/// The files that are found under a directory that may not be readable.
pub open spec fn scanned_root(
    root: Option<Vec<DirEntry>>,
    config: FileWatcherConfig,
    files: Map<Seq<char>, i128>,
) -> Map<Seq<char>, i128> {
    match root {
        Some(entries) => scanned(entries@, config, config.max_depth, files),
        None => files,
    }
}

/// Collect the files under a directory with their modification times.
pub fn scan_directory(
    root: &Option<Vec<DirEntry>>,
    config: &FileWatcherConfig,
    files: &mut KnownFiles,
)
    ensures
        final(files)@ == scanned_root(*root, *config, old(files)@),
{
    match root {
        Some(entries) => scan_recursive(entries, config, files, config.max_depth),
        None => {},
    }
}

/// Collect the files in a directory, where so many levels of directories may be entered from it.
pub fn scan_recursive(
    entries: &Vec<DirEntry>,
    config: &FileWatcherConfig,
    files: &mut KnownFiles,
    levels: Option<usize>,
)
    ensures
        final(files)@ == scanned(entries@, *config, levels, old(files)@),
    decreases entries,
{
    let ghost first = files@;
    let mut i: usize = 0;
    proof {
        assert(entries@.take(0) =~= Seq::empty());
    }
    while i < entries.len()
        invariant
            i <= entries@.len(),
            files@ == scanned(entries@.take(i as int), *config, levels, first),
        decreases entries@.len() - i,
    {
        proof {
            assert(entries@.take(i + 1).drop_last() =~= entries@.take(i as int));
            assert(entries@.take(i + 1).last() == entries@[i as int]);
            assert(decreases_to!(*entries => entries@[i as int]));
        }
        let entry = &entries[i];
        if !config.ignores(entry.name.as_str()) {
            match &entry.kind {
                EntryKind::Directory(Some(inner)) => {
                    if can_enter(levels) {
                        proof {
                            assert(decreases_to!(*entry => entry.kind));
                            assert(decreases_to!(entry.kind => entry.kind->Directory_0));
                            assert(decreases_to!(entry.kind->Directory_0 => *inner));
                        }
                        scan_recursive(inner, config, files, next_level(levels));
                    }
                },
                EntryKind::File(Some(mtime)) => {
                    files.insert(entry.path.as_str(), *mtime);
                },
                _ => {},
            }
        }
        i += 1;
    }
    proof {
        assert(entries@.take(entries@.len() as int) =~= entries@);
    }
}

/// The changes of the files that are there, in the order of a list of them.
pub open spec fn found_changes(
    current: Seq<(String, i128)>,
    known: Map<Seq<char>, i128>,
) -> Seq<(Seq<char>, FileChangeKind)>
    decreases current.len(),
{
    if current.len() == 0 {
        Seq::empty()
    } else {
        let before = found_changes(current.drop_last(), known);
        let path = current.last().0@;
        if !known.contains_key(path) {
            before.push((path, FileChangeKind::Created))
        } else if known[path] != current.last().1 {
            before.push((path, FileChangeKind::Modified))
        } else {
            before
        }
    }
}

/// The changes of the files that are gone, in the order of a list of what was known.
pub open spec fn lost_changes(
    known: Seq<(String, i128)>,
    current: Map<Seq<char>, i128>,
) -> Seq<(Seq<char>, FileChangeKind)>
    decreases known.len(),
{
    if known.len() == 0 {
        Seq::empty()
    } else {
        let before = lost_changes(known.drop_last(), current);
        let path = known.last().0@;
        if !current.contains_key(path) {
            before.push((path, FileChangeKind::Deleted))
        } else {
            before
        }
    }
}

/// The changes between what was known and what is there.
pub open spec fn changes_between(known: KnownFiles, current: KnownFiles) -> Seq<
    (Seq<char>, FileChangeKind),
> {
    found_changes(current.pairs(), known@) + lost_changes(known.pairs(), current@)
}

fn push_change(changes: &mut Vec<FileChange>, path: &String, kind: FileChangeKind)
    ensures
        change_views(final(changes)@) == change_views(old(changes)@).push((path@, kind)),
{
    changes.push(FileChange { path: path.clone(), kind });
    proof {
        assert(change_views(changes@) =~= change_views(old(changes)@).push((path@, kind)));
    }
}

/// Find the changes of what is known, and know what is there from then on.
pub fn detect_changes(
    root: &Option<Vec<DirEntry>>,
    config: &FileWatcherConfig,
    known: &mut KnownFiles,
) -> (r: Vec<FileChange>)
    ensures
        final(known)@ == scanned_root(*root, *config, Map::empty()),
        change_views(r@) == changes_between(*old(known), *final(known)),
{
    let mut current: KnownFiles = StrMap::new();
    scan_directory(root, config, &mut current);
    let mut changes: Vec<FileChange> = Vec::new();
    let n: usize = current.len();
    let mut i: usize = 0;
    proof {
        assert(current.pairs().take(0) =~= Seq::empty());
        assert(change_views(changes@) =~= Seq::empty());
    }
    while i < n
        invariant
            i <= n,
            n == current.pairs().len(),
            *known == *old(known),
            change_views(changes@) == found_changes(current.pairs().take(i as int), known@),
        decreases n - i,
    {
        let (path, mtime) = current.pair(i);
        proof {
            assert(current.pairs().take(i + 1).drop_last() =~= current.pairs().take(i as int));
        }
        match known.get(path.as_str()) {
            None => push_change(&mut changes, path, FileChangeKind::Created),
            Some(old_mtime) => {
                if *old_mtime != *mtime {
                    push_change(&mut changes, path, FileChangeKind::Modified);
                }
            },
        }
        i += 1;
    }
    proof {
        assert(current.pairs().take(n as int) =~= current.pairs());
    }
    let ghost found = change_views(changes@);
    let m: usize = known.len();
    let mut j: usize = 0;
    proof {
        assert(known.pairs().take(0) =~= Seq::empty());
        assert(found + lost_changes(known.pairs().take(0), current@) =~= found);
    }
    while j < m
        invariant
            j <= m,
            m == known.pairs().len(),
            *known == *old(known),
            change_views(changes@) == found + lost_changes(known.pairs().take(j as int), current@),
        decreases m - j,
    {
        let (path, _) = known.pair(j);
        proof {
            assert(known.pairs().take(j + 1).drop_last() =~= known.pairs().take(j as int));
        }
        if !current.contains_key(path.as_str()) {
            push_change(&mut changes, path, FileChangeKind::Deleted);
            proof {
                assert(change_views(changes@) =~= found + lost_changes(
                    known.pairs().take(j + 1),
                    current@,
                ));
            }
        }
        j += 1;
    }
    proof {
        assert(known.pairs().take(m as int) =~= known.pairs());
    }
    *known = current;
    changes
}

/// Something that a watcher is told.
#[derive(Debug)]
pub enum WatchEvent {
    /// It is time to poll; the clock shows `now`, in nanoseconds.
    Tick { now: u128 },
    /// The directory was read; the clock shows `now`, in nanoseconds.
    Scanned { root: Option<Vec<DirEntry>>, now: u128 },
    /// The request to stop changed, or the one who could make it is gone.
    CancelChanged { requested: bool, closed: bool },
    /// The receiver of the changes is gone.
    ReceiverGone,
}

/// Why a watcher stops.
#[derive(Debug, Clone, Copy, PartialEq, Eq, Structural)]
pub enum StopReason {
    /// Nothing has changed for too long.
    Inactive,
    /// A stop was requested, or nobody is left who could request one.
    Cancelled,
    /// Nobody receives the changes any more.
    ChannelClosed,
}

/// What a watcher asks for.
#[derive(Debug)]
pub enum WatchAction {
    /// Read the directory.
    Scan,
    /// Send the changes to the receiver.
    Report(Vec<FileChange>),
    /// Wait for what comes next.
    Wait,
    /// Stop watching.
    Stop(StopReason),
}

/// What a watcher remembers.
#[derive(Debug)]
pub struct WatchState {
    /// The files that were found last.
    pub known: KnownFiles,
    /// When a change was found last, in nanoseconds.
    pub last_change: u128,
}

/// Whether the time between two readings of the clock is long enough.
pub open spec fn has_elapsed(since: u128, now: u128, time: u128) -> bool {
    (if now >= since {
        now - since
    } else {
        0
    }) >= time
}

/// Whether an action reports the given changes.
pub open spec fn reports(action: WatchAction, changes: Seq<(Seq<char>, FileChangeKind)>) -> bool {
    action matches WatchAction::Report(list) && change_views(list@) == changes
}

impl WatchState {
    /// Start watching with what is there, when the clock shows `now`.
    pub fn start(root: &Option<Vec<DirEntry>>, config: &FileWatcherConfig, now: u128) -> (r: Self)
        ensures
            r.known@ == scanned_root(*root, *config, Map::empty()),
            r.last_change == now,
    {
        let mut known: KnownFiles = StrMap::new();
        scan_directory(root, config, &mut known);
        WatchState { known, last_change: now }
    }

    /// Take note of an event, and say what to do.
    ///
    /// A poll first tests whether nothing has changed for too long. Found changes are reported
    /// and put that test off.
    pub fn step(&mut self, event: &WatchEvent, config: &FileWatcherConfig) -> (r: WatchAction)
        ensures
            match *event {
                WatchEvent::Tick { now } => {
                    &&& *final(self) == *old(self)
                    &&& r == if has_elapsed(
                        old(self).last_change,
                        now,
                        config.inactivity_timeout,
                    ) {
                        WatchAction::Stop(StopReason::Inactive)
                    } else {
                        WatchAction::Scan
                    }
                },
                WatchEvent::Scanned { root, now } => {
                    let changes = changes_between(old(self).known, final(self).known);
                    &&& final(self).known@ == scanned_root(root, *config, Map::empty())
                    &&& final(self).last_change == if changes.len() > 0 {
                        now
                    } else {
                        old(self).last_change
                    }
                    &&& reports(r, changes)
                },
                WatchEvent::CancelChanged { requested, closed } => {
                    &&& *final(self) == *old(self)
                    &&& r == if closed || requested {
                        WatchAction::Stop(StopReason::Cancelled)
                    } else {
                        WatchAction::Wait
                    }
                },
                WatchEvent::ReceiverGone => {
                    &&& *final(self) == *old(self)
                    &&& r == WatchAction::Stop(StopReason::ChannelClosed)
                },
            },
    {
        match event {
            WatchEvent::Tick { now } => {
                let elapsed: u128 = if *now >= self.last_change {
                    *now - self.last_change
                } else {
                    0
                };
                if elapsed >= config.inactivity_timeout {
                    WatchAction::Stop(StopReason::Inactive)
                } else {
                    WatchAction::Scan
                }
            },
            WatchEvent::Scanned { root, now } => {
                let changes = detect_changes(root, config, &mut self.known);
                if changes.len() > 0 {
                    self.last_change = *now;
                }
                WatchAction::Report(changes)
            },
            WatchEvent::CancelChanged { requested, closed } => {
                if *closed || *requested {
                    WatchAction::Stop(StopReason::Cancelled)
                } else {
                    WatchAction::Wait
                }
            },
            WatchEvent::ReceiverGone => WatchAction::Stop(StopReason::ChannelClosed),
        }
    }
}

/// Whether a path is found in a directory: the file is there with a readable modification time,
/// no name on the way to it is ignored, and it is not too deep.
pub open spec fn is_reachable(
    entries: Seq<DirEntry>,
    config: FileWatcherConfig,
    levels: Option<usize>,
    path: Seq<char>,
) -> bool
    decreases entries,
{
    exists|i: int|
        0 <= i < entries.len() && is_found_at(#[trigger] entries[i], config, levels, path)
}

/// Whether a path is found at an entry of a directory.
pub open spec fn is_found_at(
    entry: DirEntry,
    config: FileWatcherConfig,
    levels: Option<usize>,
    path: Seq<char>,
) -> bool
    decreases entry,
{
    &&& !config.is_ignored(entry.name@)
    &&& match entry.kind {
        EntryKind::Directory(Some(inner)) => may_enter(levels) && is_reachable(
            inner@,
            config,
            level_below(levels),
            path,
        ),
        EntryKind::File(Some(mtime)) => entry.path@ == path,
        _ => false,
    }
}

/// A path is found by a scan exactly when it was found before or is reachable.
pub proof fn law_scan_finds_reachable_files(
    entries: Seq<DirEntry>,
    config: FileWatcherConfig,
    levels: Option<usize>,
    files: Map<Seq<char>, i128>,
    path: Seq<char>,
)
    ensures
        scanned(entries, config, levels, files).contains_key(path) <==> files.contains_key(path)
            || is_reachable(entries, config, levels, path),
    decreases entries,
{
    if entries.len() > 0 {
        let init = entries.drop_last();
        let entry = entries.last();
        let before = scanned(init, config, levels, files);
        law_scan_finds_reachable_files(init, config, levels, files, path);
        assert(decreases_to!(entries => entries[entries.len() - 1]));
        match entry.kind {
            EntryKind::Directory(Some(inner)) => {
                assert(decreases_to!(entry => entry.kind));
                assert(decreases_to!(entry.kind => entry.kind->Directory_0));
                assert(decreases_to!(entry.kind->Directory_0 => inner));
                law_scan_finds_reachable_files(inner@, config, level_below(levels), before, path);
            },
            _ => {},
        }
        if is_reachable(init, config, levels, path) {
            let i = choose|i: int|
                0 <= i < init.len() && is_found_at(#[trigger] init[i], config, levels, path);
            assert(is_found_at(entries[i], config, levels, path));
        }
        if is_found_at(entry, config, levels, path) {
            assert(is_found_at(entries[entries.len() - 1], config, levels, path));
        }
        if is_reachable(entries, config, levels, path) {
            let i = choose|i: int|
                0 <= i < entries.len() && is_found_at(#[trigger] entries[i], config, levels, path);
            if i < init.len() {
                assert(is_found_at(init[i], config, levels, path));
            }
        }
    }
}

proof fn lemma_found_changes(
    current: Seq<(String, i128)>,
    known: Map<Seq<char>, i128>,
    path: Seq<char>,
)
    requires
        strmap::distinct_keys(current),
    ensures
        found_changes(current, known).contains((path, FileChangeKind::Created)) <==> (
        strmap::pairs_map(current).contains_key(path) && !known.contains_key(path)),
        found_changes(current, known).contains((path, FileChangeKind::Modified)) <==> (
        strmap::pairs_map(current).contains_key(path) && known.contains_key(path)
            && strmap::pairs_map(current)[path] != known[path]),
        !found_changes(current, known).contains((path, FileChangeKind::Deleted)),
    decreases current.len(),
{
    broadcast use vstd::seq_lib::group_seq_properties;

    if current.len() > 0 {
        let init = current.drop_last();
        assert(strmap::distinct_keys(init));
        lemma_found_changes(init, known, path);
        let last = current.last().0@;
        strmap::lemma_pairs_map_dom(init, last);
        if strmap::pairs_map(init).contains_key(last) {
            let i = choose|i: int|
                0 <= i < init.len() && #[trigger] strmap::key_at(init, i) == last;
            assert(current[i].0@ == current[current.len() - 1].0@);
        }
    }
}

proof fn lemma_lost_changes(
    known: Seq<(String, i128)>,
    current: Map<Seq<char>, i128>,
    path: Seq<char>,
)
    ensures
        lost_changes(known, current).contains((path, FileChangeKind::Deleted)) <==> (
        strmap::pairs_map(known).contains_key(path) && !current.contains_key(path)),
        !lost_changes(known, current).contains((path, FileChangeKind::Created)),
        !lost_changes(known, current).contains((path, FileChangeKind::Modified)),
    decreases known.len(),
{
    broadcast use vstd::seq_lib::group_seq_properties;

    if known.len() > 0 {
        lemma_lost_changes(known.drop_last(), current, path);
    }
}

/// A file is reported as created exactly when it is new, as modified exactly when its
/// modification time changed, and as deleted exactly when it is gone.
pub proof fn law_changes_are_exact(known: KnownFiles, current: KnownFiles, path: Seq<char>)
    requires
        strmap::distinct_keys(current.pairs()),
    ensures
        changes_between(known, current).contains((path, FileChangeKind::Created)) <==> (
        current@.contains_key(path) && !known@.contains_key(path)),
        changes_between(known, current).contains((path, FileChangeKind::Modified)) <==> (
        current@.contains_key(path) && known@.contains_key(path) && current@[path]
            != known@[path]),
        changes_between(known, current).contains((path, FileChangeKind::Deleted)) <==> (
        known@.contains_key(path) && !current@.contains_key(path)),
{
    broadcast use vstd::seq_lib::group_seq_properties;

    lemma_found_changes(current.pairs(), known@, path);
    lemma_lost_changes(known.pairs(), current@, path);
}

/// Where the same files with the same modification times are found again, nothing is reported.
pub proof fn law_nothing_changed_nothing_reported(known: KnownFiles, current: KnownFiles)
    requires
        strmap::distinct_keys(current.pairs()),
        known@ == current@,
    ensures
        changes_between(known, current).len() == 0,
{
    let changes = changes_between(known, current);
    if changes.len() > 0 {
        let (path, kind) = changes[0];
        law_changes_are_exact(known, current, path);
        assert(changes.contains(changes[0]));
    }
}

/// Where nothing is reported, the same files with the same modification times were found.
pub proof fn law_nothing_reported_nothing_changed(known: KnownFiles, current: KnownFiles)
    requires
        strmap::distinct_keys(current.pairs()),
        changes_between(known, current).len() == 0,
    ensures
        known@ == current@,
{
    let changes = changes_between(known, current);
    assert forall|path: Seq<char>| #[trigger] known@.contains_key(path) implies
        current@.contains_key(path) && current@[path] == known@[path] by {
        law_changes_are_exact(known, current, path);
        assert(!changes.contains((path, FileChangeKind::Deleted)));
        assert(!changes.contains((path, FileChangeKind::Modified)));
    }
    assert forall|path: Seq<char>| #[trigger] current@.contains_key(path) implies
        known@.contains_key(path) by {
        law_changes_are_exact(known, current, path);
        assert(!changes.contains((path, FileChangeKind::Created)));
    }
    assert(known@ =~= current@);
}

/// No path occurs twice in a list of changes.
pub open spec fn distinct_paths(changes: Seq<(Seq<char>, FileChangeKind)>) -> bool {
    forall|i: int, j: int|
        0 <= i < j < changes.len() ==> (#[trigger] changes[i]).0 != (#[trigger] changes[j]).0
}

/// Whether a path occurs in a list of changes.
pub open spec fn is_reported(
    changes: Seq<(Seq<char>, FileChangeKind)>,
    path: Seq<char>,
) -> bool {
    exists|i: int| 0 <= i < changes.len() && (#[trigger] changes[i]).0 == path
}

proof fn lemma_reported_push(
    changes: Seq<(Seq<char>, FileChangeKind)>,
    change: (Seq<char>, FileChangeKind),
)
    requires
        distinct_paths(changes),
        !is_reported(changes, change.0),
    ensures
        distinct_paths(changes.push(change)),
{
    let all = changes.push(change);
    assert forall|i: int, j: int| 0 <= i < j < all.len() implies (#[trigger] all[i]).0 != (
    #[trigger] all[j]).0 by {
        assert(all[i] == changes[i]);
        if j < changes.len() {
            assert(all[j] == changes[j]);
        }
    }
}

proof fn lemma_push_reports(
    changes: Seq<(Seq<char>, FileChangeKind)>,
    change: (Seq<char>, FileChangeKind),
    path: Seq<char>,
)
    ensures
        is_reported(changes.push(change), path) ==> path == change.0 || is_reported(changes, path),
{
    let all = changes.push(change);
    if is_reported(all, path) {
        let i = choose|i: int| 0 <= i < all.len() && (#[trigger] all[i]).0 == path;
        if i < changes.len() {
            assert(changes[i].0 == path);
        }
    }
}

proof fn lemma_found_once(
    current: Seq<(String, i128)>,
    known: Map<Seq<char>, i128>,
)
    requires
        strmap::distinct_keys(current),
    ensures
        distinct_paths(found_changes(current, known)),
        forall|path: Seq<char>| #[trigger]
            is_reported(found_changes(current, known), path) ==> strmap::pairs_map(
                current,
            ).contains_key(path),
    decreases current.len(),
{
    if current.len() > 0 {
        let init = current.drop_last();
        assert(strmap::distinct_keys(init));
        lemma_found_once(init, known);
        let last = current.last().0@;
        strmap::lemma_pairs_map_dom(init, last);
        if strmap::pairs_map(init).contains_key(last) {
            let i = choose|i: int|
                0 <= i < init.len() && #[trigger] strmap::key_at(init, i) == last;
            assert(current[i].0@ == current[current.len() - 1].0@);
        }
        let before = found_changes(init, known);
        assert(!is_reported(before, last));
        lemma_reported_push(before, (last, FileChangeKind::Created));
        lemma_reported_push(before, (last, FileChangeKind::Modified));
        assert forall|path: Seq<char>| #[trigger]
            is_reported(found_changes(current, known), path) implies strmap::pairs_map(
            current,
        ).contains_key(path) by {
            lemma_push_reports(before, (last, FileChangeKind::Created), path);
            lemma_push_reports(before, (last, FileChangeKind::Modified), path);
        }
    }
}

proof fn lemma_lost_once(known: Seq<(String, i128)>, current: Map<Seq<char>, i128>)
    requires
        strmap::distinct_keys(known),
    ensures
        distinct_paths(lost_changes(known, current)),
        forall|path: Seq<char>| #[trigger]
            is_reported(lost_changes(known, current), path) ==> strmap::pairs_map(
                known,
            ).contains_key(path) && !current.contains_key(path),
    decreases known.len(),
{
    if known.len() > 0 {
        let init = known.drop_last();
        assert(strmap::distinct_keys(init));
        lemma_lost_once(init, current);
        let last = known.last().0@;
        strmap::lemma_pairs_map_dom(init, last);
        if strmap::pairs_map(init).contains_key(last) {
            let i = choose|i: int|
                0 <= i < init.len() && #[trigger] strmap::key_at(init, i) == last;
            assert(known[i].0@ == known[known.len() - 1].0@);
        }
        let before = lost_changes(init, current);
        assert(!is_reported(before, last));
        lemma_reported_push(before, (last, FileChangeKind::Deleted));
        assert forall|path: Seq<char>| #[trigger]
            is_reported(lost_changes(known, current), path) implies strmap::pairs_map(
            known,
        ).contains_key(path) && !current.contains_key(path) by {
            lemma_push_reports(before, (last, FileChangeKind::Deleted), path);
        }
    }
}

/// No path is reported twice.
pub proof fn law_path_is_reported_once(known: KnownFiles, current: KnownFiles)
    requires
        strmap::distinct_keys(known.pairs()),
        strmap::distinct_keys(current.pairs()),
    ensures
        distinct_paths(changes_between(known, current)),
{
    let found = found_changes(current.pairs(), known@);
    let lost = lost_changes(known.pairs(), current@);
    lemma_found_once(current.pairs(), known@);
    lemma_lost_once(known.pairs(), current@);
    let all = found + lost;
    assert forall|i: int, j: int| 0 <= i < j < all.len() implies (#[trigger] all[i]).0 != (
    #[trigger] all[j]).0 by {
        if j < found.len() {
            assert(all[i] == found[i] && all[j] == found[j]);
        } else if i >= found.len() {
            assert(all[i] == lost[i - found.len()] && all[j] == lost[j - found.len()]);
        } else {
            assert(all[i] == found[i] && all[j] == lost[j - found.len()]);
            assert(is_reported(found, found[i].0));
            assert(is_reported(lost, lost[j - found.len()].0));
        }
    }
}

/// A directory may be entered unless no level is left, and takes one level. Without a limit any
/// may be.
pub proof fn law_levels_are_counted_down(n: usize)
    ensures
        may_enter(None),
        level_below(None) is None,
        may_enter(Some(n)) <==> n > 0,
        n > 0 ==> level_below(Some(n)) == Some((n - 1) as usize),
{
}

/// An entry adds to a scan: a file its path with its modification time, a directory what is found
/// in it. A name that a pattern describes adds nothing, nor does what cannot be read or lies too
/// deep.
pub proof fn law_entry_adds_to_the_scan(
    entries: Seq<DirEntry>,
    entry: DirEntry,
    config: FileWatcherConfig,
    levels: Option<usize>,
    files: Map<Seq<char>, i128>,
)
    ensures
        scanned(Seq::empty(), config, levels, files) == files,
        ({
            let before = scanned(entries, config, levels, files);
            let after = scanned(entries.push(entry), config, levels, files);
            let passed_over = exists|i: int|
                0 <= i < config.ignore_patterns@.len() && glob::matches_glob(
                    (#[trigger] config.ignore_patterns@[i])@,
                    entry.name@,
                );
            &&& passed_over ==> after == before
            &&& !passed_over ==> match entry.kind {
                EntryKind::File(Some(mtime)) => after == before.insert(entry.path@, mtime),
                EntryKind::File(None) => after == before,
                EntryKind::Directory(None) => after == before,
                EntryKind::Other => after == before,
                EntryKind::Directory(Some(inner)) => match levels {
                    None => after == scanned(inner@, config, None, before),
                    Some(n) => {
                        &&& n == 0 ==> after == before
                        &&& n > 0 ==> after == scanned(
                            inner@,
                            config,
                            Some((n - 1) as usize),
                            before,
                        )
                    },
                },
            }
        }),
{
    assert(entries.push(entry).drop_last() =~= entries);
}

/// A scan starts with all the levels of the configuration, and finds nothing where the directory
/// cannot be read.
pub proof fn law_scan_starts_at_the_root(
    entries: Vec<DirEntry>,
    config: FileWatcherConfig,
    files: Map<Seq<char>, i128>,
)
    ensures
        scanned_root(None, config, files) == files,
        scanned_root(Some(entries), config, files) == scanned(
            entries@,
            config,
            config.max_depth,
            files,
        ),
{
}

/// The changes of the files that are there come in their order, and those of the files that are
/// gone behind them.
pub proof fn law_changes_come_in_order(
    current: Seq<(String, i128)>,
    pair: (String, i128),
    before: Map<Seq<char>, i128>,
    now: KnownFiles,
    known: KnownFiles,
)
    ensures
        found_changes(Seq::empty(), before).len() == 0,
        lost_changes(Seq::empty(), before).len() == 0,
        !before.contains_key(pair.0@) ==> found_changes(current.push(pair), before)
            == found_changes(current, before).push((pair.0@, FileChangeKind::Created)),
        before.contains_key(pair.0@) && before[pair.0@] != pair.1 ==> found_changes(
            current.push(pair),
            before,
        ) == found_changes(current, before).push((pair.0@, FileChangeKind::Modified)),
        before.contains_key(pair.0@) && before[pair.0@] == pair.1 ==> found_changes(
            current.push(pair),
            before,
        ) == found_changes(current, before),
        !before.contains_key(pair.0@) ==> lost_changes(current.push(pair), before)
            == lost_changes(current, before).push((pair.0@, FileChangeKind::Deleted)),
        before.contains_key(pair.0@) ==> lost_changes(current.push(pair), before) == lost_changes(
            current,
            before,
        ),
        changes_between(known, now) == found_changes(now.pairs(), known@) + lost_changes(
            known.pairs(),
            now@,
        ),
{
    assert(current.push(pair).drop_last() =~= current);
}

/// A time has passed exactly where the clock shows it or more after the earlier reading; a clock
/// that went back shows that no time has passed.
pub proof fn law_time_passes_with_the_clock(since: u128, now: u128, time: u128)
    ensures
        has_elapsed(since, now, time) <==> time == 0 || since + time <= now,
{
}

/// A report lists the changes one by one, each with its path and its kind.
pub proof fn law_report_lists_the_changes(
    action: WatchAction,
    changes: Seq<(Seq<char>, FileChangeKind)>,
    i: int,
)
    requires
        reports(action, changes),
    ensures
        action matches WatchAction::Report(list) && list@.len() == changes.len() && (0 <= i
            < changes.len() ==> list@[i].path@ == changes[i].0 && list@[i].kind == changes[i].1),
{
    if let WatchAction::Report(list) = action {
        let views = change_views(list@);
        assert(views.len() == list@.len());
        if 0 <= i < changes.len() {
            assert(views[i] == list@[i]@);
        }
    }
}

} // verus!
