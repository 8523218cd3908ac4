//! Listing, finding and deleting saved sessions.
//!
//! The functions work on what the index file of a session directory holds and on the names of
//! the files in it. Reading and removing the files is left to the caller.

use crate::json;
use crate::json::Json;
use crate::sorting;
use crate::sorting::{sort, Ranked};
use crate::text;
use crate::text::{concat2, str_eq};
use vstd::prelude::*;

verus! {

/// What is known of a saved session.
#[derive(Debug)]
pub struct SessionMetadata {
    /// The session's identifier.
    pub id: String,
    /// When the session last changed, in nanoseconds from the Unix epoch.
    pub updated_at: i128,
    /// The channel over which the session is held.
    pub channel: String,
    /// The user on that channel.
    pub channel_user_id: String,
    /// The thread on that channel.
    pub thread_id: Option<String>,
    /// The owner of the session.
    pub owner_id: Option<String>,
    /// The other fields that are stored with the session.
    pub details: Json,
}

/// An entry of the index of a session directory.
#[derive(Debug)]
pub struct SessionEntry {
    /// The session.
    pub metadata: SessionMetadata,
    /// When the session was archived, in nanoseconds from the Unix epoch.
    pub time_archived: Option<i128>,
}

impl Ranked for SessionMetadata {
    open spec fn ranks_before(&self, other: &Self) -> bool {
        self.updated_at > other.updated_at
    }

    proof fn asymmetric(a: &Self, b: &Self) {
    }

    proof fn negatively_transitive(a: &Self, b: &Self, c: &Self) {
    }

    fn is_before(&self, other: &Self) -> (r: bool) {
        self.updated_at > other.updated_at
    }
}

/// Whether an entry is listed: archived ones only on request.
pub open spec fn is_shown(entry: SessionEntry, include_archived: bool) -> bool {
    include_archived || entry.time_archived is None
}

/// Whether a session belongs to an owner; without one every session does.
pub open spec fn belongs_to(session: SessionMetadata, owner: Option<Seq<char>>) -> bool {
    match owner {
        Some(name) => session.owner_id matches Some(id) && id@ == name,
        None => true,
    }
}

/// The sessions of an index that are listed, in the order of the index.
pub open spec fn shown_sessions(
    entries: Seq<SessionEntry>,
    owner: Option<Seq<char>>,
    include_archived: bool,
) -> Seq<SessionMetadata> {
    entries.filter(
        |e: SessionEntry| is_shown(e, include_archived) && belongs_to(e.metadata, owner),
    ).map_values(|e: SessionEntry| e.metadata)
}

/// The list of the sessions of an index, those that changed last first.
///
/// Without a readable index there are none.
pub open spec fn listed(
    index: Option<Seq<SessionEntry>>,
    owner: Option<Seq<char>>,
    include_archived: bool,
) -> Seq<SessionMetadata> {
    match index {
        Some(entries) => sorting::sorted(shown_sessions(entries, owner, include_archived)),
        None => Seq::empty(),
    }
}

/// The entries of an index that may be missing.
pub open spec fn index_view(index: Option<Vec<SessionEntry>>) -> Option<Seq<SessionEntry>> {
    match index {
        Some(entries) => Some(entries@),
        None => None,
    }
}

/// Whether a session is held by a user on a channel, in a thread if one is given.
pub open spec fn is_held_by(
    session: SessionMetadata,
    channel: Seq<char>,
    user_id: Seq<char>,
    thread_id: Option<Seq<char>>,
) -> bool {
    &&& session.channel@ == channel
    &&& session.channel_user_id@ == user_id
    &&& match thread_id {
        Some(thread) => session.thread_id matches Some(id) && id@ == thread,
        None => true,
    }
}

/// The test whether a session is held by a user on a channel, in a thread if one is given.
pub open spec fn held_by(
    channel: Seq<char>,
    user_id: Seq<char>,
    thread_id: Option<Seq<char>>,
) -> spec_fn(SessionMetadata) -> bool {
    |s: SessionMetadata| is_held_by(s, channel, user_id, thread_id)
}

/// The session of an index that a user holds on a channel: the one that changed last.
pub open spec fn found_session(
    index: Option<Seq<SessionEntry>>,
    channel: Seq<char>,
    user_id: Seq<char>,
    thread_id: Option<Seq<char>>,
) -> Option<SessionMetadata> {
    first_of(listed(index, None, false).filter(held_by(channel, user_id, thread_id)))
}

/// The first value of a list, if it has one.
pub open spec fn first_of<T>(s: Seq<T>) -> Option<T> {
    if s.len() > 0 {
        Some(s[0])
    } else {
        None
    }
}

/// The extension of the file of a session.
pub const METADATA_EXTENSION: &'static str = ".json";

/// The extension of the transcript of a session.
pub const TRANSCRIPT_EXTENSION: &'static str = ".jsonl";

/// The extension of the log of a session.
pub const DEBUG_EXTENSION: &'static str = ".debug";

/// Whether a file name has the extension of the file of a session, behind a name of its own.
pub open spec fn has_session_extension(name: Seq<char>) -> bool {
    &&& name.len() > METADATA_EXTENSION@.len()
    &&& name.subrange(name.len() - METADATA_EXTENSION@.len(), name.len() as int)
        == METADATA_EXTENSION@
}

/// Whether a file name is that of a session, where the index has the name `index_name`.
pub open spec fn is_session_file(name: Seq<char>, index_name: Seq<char>) -> bool {
    has_session_extension(name) && name != index_name
}

/// What stands directly under the directory of the projects.
#[derive(Debug)]
pub struct WorkspaceEntry {
    /// The name of the entry.
    pub name: String,
    /// The names of what the entry holds; none where it is no directory or cannot be read.
    pub files: Option<Vec<String>>,
}

/// Whether an entry is a directory with a session in it.
pub open spec fn has_sessions(entry: WorkspaceEntry, index_name: Seq<char>) -> bool {
    entry.files matches Some(files) && exists|i: int|
        0 <= i < files@.len() && is_session_file(#[trigger] files@[i]@, index_name)
}

/// The names of the directories with a session in them, in the order of the entries.
pub open spec fn session_directories(
    entries: Seq<WorkspaceEntry>,
    index_name: Seq<char>,
) -> Seq<String> {
    entries.filter(|e: WorkspaceEntry| has_sessions(e, index_name)).map_values(
        |e: WorkspaceEntry| e.name,
    )
}

/// The sessions of several indexes, one list behind the other.
pub open spec fn merged(indexes: Seq<Option<Vec<SessionEntry>>>) -> Seq<SessionMetadata>
    decreases indexes.len(),
{
    if indexes.len() == 0 {
        Seq::empty()
    } else {
        merged(indexes.drop_last()) + listed(index_view(indexes.last()), None, false)
    }
}

/// The test whether an entry is of another session than the given one.
pub open spec fn of_another(id: Seq<char>) -> spec_fn(SessionEntry) -> bool {
    |e: SessionEntry| e.metadata.id@ != id
}

/// The entries of an index without those of a session.
pub open spec fn without_session(entries: Seq<SessionEntry>, id: Seq<char>) -> Seq<SessionEntry> {
    entries.filter(of_another(id))
}

/// What the deletion of a session removes and leaves.
#[derive(Debug)]
pub struct SessionDeletion {
    /// The names of the files to remove where they exist, in this order.
    pub files: Vec<String>,
    /// The index that is left.
    pub index: Option<Vec<SessionEntry>>,
}

/// The sessions of one directory.
#[derive(Debug)]
pub struct SessionListing {
    session_dir: String,
}

impl SessionListing {
    /// The directory of the sessions.
    pub closed spec fn dir(&self) -> Seq<char> {
        self.session_dir@
    }

    /// The sessions of a directory.
    pub fn new(session_dir: String) -> (r: Self)
        ensures
            r.dir() == session_dir@,
    {
        SessionListing { session_dir }
    }

    /// The directory of the sessions.
    pub fn session_dir(&self) -> (r: &str)
        ensures
            r@ == self.dir(),
    {
        self.session_dir.as_str()
    }

    /// List the sessions of an index, optionally those of one owner only.
    pub fn list_sessions(
        &self,
        index: Option<Vec<SessionEntry>>,
        owner_id: Option<&str>,
        include_archived: bool,
    ) -> (r: Vec<SessionMetadata>)
        ensures
            r@ == listed(index_view(index), json::option_chars(owner_id), include_archived),
    {
        list_index(index, owner_id, include_archived)
    }

    /// Find the session that changed last.
    pub fn find_latest_session(&self, index: Option<Vec<SessionEntry>>) -> (r: Option<
        SessionMetadata,
    >)
        ensures
            r == first_of(listed(index_view(index), None, false)),
    {
        let mut sessions = self.list_sessions(index, None, false);
        if sessions.len() == 0 {
            None
        } else {
            Some(sessions.remove(0))
        }
    }

    /// Find the session that a user holds on a channel.
    pub fn find_session_by_channel_user(
        &self,
        index: Option<Vec<SessionEntry>>,
        channel: &str,
        user_id: &str,
        thread_id: Option<&str>,
    ) -> (r: Option<SessionMetadata>)
        ensures
            r == found_session(
                index_view(index),
                channel@,
                user_id@,
                json::option_chars(thread_id),
            ),
            r matches Some(s) ==> s.channel@ == channel@ && s.channel_user_id@ == user_id@,
            thread_id matches Some(thread) ==> (r matches Some(s) ==> (s.thread_id matches Some(id)
                && id@ == thread@)),
    {
        let ghost given = index_view(index);
        let sessions = self.list_sessions(index, None, false);
        let found = first_held_by(sessions, channel, user_id, thread_id);
        proof {
            if let Some(entries) = given {
                law_found_session_is_held(
                    entries,
                    channel@,
                    user_id@,
                    json::option_chars(thread_id),
                );
            } else {
                let none = Seq::<SessionMetadata>::empty();
                let held = held_by(channel@, user_id@, json::option_chars(thread_id));
                assert(none.filter(held) =~= Seq::empty()) by {
                    reveal(Seq::filter);
                }
            }
        }
        found
    }

    /// Find what the deletion of a session removes and leaves.
    pub fn delete_session(&self, index: Option<Vec<SessionEntry>>, session_id: &str) -> (r:
        SessionDeletion)
        ensures
            text::texts(r.files@) == seq![
                session_id@ + METADATA_EXTENSION@,
                session_id@ + TRANSCRIPT_EXTENSION@,
                session_id@ + DEBUG_EXTENSION@,
            ],
            text::texts(r.files@) == seq![
                session_id@ + ".json"@,
                session_id@ + ".jsonl"@,
                session_id@ + ".debug"@,
            ],
            index_view(r.index) == match index {
                Some(entries) => Some(without_session(entries@, session_id@)),
                None => None,
            },
    {
        let mut files: Vec<String> = Vec::new();
        files.push(concat2(session_id, METADATA_EXTENSION));
        files.push(concat2(session_id, TRANSCRIPT_EXTENSION));
        files.push(concat2(session_id, DEBUG_EXTENSION));
        let left = match index {
            Some(entries) => Some(remove_session(entries, session_id)),
            None => None,
        };
        SessionDeletion { files, index: left }
    }

    /// List the sessions of several indexes together, those that changed last first.
    pub fn list_all_sessions(indexes: Vec<Option<Vec<SessionEntry>>>) -> (r: Vec<SessionMetadata>)
        ensures
            r@ == sorting::sorted(merged(indexes@)),
    {
        let ghost given = indexes@;
        let mut all: Vec<SessionMetadata> = Vec::new();
        for index in it: indexes
            invariant
                it.seq() == given,
                all@ == merged(given.take(it.index())),
        {
            proof {
                let i = it.index();
                assert(given.take(i + 1).drop_last() =~= given.take(i));
                assert(given.take(i + 1).last() == index);
            }
            let mut sessions = list_index(index, None, false);
            all.append(&mut sessions);
        }
        proof {
            assert(given.take(given.len() as int) =~= given);
        }
        sort(all)
    }

    /// List the names of the directories with a session in them.
    pub fn list_user_workspaces(entries: Vec<WorkspaceEntry>, index_name: &str) -> (r: Vec<String>)
        ensures
            r@ == sorting::sorted(session_directories(entries@, index_name@)),
    {
        sort(select_directories(entries, index_name))
    }
}

/// The list of an index holds exactly the shown sessions, those that changed last first.
pub proof fn law_list_is_recent_first(
    entries: Seq<SessionEntry>,
    owner: Option<Seq<char>>,
    include_archived: bool,
)
    ensures
        ({
            let list = listed(Some(entries), owner, include_archived);
            &&& forall|i: int, j: int|
                0 <= i < j < list.len() ==> (#[trigger] list[i]).updated_at >= (
                #[trigger] list[j]).updated_at
            &&& list.to_multiset() == shown_sessions(
                entries,
                owner,
                include_archived,
            ).to_multiset()
            &&& list.len() == shown_sessions(entries, owner, include_archived).len()
        }),
{
    let shown = shown_sessions(entries, owner, include_archived);
    sorting::law_sorted_is_ordered_permutation(shown);
    let list = listed(Some(entries), owner, include_archived);
    assert forall|i: int, j: int| 0 <= i < j < list.len() implies (
    #[trigger] list[i]).updated_at >= (#[trigger] list[j]).updated_at by {
        assert(!list[j].ranks_before(&list[i]));
    }
}

/// A session is listed exactly when an entry of the index shows it.
pub proof fn law_listed_sessions_are_shown(
    entries: Seq<SessionEntry>,
    owner: Option<Seq<char>>,
    include_archived: bool,
    session: SessionMetadata,
)
    ensures
        listed(Some(entries), owner, include_archived).contains(session) <==> exists|i: int|
            0 <= i < entries.len() && (#[trigger] entries[i]).metadata == session && is_shown(
                entries[i],
                include_archived,
            ) && belongs_to(session, owner),
{
    broadcast use {
        vstd::seq_lib::group_to_multiset_ensures,
        vstd::seq_lib::group_filter_ensures,
    };

    let keep = |e: SessionEntry| is_shown(e, include_archived) && belongs_to(e.metadata, owner);
    let kept = entries.filter(keep);
    let shown = shown_sessions(entries, owner, include_archived);
    let list = listed(Some(entries), owner, include_archived);
    sorting::law_sorted_is_ordered_permutation(shown);
    assert(list.contains(session) <==> list.to_multiset().count(session) > 0);
    assert(shown.contains(session) <==> shown.to_multiset().count(session) > 0);
    if shown.contains(session) {
        let k = choose|k: int| 0 <= k < shown.len() && shown[k] == session;
        assert(kept.contains(kept[k]));
        entries.lemma_filter_contains_rev(keep, kept[k]);
        let i = choose|i: int| 0 <= i < entries.len() && entries[i] == kept[k];
        assert(keep(kept[k]));
        assert(entries[i].metadata == session);
    }
    if exists|i: int|
        0 <= i < entries.len() && (#[trigger] entries[i]).metadata == session && is_shown(
            entries[i],
            include_archived,
        ) && belongs_to(session, owner) {
        let i = choose|i: int|
            0 <= i < entries.len() && (#[trigger] entries[i]).metadata == session && is_shown(
                entries[i],
                include_archived,
            ) && belongs_to(session, owner);
        assert(keep(entries[i]));
        assert(entries.contains(entries[i]));
        assert(kept.contains(entries[i]));
        let k = choose|k: int| 0 <= k < kept.len() && kept[k] == entries[i];
        assert(shown[k] == session);
    }
}

/// No session of the index changed later than the latest one, unless it is archived.
pub proof fn law_latest_session_is_latest(entries: Seq<SessionEntry>, i: int)
    requires
        0 <= i < entries.len(),
        entries[i].time_archived is None,
    ensures
        first_of(listed(Some(entries), None, false)) matches Some(latest)
            && latest.updated_at >= entries[i].metadata.updated_at,
{
    law_list_is_recent_first(entries, None, false);
    law_listed_sessions_are_shown(entries, None, false, entries[i].metadata);
    let list = listed(Some(entries), None, false);
    assert(is_shown(entries[i], false));
    assert(list.contains(entries[i].metadata));
    let k = choose|k: int| 0 <= k < list.len() && list[k] == entries[i].metadata;
    assert(k == 0 || list[0].updated_at >= list[k].updated_at);
}

/// A deleted session is not listed any more, and every other one still is.
pub proof fn law_deleted_session_is_not_listed(
    entries: Seq<SessionEntry>,
    id: Seq<char>,
    owner: Option<Seq<char>>,
    include_archived: bool,
    session: SessionMetadata,
)
    ensures
        listed(Some(without_session(entries, id)), owner, include_archived).contains(session)
            <==> session.id@ != id && listed(Some(entries), owner, include_archived).contains(
            session,
        ),
{
    broadcast use vstd::seq_lib::group_filter_ensures;

    let left = without_session(entries, id);
    law_listed_sessions_are_shown(left, owner, include_archived, session);
    law_listed_sessions_are_shown(entries, owner, include_archived, session);
    let keep = of_another(id);
    if listed(Some(left), owner, include_archived).contains(session) {
        let i = choose|i: int|
            0 <= i < left.len() && (#[trigger] left[i]).metadata == session && is_shown(
                left[i],
                include_archived,
            ) && belongs_to(session, owner);
        assert(left.contains(left[i]));
        assert(keep(left[i]));
        entries.lemma_filter_contains_rev(keep, left[i]);
        let k = choose|k: int| 0 <= k < entries.len() && entries[k] == left[i];
        assert(entries[k].metadata == session);
    }
    if session.id@ != id && listed(Some(entries), owner, include_archived).contains(session) {
        let i = choose|i: int|
            0 <= i < entries.len() && (#[trigger] entries[i]).metadata == session && is_shown(
                entries[i],
                include_archived,
            ) && belongs_to(session, owner);
        assert(keep(entries[i]));
        assert(entries.contains(entries[i]));
        assert(left.contains(entries[i]));
        let k = choose|k: int| 0 <= k < left.len() && left[k] == entries[i];
        assert(left[k].metadata == session);
    }
}

/// The sessions of all indexes are listed together, those that changed last first.
pub proof fn law_all_sessions_are_recent_first(indexes: Seq<Option<Vec<SessionEntry>>>)
    ensures
        ({
            let list = sorting::sorted(merged(indexes));
            &&& forall|i: int, j: int|
                0 <= i < j < list.len() ==> (#[trigger] list[i]).updated_at >= (
                #[trigger] list[j]).updated_at
            &&& list.to_multiset() == merged(indexes).to_multiset()
        }),
{
    sorting::law_sorted_is_ordered_permutation(merged(indexes));
    let list = sorting::sorted(merged(indexes));
    assert forall|i: int, j: int| 0 <= i < j < list.len() implies (
    #[trigger] list[i]).updated_at >= (#[trigger] list[j]).updated_at by {
        assert(!list[j].ranks_before(&list[i]));
    }
}

/// The workspaces are listed in the order of their characters.
pub proof fn law_workspaces_are_in_order(entries: Seq<WorkspaceEntry>, index_name: Seq<char>)
    ensures
        ({
            let list = sorting::sorted(session_directories(entries, index_name));
            &&& forall|i: int, j: int|
                0 <= i < j < list.len() ==> !text::precedes(
                    (#[trigger] list[j])@,
                    (#[trigger] list[i])@,
                )
            &&& list.to_multiset() == session_directories(entries, index_name).to_multiset()
        }),
{
    let names = session_directories(entries, index_name);
    sorting::law_sorted_is_ordered_permutation(names);
    let list = sorting::sorted(names);
    assert forall|i: int, j: int| 0 <= i < j < list.len() implies !text::precedes(
        (#[trigger] list[j])@,
        (#[trigger] list[i])@,
    ) by {
        assert(!list[j].ranks_before(&list[i]));
    }
}

/// A session is listed exactly when an entry of the index holds it that is not archived, unless
/// archived ones are asked for, and that has the owner that is asked for.
pub proof fn law_listed_sessions_are_open_and_owned(
    entries: Seq<SessionEntry>,
    owner: Option<Seq<char>>,
    include_archived: bool,
    session: SessionMetadata,
)
    ensures
        listed(Some(entries), owner, include_archived).contains(session) <==> {
            &&& exists|i: int|
                0 <= i < entries.len() && (#[trigger] entries[i]).metadata == session && (
                entries[i].time_archived is Some ==> include_archived)
            &&& owner matches Some(name) ==> session.owner_id matches Some(id) && id@ == name
        },
        listed(None, owner, include_archived).len() == 0,
{
    law_listed_sessions_are_shown(entries, owner, include_archived, session);
    if exists|i: int|
        0 <= i < entries.len() && (#[trigger] entries[i]).metadata == session && (
        entries[i].time_archived is Some ==> include_archived) {
        let i = choose|i: int|
            0 <= i < entries.len() && (#[trigger] entries[i]).metadata == session && (
            entries[i].time_archived is Some ==> include_archived);
        assert(is_shown(entries[i], include_archived));
    }
}

/// One more entry adds its session behind the others, if it is shown, and changes nothing else.
pub proof fn law_shown_sessions_grow_in_order(
    entries: Seq<SessionEntry>,
    entry: SessionEntry,
    owner: Option<Seq<char>>,
    include_archived: bool,
)
    ensures
        ({
            let before = shown_sessions(entries, owner, include_archived);
            let after = shown_sessions(entries.push(entry), owner, include_archived);
            let owned = owner matches Some(name) ==> entry.metadata.owner_id matches Some(id)
                && id@ == name;
            &&& (include_archived || entry.time_archived is None) && owned ==> after
                == before.push(entry.metadata)
            &&& !(include_archived || entry.time_archived is None) || !owned ==> after == before
        }),
        shown_sessions(Seq::empty(), owner, include_archived).len() == 0,
{
    let keep = |e: SessionEntry| is_shown(e, include_archived) && belongs_to(e.metadata, owner);
    entries.lemma_filter_push(entry, keep);
    assert(Seq::<SessionEntry>::empty().filter(keep) =~= Seq::empty()) by {
        reveal(Seq::filter);
    }
    let before = shown_sessions(entries, owner, include_archived);
    let after = shown_sessions(entries.push(entry), owner, include_archived);
    if keep(entry) {
        assert(after =~= before.push(entry.metadata));
    } else {
        assert(after =~= before);
    }
}

proof fn lemma_first_kept_is_latest(
    list: Seq<SessionMetadata>,
    keep: spec_fn(SessionMetadata) -> bool,
    k: int,
)
    requires
        forall|i: int, j: int|
            0 <= i < j < list.len() ==> (#[trigger] list[i]).updated_at >= (
            #[trigger] list[j]).updated_at,
        0 <= k < list.len(),
        keep(list[k]),
    ensures
        list.filter(keep).len() > 0,
        list.filter(keep)[0].updated_at >= list[k].updated_at,
    decreases list.len(),
{
    broadcast use vstd::seq_lib::group_filter_ensures;

    let init = list.drop_last();
    assert(init.push(list.last()) =~= list);
    init.lemma_filter_push(list.last(), keep);
    if k < init.len() {
        assert(init[k] == list[k]);
        assert forall|i: int, j: int| 0 <= i < j < init.len() implies (
        #[trigger] init[i]).updated_at >= (#[trigger] init[j]).updated_at by {
            assert(init[i] == list[i] && init[j] == list[j]);
        }
        lemma_first_kept_is_latest(init, keep, k);
    } else if init.filter(keep).len() > 0 {
        let first = init.filter(keep)[0];
        assert(init.filter(keep).contains(first));
        init.lemma_filter_contains_rev(keep, first);
        let i = choose|i: int| 0 <= i < init.len() && init[i] == first;
        assert(list[i] == first);
    }
}

/// The session that is found is held by the user, on the channel and in the thread that were
/// asked for, it is not archived, and no other such session changed later. None is found only
/// where there is none.
pub proof fn law_found_session_is_held(
    entries: Seq<SessionEntry>,
    channel: Seq<char>,
    user_id: Seq<char>,
    thread_id: Option<Seq<char>>,
)
    ensures
        found_session(None, channel, user_id, thread_id) is None,
        match found_session(Some(entries), channel, user_id, thread_id) {
            Some(session) => {
                &&& session.channel@ == channel
                &&& session.channel_user_id@ == user_id
                &&& thread_id matches Some(thread) ==> session.thread_id matches Some(id) && id@
                    == thread
                &&& exists|i: int|
                    0 <= i < entries.len() && (#[trigger] entries[i]).metadata == session
                        && entries[i].time_archived is None
                &&& forall|i: int|
                    0 <= i < entries.len() && (#[trigger] entries[i]).time_archived is None
                        && entries[i].metadata.channel@ == channel
                        && entries[i].metadata.channel_user_id@ == user_id && (
                    thread_id matches Some(thread) ==> entries[i].metadata.thread_id matches Some(
                        id,
                    ) && id@ == thread) ==> session.updated_at >= entries[i].metadata.updated_at
            },
            None => forall|i: int|
                0 <= i < entries.len() && (#[trigger] entries[i]).time_archived is None
                    && entries[i].metadata.channel@ == channel
                    && entries[i].metadata.channel_user_id@ == user_id ==> (
                thread_id matches Some(thread) && !(entries[i].metadata.thread_id matches Some(id)
                    && id@ == thread)),
        },
{
    broadcast use vstd::seq_lib::group_filter_ensures;

    let list = listed(Some(entries), None, false);
    let held = held_by(channel, user_id, thread_id);
    let kept = list.filter(held);
    law_list_is_recent_first(entries, None, false);
    assert(Seq::<SessionMetadata>::empty().filter(held) =~= Seq::empty()) by {
        reveal(Seq::filter);
    }
    if kept.len() > 0 {
        assert(held(kept[0]));
        assert(kept.contains(kept[0]));
        list.lemma_filter_contains_rev(held, kept[0]);
        law_listed_sessions_are_open_and_owned(entries, None, false, kept[0]);
    }
    assert forall|i: int|
        0 <= i < entries.len() && (#[trigger] entries[i]).time_archived is None && held(
            entries[i].metadata,
        ) implies kept.len() > 0 && kept[0].updated_at >= entries[i].metadata.updated_at by {
        law_listed_sessions_are_open_and_owned(entries, None, false, entries[i].metadata);
        assert(list.contains(entries[i].metadata));
        let k = choose|k: int| 0 <= k < list.len() && list[k] == entries[i].metadata;
        lemma_first_kept_is_latest(list, held, k);
    }
}

/// The deletion of a session keeps every entry of another one, in its place in the order.
pub proof fn law_deletion_keeps_other_entries(
    entries: Seq<SessionEntry>,
    entry: SessionEntry,
    id: Seq<char>,
)
    ensures
        without_session(Seq::empty(), id).len() == 0,
        entry.metadata.id@ == id ==> without_session(entries.push(entry), id) == without_session(
            entries,
            id,
        ),
        entry.metadata.id@ != id ==> without_session(entries.push(entry), id) == without_session(
            entries,
            id,
        ).push(entry),
{
    entries.lemma_filter_push(entry, of_another(id));
    assert(Seq::<SessionEntry>::empty().filter(of_another(id)) =~= Seq::empty()) by {
        reveal(Seq::filter);
    }
}

/// The sessions of several indexes are those of each of them that are not archived, whoever owns
/// them; an index that cannot be read has none.
pub proof fn law_merged_sessions_come_from_the_indexes(
    indexes: Seq<Option<Vec<SessionEntry>>>,
    index: Option<Vec<SessionEntry>>,
    session: SessionMetadata,
)
    ensures
        merged(Seq::empty()).len() == 0,
        merged(indexes.push(None)) == merged(indexes),
        index matches Some(entries) ==> {
            let added = merged(indexes.push(index)).skip(merged(indexes).len() as int);
            &&& merged(indexes.push(index)) == merged(indexes) + added
            &&& added.contains(session) <==> exists|i: int|
                0 <= i < entries@.len() && (#[trigger] entries@[i]).metadata == session
                    && entries@[i].time_archived is None
            &&& added.len() == shown_sessions(entries@, None, false).len()
        },
{
    assert(indexes.push(index).drop_last() =~= indexes);
    assert(indexes.push(None).drop_last() =~= indexes);
    assert(merged(indexes.push(None)) =~= merged(indexes));
    if let Some(entries) = index {
        let list = listed(Some(entries@), None, false);
        law_listed_sessions_are_open_and_owned(entries@, None, false, session);
        law_list_is_recent_first(entries@, None, false);
        assert(merged(indexes.push(index)).skip(merged(indexes).len() as int) =~= list);
    }
}

/// The file of a session has a name of its own before `.json`, and is not the index.
pub proof fn law_session_files_end_in_json(stem: Seq<char>, name: Seq<char>, index_name: Seq<char>)
    ensures
        is_session_file(stem + ".json"@, index_name) <==> stem.len() > 0 && stem + ".json"@
            != index_name,
        is_session_file(name, index_name) ==> name.len() > 5 && name == name.take(name.len() - 5)
            + ".json"@,
{
    reveal_strlit(".json");
    assert(".json"@.len() == 5);
    let whole = stem + ".json"@;
    assert(whole.subrange(whole.len() - 5, whole.len() as int) =~= ".json"@);
    if has_session_extension(name) {
        let tail = name.subrange(name.len() - 5, name.len() as int);
        assert(tail == ".json"@);
        assert(name =~= name.take(name.len() - 5) + tail);
    }
}

/// An entry adds its name to the workspaces exactly where one of its files is that of a session.
pub proof fn law_workspaces_grow_in_order(
    entries: Seq<WorkspaceEntry>,
    entry: WorkspaceEntry,
    index_name: Seq<char>,
)
    ensures
        ({
            let before = session_directories(entries, index_name);
            let after = session_directories(entries.push(entry), index_name);
            let found = entry.files matches Some(files) && exists|i: int|
                0 <= i < files@.len() && is_session_file(#[trigger] files@[i]@, index_name);
            after == if found {
                before.push(entry.name)
            } else {
                before
            }
        }),
        session_directories(Seq::empty(), index_name).len() == 0,
{
    let keep = |e: WorkspaceEntry| has_sessions(e, index_name);
    entries.lemma_filter_push(entry, keep);
    assert(Seq::<WorkspaceEntry>::empty().filter(keep) =~= Seq::empty()) by {
        reveal(Seq::filter);
    }
    let before = session_directories(entries, index_name);
    let after = session_directories(entries.push(entry), index_name);
    if keep(entry) {
        assert(after =~= before.push(entry.name));
    } else {
        assert(after =~= before);
    }
}

fn list_index(
    index: Option<Vec<SessionEntry>>,
    owner_id: Option<&str>,
    include_archived: bool,
) -> (r: Vec<SessionMetadata>)
    ensures
        r@ == listed(index_view(index), json::option_chars(owner_id), include_archived),
{
    match index {
        Some(entries) => sort(select_sessions(entries, owner_id, include_archived)),
        None => Vec::new(),
    }
}

fn select_sessions(entries: Vec<SessionEntry>, owner_id: Option<&str>, include_archived: bool) -> (r:
    Vec<SessionMetadata>)
    ensures
        r@ == shown_sessions(entries@, json::option_chars(owner_id), include_archived),
{
    let ghost given = entries@;
    let ghost owner = json::option_chars(owner_id);
    let ghost keep = |e: SessionEntry|
        is_shown(e, include_archived) && belongs_to(e.metadata, owner);
    let ghost pick = |e: SessionEntry| e.metadata;
    let mut r: Vec<SessionMetadata> = Vec::new();
    for entry in it: entries
        invariant
            it.seq() == given,
            owner == json::option_chars(owner_id),
            keep == (|e: SessionEntry|
                is_shown(e, include_archived) && belongs_to(e.metadata, owner)),
            pick == (|e: SessionEntry| e.metadata),
            r@ == given.take(it.index()).filter(keep).map_values(pick),
    {
        proof {
            let i = it.index();
            assert(given.take(i + 1) =~= given.take(i).push(entry));
            given.take(i).lemma_filter_push(entry, keep);
        }
        let shown = include_archived || entry.time_archived.is_none();
        let owned = match owner_id {
            Some(owner) => match &entry.metadata.owner_id {
                Some(id) => str_eq(id.as_str(), owner),
                None => false,
            },
            None => true,
        };
        if shown && owned {
            r.push(entry.metadata);
        }
    }
    proof {
        assert(given.take(given.len() as int) =~= given);
    }
    r
}

fn first_held_by(
    sessions: Vec<SessionMetadata>,
    channel: &str,
    user_id: &str,
    thread_id: Option<&str>,
) -> (r: Option<SessionMetadata>)
    ensures
        r == first_of(
            sessions@.filter(held_by(channel@, user_id@, json::option_chars(thread_id))),
        ),
{
    let ghost given = sessions@;
    let ghost thread = json::option_chars(thread_id);
    let ghost held = held_by(channel@, user_id@, thread);
    for session in it: sessions
        invariant
            it.seq() == given,
            thread == json::option_chars(thread_id),
            held == held_by(channel@, user_id@, thread),
            given.take(it.index()).filter(held).len() == 0,
    {
        proof {
            let i = it.index();
            assert(given.take(i + 1) =~= given.take(i).push(session));
            given.take(i).lemma_filter_push(session, held);
        }
        let in_thread = match thread_id {
            Some(thread) => match &session.thread_id {
                Some(id) => str_eq(id.as_str(), thread),
                None => false,
            },
            None => true,
        };
        if str_eq(session.channel.as_str(), channel) && str_eq(
            session.channel_user_id.as_str(),
            user_id,
        ) && in_thread {
            proof {
                let i = it.index();
                assert(given =~= given.take(i + 1) + given.skip(i + 1));
                Seq::filter_distributes_over_add(given.take(i + 1), given.skip(i + 1), held);
            }
            return Some(session);
        }
    }
    proof {
        assert(given.take(given.len() as int) =~= given);
    }
    None
}

fn remove_session(entries: Vec<SessionEntry>, session_id: &str) -> (r: Vec<SessionEntry>)
    ensures
        r@ == without_session(entries@, session_id@),
{
    let ghost given = entries@;
    let ghost keep = of_another(session_id@);
    let mut r: Vec<SessionEntry> = Vec::new();
    for entry in it: entries
        invariant
            it.seq() == given,
            keep == of_another(session_id@),
            r@ == given.take(it.index()).filter(keep),
    {
        proof {
            let i = it.index();
            assert(given.take(i + 1) =~= given.take(i).push(entry));
            given.take(i).lemma_filter_push(entry, keep);
        }
        if !str_eq(entry.metadata.id.as_str(), session_id) {
            r.push(entry);
        }
    }
    proof {
        assert(given.take(given.len() as int) =~= given);
    }
    r
}

fn ends_like_session(name: &str) -> (r: bool)
    ensures
        r == has_session_extension(name@),
{
    let chars = text::chars_of(name);
    let extension = text::chars_of(METADATA_EXTENSION);
    if chars.len() <= extension.len() {
        return false;
    }
    let start: usize = chars.len() - extension.len();
    let ghost tail = name@.subrange(start as int, name@.len() as int);
    let mut i: usize = 0;
    while i < extension.len()
        invariant
            chars@ == name@,
            extension@ == METADATA_EXTENSION@,
            start + extension.len() == chars.len(),
            tail == name@.subrange(start as int, name@.len() as int),
            i <= extension@.len(),
            chars@.len() > extension@.len(),
            forall|j: int| 0 <= j < i ==> #[trigger] tail[j] == extension@[j],
        decreases extension@.len() - i,
    {
        assert(tail[i as int] == chars@[start + i]);
        if chars[start + i] != extension[i] {
            return false;
        }
        i += 1;
    }
    proof {
        assert(tail =~= METADATA_EXTENSION@);
    }
    true
}

fn holds_session(files: &Vec<String>, index_name: &str) -> (r: bool)
    ensures
        r == exists|i: int|
            0 <= i < files@.len() && is_session_file(#[trigger] files@[i]@, index_name@),
{
    let mut i: usize = 0;
    while i < files.len()
        invariant
            i <= files@.len(),
            forall|j: int| 0 <= j < i ==> !is_session_file(#[trigger] files@[j]@, index_name@),
        decreases files@.len() - i,
    {
        let name = files[i].as_str();
        if ends_like_session(name) && !str_eq(name, index_name) {
            assert(is_session_file(files@[i as int]@, index_name@));
            return true;
        }
        i += 1;
    }
    false
}

fn select_directories(entries: Vec<WorkspaceEntry>, index_name: &str) -> (r: Vec<String>)
    ensures
        r@ == session_directories(entries@, index_name@),
{
    let ghost given = entries@;
    let ghost keep = |e: WorkspaceEntry| has_sessions(e, index_name@);
    let ghost pick = |e: WorkspaceEntry| e.name;
    let mut r: Vec<String> = Vec::new();
    for entry in it: entries
        invariant
            it.seq() == given,
            keep == (|e: WorkspaceEntry| has_sessions(e, index_name@)),
            pick == (|e: WorkspaceEntry| e.name),
            r@ == given.take(it.index()).filter(keep).map_values(pick),
    {
        proof {
            let i = it.index();
            assert(given.take(i + 1) =~= given.take(i).push(entry));
            given.take(i).lemma_filter_push(entry, keep);
        }
        let found = match &entry.files {
            Some(files) => holds_session(files, index_name),
            None => false,
        };
        if found {
            r.push(entry.name);
        }
    }
    proof {
        assert(given.take(given.len() as int) =~= given);
    }
    r
}

/// Sessions that changed at the same time are listed in the order of the index.
pub proof fn law_equal_times_keep_the_order(
    entries: Seq<SessionEntry>,
    owner: Option<Seq<char>>,
    include_archived: bool,
    session: SessionMetadata,
)
    ensures
        listed(Some(entries), owner, include_archived).filter(
            |s: SessionMetadata| s.updated_at == session.updated_at,
        ) == shown_sessions(entries, owner, include_archived).filter(
            |s: SessionMetadata| s.updated_at == session.updated_at,
        ),
        index_view(None) is None,
        forall|index: Vec<SessionEntry>| #[trigger] index_view(Some(index)) == Some(index@),
{
    let shown = shown_sessions(entries, owner, include_archived);
    sorting::law_sorted_is_stable(shown, session);
    assert((|s: SessionMetadata| s.updated_at == session.updated_at) =~= sorting::ranks_like(
        session,
    ));
}

} // verus!
