//! The traversal engine: a FIFO queue of pending roots, an append-only
//! visited set, the filter, and the streaming writer, driven by plain
//! events. The caller walks each root the engine hands out, asks before
//! descending into a directory, offers every file it meets, reports
//! resolved shortcut targets, and finally closes the document.
//!
//! Containment of a shortcut target is always judged against the one
//! originally configured root, never against the root being walked, and
//! records go out in the order the files were offered.
//!
//! Paths are compared as exact text. A root's identity is meant to be
//! its canonicalized path: a caller that canonicalizes every root,
//! directory and shortcut target it passes in gets canonical identity,
//! and one directory is then never walked under two spellings.

use vstd::prelude::*;
use vstd::string::*;
use crate::filter::{contains_string, spec_keep, FilterSpec};
use crate::record::{record_of, ExtractionError, FileMetadata, FileMetadataView, MetaSnapshot};
use crate::text::{extension_of, extension_of_path, file_name, is_within, parent_of, parent, path_is_within};
use crate::writer::{json_document, JsonArrayWriter};

verus! {

/// What a resolved shortcut target is on disk.
#[derive(Clone, Copy, PartialEq, Eq, Structural, Debug)]
pub enum TargetKind {
    File,
    Directory,
}

/// The engine's answer to one file entry.
pub enum FileOutcome {
    /// The filter dropped the entry; nothing changed.
    Filtered,
    /// The entry's metadata could not be read; it is skipped alone.
    MetadataFailed,
    /// The record went out: the text to add to the output, and whether
    /// the caller should resolve this entry as a shortcut.
    Written(String, bool),
}

/// The engine's answer to one resolved shortcut target.
#[derive(Clone, Copy, PartialEq, Eq, Structural, Debug)]
pub enum TargetOutcome {
    /// Nothing to follow: the target is missing, lies inside the
    /// original subtree, or is a file without a parent.
    Ignored,
    /// A file target worth reporting: hand its snapshot to
    /// `offer_target_file`.
    WantsMetadata,
    /// A directory target, enqueued as a new traversal root.
    Enqueued,
}

/// The traversal engine.
pub struct Engine {
    base_root: String,
    follow_shortcuts: bool,
    filter: FilterSpec,
    queue: Vec<String>,
    visited: Vec<String>,
    writer: JsonArrayWriter,
    count: u64,
    events: Ghost<Seq<FileEventView>>,
}

/// Whether two engine states carry the same configuration: root, filter
/// sets and the shortcut flag.
pub open spec fn same_config(a: &Engine, b: &Engine) -> bool {
    &&& a.root() == b.root()
    &&& a.follows() == b.follows()
    &&& a.included() == b.included()
    &&& a.excluded() == b.excluded()
}

impl Engine {
    /// The original configured root.
    pub closed spec fn root(&self) -> Seq<char> {
        self.base_root@
    }

    pub closed spec fn follows(&self) -> bool {
        self.follow_shortcuts
    }

    pub closed spec fn included(&self) -> Seq<Seq<char>> {
        self.filter.included.deep_view()
    }

    pub closed spec fn excluded(&self) -> Seq<Seq<char>> {
        self.filter.excluded.deep_view()
    }

    /// The pending traversal roots, front first.
    pub closed spec fn queue(&self) -> Seq<Seq<char>> {
        self.queue.deep_view()
    }

    /// The roots already fully walked.
    pub closed spec fn visited(&self) -> Seq<Seq<char>> {
        self.visited.deep_view()
    }

    /// The records appended to the document so far.
    pub closed spec fn records(&self) -> Seq<FileMetadataView> {
        self.writer.records()
    }

    /// The document text handed out so far.
    pub closed spec fn emitted(&self) -> Seq<char> {
        self.writer.emitted()
    }

    pub closed spec fn finished(&self) -> bool {
        self.writer.finished()
    }

    pub closed spec fn count_spec(&self) -> u64 {
        self.count
    }

    /// Every file offered so far, walked entries and shortcut targets.
    pub closed spec fn events(&self) -> Seq<FileEventView> {
        self.events@
    }

    /// The filter decision for an extension.
    pub open spec fn keeps(&self, ext: Option<Seq<char>>) -> bool {
        spec_keep(ext, self.included(), self.excluded())
    }

    /// Whether descent into `dir` is allowed: never into a visited root.
    pub open spec fn spec_should_descend(&self, dir: Seq<char>) -> bool {
        !self.visited().contains(dir)
    }

    /// Whether a written entry at `path` is a shortcut to resolve.
    pub open spec fn spec_wants_shortcut(&self, path: Seq<char>) -> bool {
        &&& self.follows()
        &&& extension_of_path(path) == Some("lnk"@)
        &&& path.len() > 0
    }

    /// What the engine does with a resolved shortcut target.
    pub open spec fn spec_target_action(&self, target: Seq<char>, kind: TargetKind, exists: bool) -> TargetOutcome {
        if !exists {
            TargetOutcome::Ignored
        } else if kind is File {
            match parent_of(target) {
                None => TargetOutcome::Ignored,
                Some(par) => if is_within(par, self.root()) {
                    TargetOutcome::Ignored
                } else {
                    TargetOutcome::WantsMetadata
                },
            }
        } else {
            if is_within(target, self.root()) {
                TargetOutcome::Ignored
            } else {
                TargetOutcome::Enqueued
            }
        }
    }

    pub closed spec fn wf(&self) -> bool {
        &&& self.writer.wf()
        &&& self.count as nat == self.writer.records().len()
        &&& self.visited.deep_view().no_duplicates()
        &&& self.writer.records() == run_records(self.included(), self.excluded(), self.events@)
    }

    /// Law (no loss, no invention, at the engine itself): the records a
    /// well-formed engine has written are exactly what the event fold
    /// leaves of the files it was offered.
    pub proof fn lemma_engine_records(&self)
        requires
            self.wf(),
        ensures
            self.records() == run_records(self.included(), self.excluded(), self.events()),
    {
    }

    /// The visited set holds each root at most once.
    pub proof fn lemma_visited_no_duplicates(&self)
        requires
            self.wf(),
        ensures
            self.visited().no_duplicates(),
    {
    }

    /// Starts a run: the queue holds the configured root alone, nothing
    /// is visited, and the returned chunk opens the document.
    pub fn new(root: String, filter: FilterSpec, follow_shortcuts: bool) -> (r: (Engine, String))
        ensures
            r.0.wf(),
            !r.0.finished(),
            r.0.root() == root@,
            r.0.follows() == follow_shortcuts,
            r.0.included() == filter.included.deep_view(),
            r.0.excluded() == filter.excluded.deep_view(),
            r.0.queue() == seq![root@],
            r.0.visited() == Seq::<Seq<char>>::empty(),
            r.0.records() == Seq::<FileMetadataView>::empty(),
            r.0.events() == Seq::<FileEventView>::empty(),
            r.0.count_spec() == 0,
            r.0.emitted() == r.1@,
            r.1@ == seq!['['],
    {
        let (writer, chunk) = JsonArrayWriter::new();
        let mut queue: Vec<String> = Vec::new();
        queue.push(root.clone());
        let engine = Engine {
            base_root: root,
            follow_shortcuts,
            filter,
            queue,
            visited: Vec::new(),
            writer,
            count: 0,
            events: Ghost(Seq::empty()),
        };
        proof {
            assert(engine.queue() =~= seq![engine.root()]);
            assert(engine.visited() =~= Seq::<Seq<char>>::empty());
        }
        (engine, chunk)
    }

    /// Pops the next pending root, FIFO.
    pub fn next_root(&mut self) -> (r: Option<String>)
        requires
            old(self).wf(),
        ensures
            final(self).wf(),
            same_config(old(self), final(self)),
            final(self).visited() == old(self).visited(),
            final(self).records() == old(self).records(),
            final(self).events() == old(self).events(),
            final(self).emitted() == old(self).emitted(),
            final(self).finished() == old(self).finished(),
            final(self).count_spec() == old(self).count_spec(),
            match r {
                Some(p) => old(self).queue().len() > 0 && p@ == old(self).queue()[0]
                    && final(self).queue() == old(self).queue().skip(1),
                None => old(self).queue().len() == 0 && final(self).queue() == old(self).queue(),
            },
    {
        if self.queue.len() == 0 {
            None
        } else {
            let p = self.queue.remove(0);
            proof {
                assert(self.queue() =~= old(self).queue().skip(1));
            }
            Some(p)
        }
    }

    /// Whether the caller may descend into `dir`: refused exactly when
    /// `dir` is a root already fully walked.
    pub fn should_descend(&self, dir: &String) -> (r: bool)
        ensures
            r == self.spec_should_descend(dir@),
    {
        !contains_string(&self.visited, dir)
    }

    /// Marks a fully walked root as visited, permanently.
    pub fn mark_visited(&mut self, root: &String)
        requires
            old(self).wf(),
        ensures
            final(self).wf(),
            same_config(old(self), final(self)),
            final(self).queue() == old(self).queue(),
            final(self).records() == old(self).records(),
            final(self).events() == old(self).events(),
            final(self).emitted() == old(self).emitted(),
            final(self).finished() == old(self).finished(),
            final(self).count_spec() == old(self).count_spec(),
            final(self).visited().contains(root@),
            forall|p: Seq<char>|
                final(self).visited().contains(p) == (old(self).visited().contains(p) || p
                    == root@),
    {
        if !contains_string(&self.visited, root) {
            self.visited.push(root.clone());
            proof {
                let ov = old(self).visited();
                let nv = self.visited();
                assert(nv =~= ov.push(root@));
                assert(nv[nv.len() - 1] == root@);
                assert(forall|p: Seq<char>| ov.contains(p) ==> nv.contains(p)) by {
                    assert(forall|k: int| 0 <= k < ov.len() ==> nv[k] == ov[k]);
                }
                assert(forall|p: Seq<char>| nv.contains(p) ==> (ov.contains(p) || p == root@))
                    by {
                    assert(forall|k: int| 0 <= k < nv.len() ==> (k < ov.len() || nv[k]
                        == root@));
                    assert(forall|k: int| 0 <= k < ov.len() && nv[k] == ov[k] && #[trigger]
                    nv.contains(nv[k]) ==> ov.contains(ov[k]));
                }
            }
        }
    }

    /// Offers one regular file met during a walk: the filter decides on
    /// its extension; a kept entry's snapshot becomes a record appended
    /// to the document; a failed snapshot skips the entry alone. The
    /// returned flag asks the caller to resolve the file as a shortcut.
    pub fn offer_file(&mut self, path: &String, meta: &Result<MetaSnapshot, ExtractionError>) -> (out: FileOutcome)
        requires
            old(self).wf(),
            !old(self).finished(),
            old(self).count_spec() < u64::MAX,
        ensures
            final(self).wf(),
            !final(self).finished(),
            same_config(old(self), final(self)),
            final(self).queue() == old(self).queue(),
            final(self).visited() == old(self).visited(),
            final(self).events() == old(self).events().push(
                (FileEventView { path: path@, meta: *meta, via_shortcut: false }),
            ),
            (out is Filtered) <==> !old(self).keeps(extension_of_path(path@)),
            (out is MetadataFailed) <==> (old(self).keeps(extension_of_path(path@)) && (*meta) is Err),
            (out is Filtered || out is MetadataFailed) ==> final(self).records() == old(self).records()
                && final(self).emitted() == old(self).emitted()
                && final(self).count_spec() == old(self).count_spec(),
            out matches FileOutcome::Written(chunk, follow) ==> {
                &&& (*meta) is Ok
                &&& old(self).keeps(extension_of_path(path@))
                &&& final(self).records() == old(self).records().push(
                    record_of(path@, (*meta)->Ok_0),
                )
                &&& final(self).emitted() == old(self).emitted() + chunk@
                &&& chunk@ == if old(self).records().len() == 0 {
                    crate::record::json_of_record(record_of(path@, (*meta)->Ok_0))
                } else {
                    seq![','] + crate::record::json_of_record(record_of(path@, (*meta)->Ok_0))
                }
                &&& final(self).count_spec() == old(self).count_spec() + 1
                &&& follow == old(self).spec_wants_shortcut(path@)
            },
    {
        proof {
            let ev = FileEventView { path: path@, meta: *meta, via_shortcut: false };
            self.events = Ghost(self.events@.push(ev));
            assert(self.events@.drop_last() =~= old(self).events@);
        }
        let name = file_name(path.as_str());
        let ext = extension_of(name.as_str());
        if !self.filter.keep(&ext) {
            return FileOutcome::Filtered;
        }
        match meta {
            Err(_) => FileOutcome::MetadataFailed,
            Ok(m) => {
                let rec = FileMetadata::from_snapshot(path.clone(), m);
                let chunk = self.writer.append(&rec);
                self.count = self.count + 1;
                let follow = if self.follow_shortcuts {
                    let is_lnk = match &ext {
                        Some(e) => e.eq(&String::from_str("lnk")),
                        None => false,
                    };
                    is_lnk && path.as_str().unicode_len() > 0
                } else {
                    false
                };
                FileOutcome::Written(chunk, follow)
            },
        }
    }

    /// Reports where a resolved shortcut target led: a missing target is
    /// dropped, one inside the original subtree is not followed, a file
    /// target outside it is asked for its metadata, and a directory
    /// target outside it joins the queue as a new root.
    pub fn offer_shortcut_target(&mut self, target: &String, kind: TargetKind, exists: bool) -> (out: TargetOutcome)
        requires
            old(self).wf(),
        ensures
            final(self).wf(),
            same_config(old(self), final(self)),
            final(self).visited() == old(self).visited(),
            final(self).records() == old(self).records(),
            final(self).events() == old(self).events(),
            final(self).emitted() == old(self).emitted(),
            final(self).finished() == old(self).finished(),
            final(self).count_spec() == old(self).count_spec(),
            out == old(self).spec_target_action(target@, kind, exists),
            final(self).queue() == if out is Enqueued {
                old(self).queue().push(target@)
            } else {
                old(self).queue()
            },
    {
        if !exists {
            return TargetOutcome::Ignored;
        }
        match kind {
            TargetKind::File => {
                match parent(target.as_str()) {
                    None => TargetOutcome::Ignored,
                    Some(par) => {
                        if path_is_within(par.as_str(), self.base_root.as_str()) {
                            TargetOutcome::Ignored
                        } else {
                            TargetOutcome::WantsMetadata
                        }
                    },
                }
            },
            TargetKind::Directory => {
                if path_is_within(target.as_str(), self.base_root.as_str()) {
                    TargetOutcome::Ignored
                } else {
                    self.queue.push(target.clone());
                    proof {
                        assert(self.queue() =~= old(self).queue().push(target@));
                    }
                    TargetOutcome::Enqueued
                }
            },
        }
    }

    /// Appends the record of a shortcut's file target from its snapshot;
    /// the target is reported without the extension filter, as any file
    /// the traversal was pointed at. A failed snapshot changes nothing.
    pub fn offer_target_file(&mut self, path: &String, meta: &Result<MetaSnapshot, ExtractionError>) -> (out: Option<String>)
        requires
            old(self).wf(),
            !old(self).finished(),
            old(self).count_spec() < u64::MAX,
        ensures
            final(self).wf(),
            !final(self).finished(),
            same_config(old(self), final(self)),
            final(self).queue() == old(self).queue(),
            final(self).visited() == old(self).visited(),
            final(self).events() == old(self).events().push(
                (FileEventView { path: path@, meta: *meta, via_shortcut: true }),
            ),
            match out {
                None => (*meta) is Err && final(self).records() == old(self).records()
                    && final(self).emitted() == old(self).emitted()
                    && final(self).count_spec() == old(self).count_spec(),
                Some(chunk) => {
                    &&& (*meta) is Ok
                    &&& final(self).records() == old(self).records().push(
                        record_of(path@, (*meta)->Ok_0),
                    )
                    &&& final(self).emitted() == old(self).emitted() + chunk@
                    &&& final(self).count_spec() == old(self).count_spec() + 1
                },
            },
    {
        proof {
            let ev = FileEventView { path: path@, meta: *meta, via_shortcut: true };
            self.events = Ghost(self.events@.push(ev));
            assert(self.events@.drop_last() =~= old(self).events@);
        }
        match meta {
            Err(_) => None,
            Ok(m) => {
                let rec = FileMetadata::from_snapshot(path.clone(), m);
                let chunk = self.writer.append(&rec);
                self.count = self.count + 1;
                Some(chunk)
            },
        }
    }

    /// Closes the document: after this the emission is one complete JSON
    /// array of exactly the appended records, whatever else happened.
    pub fn finalize(&mut self) -> (chunk: String)
        requires
            old(self).wf(),
            !old(self).finished(),
        ensures
            final(self).wf(),
            final(self).finished(),
            same_config(old(self), final(self)),
            final(self).queue() == old(self).queue(),
            final(self).visited() == old(self).visited(),
            final(self).records() == old(self).records(),
            final(self).events() == old(self).events(),
            final(self).count_spec() == old(self).count_spec(),
            final(self).emitted() == old(self).emitted() + chunk@,
            final(self).emitted() == json_document(old(self).records()),
            chunk@ == seq![']'],
    {
        self.writer.finalize()
    }

    /// The roots already fully walked, in the order they were marked.
    pub fn visited_roots(&self) -> (r: &Vec<String>)
        ensures
            r.deep_view() == self.visited(),
    {
        &self.visited
    }

    /// The number of records written so far.
    pub fn count(&self) -> (r: u64)
        ensures
            r == self.count_spec(),
            self.wf() ==> r as nat == self.records().len(),
    {
        self.count
    }
}

/// One file event of a run: the path of a file offered to the engine,
/// the attempt to read its metadata snapshot, and whether it arrived as
/// a resolved shortcut target rather than a walked entry.
pub ghost struct FileEventView {
    pub path: Seq<char>,
    pub meta: Result<MetaSnapshot, ExtractionError>,
    pub via_shortcut: bool,
}

/// Whether the engine accepts an event: its snapshot was readable, and
/// the filter keeps its extension — a shortcut's file target bypasses
/// the filter.
pub open spec fn accepted(inc: Seq<Seq<char>>, exc: Seq<Seq<char>>, ev: FileEventView) -> bool {
    (ev.via_shortcut || spec_keep(extension_of_path(ev.path), inc, exc)) && ev.meta is Ok
}

/// The record an accepted event leaves.
pub open spec fn event_record(ev: FileEventView) -> FileMetadataView {
    record_of(ev.path, ev.meta->Ok_0)
}

/// The records a sequence of file events leaves behind, in order: each
/// `offer_file` or `offer_target_file` call takes exactly one step of
/// this fold, and a well-formed engine's records equal its value.
pub open spec fn run_records(
    inc: Seq<Seq<char>>,
    exc: Seq<Seq<char>>,
    events: Seq<FileEventView>,
) -> Seq<FileMetadataView>
    decreases events.len(),
{
    if events.len() == 0 {
        Seq::<FileMetadataView>::empty()
    } else {
        let rest = run_records(inc, exc, events.drop_last());
        if accepted(inc, exc, events.last()) {
            rest.push(event_record(events.last()))
        } else {
            rest
        }
    }
}

/// Law (no loss, no invention): the records a run leaves behind are
/// exactly its accepted events — those the filter keeps, or shortcut
/// targets, whose metadata was readable — one record each, in offer
/// order. Over a tree with no shortcuts these are precisely the walked
/// files that match the filter.
pub proof fn lemma_run_records_are_filtered_events(
    inc: Seq<Seq<char>>,
    exc: Seq<Seq<char>>,
    events: Seq<FileEventView>,
)
    ensures
        run_records(inc, exc, events) == events.filter(
            |ev: FileEventView| accepted(inc, exc, ev),
        ).map_values(|ev: FileEventView| event_record(ev)),
    decreases events.len(),
{
    reveal(Seq::filter);
    let f = |ev: FileEventView| accepted(inc, exc, ev);
    let g = |ev: FileEventView| event_record(ev);
    if events.len() == 0 {
        assert(run_records(inc, exc, events) =~= events.filter(f).map_values(g));
    } else {
        lemma_run_records_are_filtered_events(inc, exc, events.drop_last());
        let fd = events.drop_last().filter(f);
        if f(events.last()) {
            assert(events.filter(f) == fd.push(events.last()));
            assert(fd.push(events.last()).map_values(g) =~= fd.map_values(g).push(
                g(events.last()),
            ));
        }
        assert(run_records(inc, exc, events) =~= events.filter(f).map_values(g));
    }
}

/// Every record a run leaves carries the path of one of its events.
pub proof fn lemma_run_record_paths(
    inc: Seq<Seq<char>>,
    exc: Seq<Seq<char>>,
    events: Seq<FileEventView>,
)
    ensures
        forall|k: int|
            0 <= k < run_records(inc, exc, events).len() ==> exists|i: int|
                0 <= i < events.len() && events[i].path == #[trigger] run_records(
                    inc,
                    exc,
                    events,
                )[k].full_path,
    decreases events.len(),
{
    if events.len() > 0 {
        lemma_run_record_paths(inc, exc, events.drop_last());
        let run = run_records(inc, exc, events);
        let rest = run_records(inc, exc, events.drop_last());
        assert forall|k: int| 0 <= k < run.len() implies exists|i: int|
            0 <= i < events.len() && events[i].path == #[trigger] run[k].full_path by {
            if k < rest.len() {
                let i = choose|i: int|
                    0 <= i < events.drop_last().len() && events.drop_last()[i].path
                        == rest[k].full_path;
                assert(events[i].path == run[k].full_path);
            } else {
                assert(accepted(inc, exc, events.last()));
                assert(run[k] == event_record(events.last()));
                assert(events[events.len() - 1].path == run[k].full_path);
            }
        }
    }
}

/// Law (multiplicity one): a walk whose events carry pairwise distinct
/// paths leaves records with pairwise distinct paths — no entry is
/// reported twice.
pub proof fn lemma_run_records_distinct(
    inc: Seq<Seq<char>>,
    exc: Seq<Seq<char>>,
    events: Seq<FileEventView>,
)
    requires
        forall|i: int, j: int|
            0 <= i < j < events.len() ==> events[i].path != events[j].path,
    ensures
        forall|i: int, j: int|
            0 <= i < j < run_records(inc, exc, events).len() ==> run_records(inc, exc, events)[i].full_path
                != run_records(inc, exc, events)[j].full_path,
    decreases events.len(),
{
    if events.len() > 0 {
        assert(forall|i: int, j: int|
            0 <= i < j < events.drop_last().len() ==> events.drop_last()[i].path
                != events.drop_last()[j].path);
        lemma_run_records_distinct(inc, exc, events.drop_last());
        lemma_run_record_paths(inc, exc, events.drop_last());
        let run = run_records(inc, exc, events);
        let rest = run_records(inc, exc, events.drop_last());
        assert forall|i: int, j: int| 0 <= i < j < run.len() implies run[i].full_path
            != run[j].full_path by {
            if j < rest.len() {
                assert(rest[i].full_path != rest[j].full_path);
            } else {
                assert(accepted(inc, exc, events.last()));
                assert(run[j] == event_record(events.last()));
                let w = choose|w: int|
                    0 <= w < events.drop_last().len() && events.drop_last()[w].path
                        == rest[i].full_path;
                assert(events[w].path != events[events.len() - 1].path);
                assert(run[i].full_path != run[j].full_path);
            }
        }
    }
}

/// Law (cycle safety): a root in the visited set is never descended
/// into again. With `mark_visited` only ever adding to the set, a walk
/// that marks each root after walking it walks no root twice, however
/// many shortcut cycles re-enqueue it.
pub proof fn lemma_visited_is_pruned(e: &Engine, r: Seq<char>)
    requires
        e.visited().contains(r),
    ensures
        !e.spec_should_descend(r),
{
}

} // verus!
