//! One run against the store, step by step.
//!
//! A run asks the store about every file, fetches and verifies what the
//! store lacks, and only then writes, and only if nothing at all was wrong.
//! The run itself does nothing to the outside: [`Run::step`] takes what
//! happened and says what to do next, and the caller does it.

use crate::downloader::{check_hash, download_fault, legacy_fetch_message, legacy_fetch_text};
use crate::entry::{MirrorFile, MirrorFileView};
use crate::source::{Source, SourceView};
use crate::storage::{sidecar_key, sidecar_of, FileStatus, FileStatusView};
use crate::text::{decimal_digits, push_decimal};
use vstd::prelude::*;
use vstd::string::*;

verus! {

/// How far a run has come.
#[derive(Clone, Copy, Debug, PartialEq, Eq)]
pub enum Stage {
    /// Nothing was asked yet.
    Fresh,
    /// The statuses of all files were asked for.
    Statuses,
    /// The file of this index among those to upload is being fetched.
    Fetching(usize),
    /// The content of the file of this index is being written.
    Content(usize),
    /// The hash of the file of this index is being written.
    Sidecar(usize),
    /// The run is over.
    Done,
}

/// What a [`Stage`] stands for.
pub enum StageView {
    Fresh,
    Statuses,
    Fetching(nat),
    Content(nat),
    Sidecar(nat),
    Done,
}

impl DeepView for Stage {
    type V = StageView;

    open spec fn deep_view(&self) -> StageView {
        match self {
            Stage::Fresh => StageView::Fresh,
            Stage::Statuses => StageView::Statuses,
            Stage::Fetching(i) => StageView::Fetching(*i as nat),
            Stage::Content(i) => StageView::Content(*i as nat),
            Stage::Sidecar(i) => StageView::Sidecar(*i as nat),
            Stage::Done => StageView::Done,
        }
    }
}

/// How a run ended.
#[derive(Debug, PartialEq, Eq)]
pub enum Outcome {
    /// Something was wrong; nothing was written. These are the messages.
    Failed(Vec<String>),
    /// The store has every file.
    UpToDate,
    /// The store lacks files, and the run was told not to write.
    Skipped,
    /// Every file that the store lacked was written.
    Uploaded,
    /// The caller reported something that the run had not asked for.
    Misused,
}

/// What an [`Outcome`] stands for.
pub enum OutcomeView {
    Failed(Seq<Seq<char>>),
    UpToDate,
    Skipped,
    Uploaded,
    Misused,
}

impl DeepView for Outcome {
    type V = OutcomeView;

    open spec fn deep_view(&self) -> OutcomeView {
        match self {
            Outcome::Failed(errors) => OutcomeView::Failed(errors.deep_view()),
            Outcome::UpToDate => OutcomeView::UpToDate,
            Outcome::Skipped => OutcomeView::Skipped,
            Outcome::Uploaded => OutcomeView::Uploaded,
            Outcome::Misused => OutcomeView::Misused,
        }
    }
}

/// What happened outside since the last step.
#[derive(Debug, PartialEq, Eq)]
pub enum Event {
    /// The run is to start.
    Begin,
    /// The store gave these statuses, one for each file, in their order.
    Statuses(Vec<FileStatus>),
    /// The fetch is done; this is the SHA-256 of what came, in hex.
    Fetched(String),
    /// The fetch failed, for this reason.
    FetchFailed(String),
    /// The write is done.
    Written,
}

/// What an [`Event`] stands for.
pub enum EventView {
    Begin,
    Statuses(Seq<FileStatusView>),
    Fetched(Seq<char>),
    FetchFailed(Seq<char>),
    Written,
}

impl DeepView for Event {
    type V = EventView;

    open spec fn deep_view(&self) -> EventView {
        match self {
            Event::Begin => EventView::Begin,
            Event::Statuses(statuses) => EventView::Statuses(statuses.deep_view()),
            Event::Fetched(hash) => EventView::Fetched(hash@),
            Event::FetchFailed(reason) => EventView::FetchFailed(reason@),
            Event::Written => EventView::Written,
        }
    }
}

/// What the caller is to do next.
#[derive(Debug, PartialEq, Eq)]
pub enum Action {
    /// Ask the store for the status of every file.
    CheckStatuses,
    /// Fetch the file of this index among those to upload from this URL,
    /// hashing it on the way.
    Fetch { index: usize, url: String },
    /// Create the object `key` from the content fetched for the file of
    /// this index; the write has to fail where the key exists.
    PutContent { index: usize, key: String },
    /// Create the object `key` with these bytes; the write has to fail
    /// where the key exists.
    PutSidecar { key: String, contents: Vec<u8> },
    /// Stop: the run is over.
    Finish(Outcome),
}

/// What an [`Action`] stands for.
pub enum ActionView {
    CheckStatuses,
    Fetch { index: nat, url: Seq<char> },
    PutContent { index: nat, key: Seq<char> },
    PutSidecar { key: Seq<char>, contents: Seq<u8> },
    Finish(OutcomeView),
}

impl DeepView for Action {
    type V = ActionView;

    open spec fn deep_view(&self) -> ActionView {
        match self {
            Action::CheckStatuses => ActionView::CheckStatuses,
            Action::Fetch { index, url } => ActionView::Fetch { index: *index as nat, url: url@ },
            Action::PutContent { index, key } => ActionView::PutContent {
                index: *index as nat,
                key: key@,
            },
            Action::PutSidecar { key, contents } => ActionView::PutSidecar {
                key: key@,
                contents: contents@,
            },
            Action::Finish(outcome) => ActionView::Finish(outcome.deep_view()),
        }
    }
}

impl ActionView {
    /// Whether the action changes the store.
    pub open spec fn writes(self) -> bool {
        self is PutContent || self is PutSidecar
    }
}

/// The complaint about a file that is in the store without a hash.
pub open spec fn untracked_text(name: Seq<char>) -> Seq<char> {
    "file "@ + name + " was already uploaded without this tool"@
}

/// The complaint about a file that is in the store with another hash.
pub open spec fn changed_text(name: Seq<char>) -> Seq<char> {
    "file "@ + name + " was already uploaded with different content"@
}

/// What is wrong with `file` given its `status` in the store, if anything.
pub open spec fn status_fault(file: MirrorFileView, status: FileStatusView) -> Option<Seq<char>> {
    match status {
        FileStatusView::Legacy => Some(untracked_text(file.name)),
        FileStatusView::Present { sha256 } => {
            if sha256 != file.sha256 {
                Some(changed_text(file.name))
            } else {
                None
            }
        },
        FileStatusView::Missing => None,
    }
}

/// What is wrong with `files` given their `statuses`, in the order of the
/// files.
pub open spec fn status_faults(files: Seq<MirrorFileView>, statuses: Seq<FileStatusView>) -> Seq<
    Seq<char>,
>
    decreases files.len(),
{
    if files.len() == 0 || statuses.len() != files.len() {
        Seq::empty()
    } else {
        let rest = status_faults(files.drop_last(), statuses.drop_last());
        match status_fault(files.last(), statuses.last()) {
            Some(fault) => rest.push(fault),
            None => rest,
        }
    }
}

/// Those of `files` that the store lacks, in their order.
pub open spec fn missing_files(files: Seq<MirrorFileView>, statuses: Seq<FileStatusView>) -> Seq<
    MirrorFileView,
>
    decreases files.len(),
{
    if files.len() == 0 || statuses.len() != files.len() {
        Seq::empty()
    } else {
        let rest = missing_files(files.drop_last(), statuses.drop_last());
        if statuses.last() is Missing {
            rest.push(files.last())
        } else {
            rest
        }
    }
}

/// The state of a run.
pub struct RunView {
    /// The files that the run is about.
    pub files: Seq<MirrorFileView>,
    /// What is wrong so far.
    pub errors: Seq<Seq<char>>,
    /// The files that the store lacks.
    pub to_upload: Seq<MirrorFileView>,
    /// Whether the run is told not to write.
    pub skip_upload: bool,
    /// How far the run has come.
    pub stage: StageView,
}

impl RunView {
    /// Whether the state is one that a run can be in: it fetches and
    /// writes files that are there, and it writes only with nothing wrong.
    pub open spec fn wf(self) -> bool {
        match self.stage {
            StageView::Fetching(i) => i < self.to_upload.len() && self.to_upload[i as int].source
                is Url,
            StageView::Content(i) => i < self.to_upload.len() && self.errors.len() == 0
                && !self.skip_upload,
            StageView::Sidecar(i) => i < self.to_upload.len() && self.errors.len() == 0
                && !self.skip_upload,
            _ => true,
        }
    }

    /// The run at its end.
    pub open spec fn done(self) -> RunView {
        RunView { stage: StageView::Done, ..self }
    }

    /// The step that ends the run in a misuse.
    pub open spec fn misused(self) -> (RunView, ActionView) {
        (self.done(), ActionView::Finish(OutcomeView::Misused))
    }

    /// The step that asks for the content of the file of index `i`.
    pub open spec fn put_content(self, i: int) -> (RunView, ActionView) {
        (
            RunView { stage: StageView::Content(i as nat), ..self },
            ActionView::PutContent { index: i as nat, key: self.to_upload[i].name },
        )
    }

    /// The step once every fetch is over: it stops where something is
    /// wrong, where nothing is to upload, and where the run is told not to
    /// write; else it asks for the first write.
    pub open spec fn conclude(self) -> (RunView, ActionView) {
        if self.errors.len() > 0 {
            (self.done(), ActionView::Finish(OutcomeView::Failed(self.errors)))
        } else if self.to_upload.len() == 0 {
            (self.done(), ActionView::Finish(OutcomeView::UpToDate))
        } else if self.skip_upload {
            (self.done(), ActionView::Finish(OutcomeView::Skipped))
        } else {
            self.put_content(0)
        }
    }

    /// The step that goes on to the fetch of the file of index `i` or the
    /// first after it that has a URL. A file without one cannot be fetched,
    /// which is noted as wrong. With no file left the run concludes.
    pub open spec fn fetch_from(self, i: int) -> (RunView, ActionView)
        decreases self.to_upload.len() - i,
    {
        if i < 0 || i >= self.to_upload.len() {
            self.conclude()
        } else {
            match self.to_upload[i].source {
                SourceView::Url(url) => (
                    RunView { stage: StageView::Fetching(i as nat), ..self },
                    ActionView::Fetch { index: i as nat, url: url.text },
                ),
                SourceView::Legacy => (RunView {
                    errors: self.errors.push(legacy_fetch_text(self.to_upload[i].name)),
                    ..self
                }).fetch_from(i + 1),
            }
        }
    }

    /// The step that `event` leads to: the state after it and what the
    /// caller is to do.
    pub open spec fn step(self, event: EventView) -> (RunView, ActionView) {
        match (self.stage, event) {
            (StageView::Fresh, EventView::Begin) => (
                RunView { stage: StageView::Statuses, ..self },
                ActionView::CheckStatuses,
            ),
            (StageView::Statuses, EventView::Statuses(statuses)) => {
                if statuses.len() == self.files.len() {
                    (RunView {
                        errors: self.errors + status_faults(self.files, statuses),
                        to_upload: missing_files(self.files, statuses),
                        ..self
                    }).fetch_from(0)
                } else {
                    self.misused()
                }
            },
            (StageView::Fetching(i), EventView::Fetched(hash)) => {
                match download_fault(self.to_upload[i as int], hash) {
                    Some(fault) => (RunView {
                        errors: self.errors.push(fault.message()),
                        ..self
                    }).fetch_from(i as int + 1),
                    None => self.fetch_from(i as int + 1),
                }
            },
            (StageView::Fetching(i), EventView::FetchFailed(reason)) => (RunView {
                errors: self.errors.push(reason),
                ..self
            }).fetch_from(i as int + 1),
            (StageView::Content(i), EventView::Written) => (
                RunView { stage: StageView::Sidecar(i), ..self },
                ActionView::PutSidecar {
                    key: sidecar_of(self.to_upload[i as int].name),
                    contents: vstd::utf8::encode_utf8(self.to_upload[i as int].sha256),
                },
            ),
            (StageView::Sidecar(i), EventView::Written) => {
                if i + 1 < self.to_upload.len() {
                    self.put_content(i as int + 1)
                } else {
                    (self.done(), ActionView::Finish(OutcomeView::Uploaded))
                }
            },
            _ => self.misused(),
        }
    }
}

/// A run against the store.
pub struct Run {
    files: Vec<MirrorFile>,
    errors: Vec<String>,
    to_upload: Vec<MirrorFile>,
    skip_upload: bool,
    stage: Stage,
}

impl DeepView for Run {
    type V = RunView;

    closed spec fn deep_view(&self) -> RunView {
        RunView {
            files: self.files.deep_view(),
            errors: self.errors.deep_view(),
            to_upload: self.to_upload.deep_view(),
            skip_upload: self.skip_upload,
            stage: self.stage.deep_view(),
        }
    }
}

fn clone_texts(texts: &Vec<String>) -> (r: Vec<String>)
    ensures
        r.deep_view() == texts.deep_view(),
{
    let mut r: Vec<String> = Vec::new();
    let mut i: usize = 0;
    while i < texts.len()
        invariant
            i <= texts.len(),
            r.len() == i,
            forall|k: int| 0 <= k < i ==> (#[trigger] r[k])@ == texts[k]@,
        decreases texts.len() - i,
    {
        r.push(texts[i].clone());
        i += 1;
    }
    r
}

/// What is wrong with `file` given its `status` in the store, if anything.
pub fn check_status(file: &MirrorFile, status: &FileStatus) -> (r: Option<String>)
    ensures
        r.deep_view() == status_fault(file.deep_view(), status.deep_view()),
{
    match status {
        FileStatus::Legacy => {
            let mut text = String::from_str("file ");
            text.append(file.name.as_str());
            text.append(" was already uploaded without this tool");
            Some(text)
        },
        FileStatus::Present { sha256 } => {
            if *sha256 != file.sha256 {
                let mut text = String::from_str("file ");
                text.append(file.name.as_str());
                text.append(" was already uploaded with different content");
                Some(text)
            } else {
                None
            }
        },
        FileStatus::Missing => None,
    }
}

impl Run {
    /// A run about `files`, with `errors` already known to be wrong. With
    /// `skip_upload` the run never writes.
    pub fn new(files: Vec<MirrorFile>, errors: Vec<String>, skip_upload: bool) -> (r: Self)
        ensures
            r.deep_view().wf(),
            r.deep_view() == (RunView {
                files: files.deep_view(),
                errors: errors.deep_view(),
                to_upload: Seq::empty(),
                skip_upload,
                stage: StageView::Fresh,
            }),
    {
        let r = Run { files, errors, to_upload: Vec::new(), skip_upload, stage: Stage::Fresh };
        assert(r.deep_view().to_upload =~= Seq::<MirrorFileView>::empty());
        r
    }

    /// The files that the run is about.
    pub fn files(&self) -> (r: &Vec<MirrorFile>)
        ensures
            r.deep_view() == self.deep_view().files,
    {
        &self.files
    }

    /// The files that the store lacks, once the statuses are in.
    pub fn to_upload(&self) -> (r: &Vec<MirrorFile>)
        ensures
            r.deep_view() == self.deep_view().to_upload,
    {
        &self.to_upload
    }

    /// What is wrong so far.
    pub fn errors(&self) -> (r: &Vec<String>)
        ensures
            r.deep_view() == self.deep_view().errors,
    {
        &self.errors
    }

    /// How far the run has come.
    pub fn stage(&self) -> (r: Stage)
        ensures
            r.deep_view() == self.deep_view().stage,
    {
        self.stage
    }

    fn finish(&mut self, outcome: Outcome) -> (action: Action)
        ensures
            final(self).deep_view() == old(self).deep_view().done(),
            action.deep_view() == ActionView::Finish(outcome.deep_view()),
    {
        self.stage = Stage::Done;
        Action::Finish(outcome)
    }

    fn put_content(&mut self, i: usize) -> (action: Action)
        requires
            i < old(self).deep_view().to_upload.len(),
        ensures
            (final(self).deep_view(), action.deep_view()) == old(self).deep_view().put_content(
                i as int,
            ),
    {
        self.stage = Stage::Content(i);
        Action::PutContent { index: i, key: self.to_upload[i].name.clone() }
    }

    fn conclude(&mut self) -> (action: Action)
        ensures
            (final(self).deep_view(), action.deep_view()) == old(self).deep_view().conclude(),
    {
        if self.errors.len() > 0 {
            let errors = clone_texts(&self.errors);
            self.finish(Outcome::Failed(errors))
        } else if self.to_upload.len() == 0 {
            self.finish(Outcome::UpToDate)
        } else if self.skip_upload {
            self.finish(Outcome::Skipped)
        } else {
            self.put_content(0)
        }
    }

    fn fetch_from(&mut self, from: usize) -> (action: Action)
        requires
            from <= old(self).deep_view().to_upload.len(),
        ensures
            (final(self).deep_view(), action.deep_view()) == old(self).deep_view().fetch_from(
                from as int,
            ),
    {
        let ghost goal = self.deep_view().fetch_from(from as int);
        let mut i: usize = from;
        while i < self.to_upload.len()
            invariant
                i <= self.to_upload.len(),
                self.deep_view().fetch_from(i as int) == goal,
                goal == old(self).deep_view().fetch_from(from as int),
            decreases self.to_upload.len() - i,
        {
            match &self.to_upload[i].source {
                Source::Url(url) => {
                    let action = Action::Fetch { index: i, url: String::from_str(url.as_str()) };
                    self.stage = Stage::Fetching(i);
                    return action;
                },
                Source::Legacy => {
                    let text = legacy_fetch_message(self.to_upload[i].name.as_str());
                    let ghost held = self.errors.deep_view();
                    self.errors.push(text);
                    assert(self.errors.deep_view() =~= held.push(text@));
                },
            }
            i += 1;
        }
        self.conclude()
    }

    fn classify(&mut self, statuses: &Vec<FileStatus>)
        requires
            statuses.len() == old(self).deep_view().files.len(),
        ensures
            final(self).deep_view() == (RunView {
                errors: old(self).deep_view().errors + status_faults(
                    old(self).deep_view().files,
                    statuses.deep_view(),
                ),
                to_upload: missing_files(old(self).deep_view().files, statuses.deep_view()),
                ..old(self).deep_view()
            }),
    {
        let ghost before = self.deep_view();
        let ghost files = self.files.deep_view();
        let ghost given = statuses.deep_view();
        self.to_upload = Vec::new();
        let mut i: usize = 0;
        proof {
            assert(files.take(0) =~= Seq::<MirrorFileView>::empty());
        }
        while i < self.files.len()
            invariant
                i <= self.files.len(),
                statuses.len() == self.files.len(),
                files == self.files.deep_view(),
                given == statuses.deep_view(),
                self.skip_upload == before.skip_upload,
                self.stage.deep_view() == before.stage,
                self.errors.deep_view() == before.errors + status_faults(
                    files.take(i as int),
                    given.take(i as int),
                ),
                self.to_upload.deep_view() == missing_files(
                    files.take(i as int),
                    given.take(i as int),
                ),
            decreases self.files.len() - i,
        {
            proof {
                assert(files.take(i + 1).drop_last() =~= files.take(i as int));
                assert(given.take(i + 1).drop_last() =~= given.take(i as int));
            }
            if let Some(text) = check_status(&self.files[i], &statuses[i]) {
                let ghost held = self.errors.deep_view();
                self.errors.push(text);
                assert(self.errors.deep_view() =~= held.push(text@));
            }
            if let FileStatus::Missing = &statuses[i] {
                let file = self.files[i].clone();
                let ghost held = self.to_upload.deep_view();
                self.to_upload.push(file);
                assert(self.to_upload.deep_view() =~= held.push(file.deep_view()));
            }
            proof {
                assert(self.errors.deep_view() =~= before.errors + status_faults(
                    files.take(i + 1),
                    given.take(i + 1),
                ));
            }
            i += 1;
        }
        proof {
            assert(files.take(i as int) =~= files);
            assert(given.take(i as int) =~= given);
        }
    }

    /// Takes what happened and says what to do next. The store is only
    /// ever to be changed where nothing is wrong and the run may write.
    pub fn step(&mut self, event: Event) -> (action: Action)
        requires
            old(self).deep_view().wf(),
        ensures
            final(self).deep_view().wf(),
            (final(self).deep_view(), action.deep_view()) == old(self).deep_view().step(
                event.deep_view(),
            ),
            action.deep_view().writes() ==> final(self).deep_view().errors.len() == 0,
            action.deep_view().writes() ==> !final(self).deep_view().skip_upload,
    {
        proof {
            lemma_step_wf(self.deep_view(), event.deep_view());
        }
        match (self.stage, event) {
            (Stage::Fresh, Event::Begin) => {
                self.stage = Stage::Statuses;
                Action::CheckStatuses
            },
            (Stage::Statuses, Event::Statuses(statuses)) => {
                if statuses.len() == self.files.len() {
                    self.classify(&statuses);
                    self.fetch_from(0)
                } else {
                    self.finish(Outcome::Misused)
                }
            },
            (Stage::Fetching(i), Event::Fetched(hash)) => {
                assert(i < self.to_upload.len());
                match check_hash(&self.to_upload[i], hash.as_str()) {
                    Err(fault) => {
                        let text = fault.message();
                        let ghost held = self.errors.deep_view();
                        self.errors.push(text);
                        assert(self.errors.deep_view() =~= held.push(text@));
                    },
                    Ok(_) => {},
                }
                self.fetch_from(i + 1)
            },
            (Stage::Fetching(i), Event::FetchFailed(reason)) => {
                assert(i < self.to_upload.len());
                let ghost held = self.errors.deep_view();
                self.errors.push(reason);
                assert(self.errors.deep_view() =~= held.push(reason@));
                self.fetch_from(i + 1)
            },
            (Stage::Content(i), Event::Written) => {
                self.stage = Stage::Sidecar(i);
                Action::PutSidecar {
                    key: sidecar_key(self.to_upload[i].name.as_str()),
                    contents: self.to_upload[i].sha256.as_str().as_bytes_vec(),
                }
            },
            (Stage::Sidecar(i), Event::Written) => {
                assert(i < self.to_upload.len());
                if i + 1 < self.to_upload.len() {
                    self.put_content(i + 1)
                } else {
                    self.finish(Outcome::Uploaded)
                }
            },
            _ => self.finish(Outcome::Misused),
        }
    }
}

/// Fetching goes on in a well-formed state, and notes what is wrong behind
/// what was noted before.
pub proof fn lemma_fetch_from_wf(state: RunView, i: int)
    requires
        0 <= i <= state.to_upload.len(),
    ensures
        state.fetch_from(i).0.wf(),
        state.fetch_from(i).1.writes() ==> state.fetch_from(i).0.errors.len() == 0,
        state.fetch_from(i).1.writes() ==> !state.skip_upload,
        state.fetch_from(i).0.skip_upload == state.skip_upload,
        state.fetch_from(i).0.files == state.files,
        state.errors.len() <= state.fetch_from(i).0.errors.len(),
        state.fetch_from(i).0.errors.take(state.errors.len() as int) == state.errors,
    decreases state.to_upload.len() - i,
{
    if i < state.to_upload.len() {
        if state.to_upload[i].source is Legacy {
            let next = RunView {
                errors: state.errors.push(legacy_fetch_text(state.to_upload[i].name)),
                ..state
            };
            lemma_fetch_from_wf(next, i + 1);
        } else {
            assert(state.errors.take(state.errors.len() as int) =~= state.errors);
        }
    } else {
        assert(state.errors.take(state.errors.len() as int) =~= state.errors);
    }
}

/// Every step leads from a well-formed state to a well-formed state. It
/// changes the store only where nothing is wrong and the run may write,
/// and whatever was wrong before the step is still wrong after it.
pub proof fn lemma_step_wf(state: RunView, event: EventView)
    requires
        state.wf(),
    ensures
        state.step(event).0.wf(),
        state.step(event).1.writes() ==> state.step(event).0.errors.len() == 0,
        state.step(event).1.writes() ==> !state.skip_upload,
        state.step(event).0.skip_upload == state.skip_upload,
        state.step(event).0.files == state.files,
        state.errors.len() <= state.step(event).0.errors.len(),
        state.step(event).0.errors.take(state.errors.len() as int) == state.errors,
{
    let n = state.errors.len() as int;
    assert(state.errors.take(n) =~= state.errors);
    match (state.stage, event) {
        (StageView::Statuses, EventView::Statuses(statuses)) => {
            if statuses.len() == state.files.len() {
                let next = RunView {
                    errors: state.errors + status_faults(state.files, statuses),
                    to_upload: missing_files(state.files, statuses),
                    ..state
                };
                lemma_fetch_from_wf(next, 0);
            }
        },
        (StageView::Fetching(i), EventView::Fetched(hash)) => {
            match download_fault(state.to_upload[i as int], hash) {
                Some(fault) => {
                    let next = RunView { errors: state.errors.push(fault.message()), ..state };
                    lemma_fetch_from_wf(next, i as int + 1);
                },
                None => {
                    lemma_fetch_from_wf(state, i as int + 1);
                },
            }
        },
        (StageView::Fetching(i), EventView::FetchFailed(reason)) => {
            let next = RunView { errors: state.errors.push(reason), ..state };
            lemma_fetch_from_wf(next, i as int + 1);
        },
        _ => {},
    }
}

/// Whether `statuses` say of every one of `files` that the store holds it
/// with its declared hash.
pub open spec fn all_present(files: Seq<MirrorFileView>, statuses: Seq<FileStatusView>) -> bool {
    &&& statuses.len() == files.len()
    &&& forall|i: int|
        0 <= i < files.len() ==> #[trigger] statuses[i] == (FileStatusView::Present {
            sha256: files[i].sha256,
        })
}

/// Where the store holds every file with its declared hash, nothing is
/// wrong with the statuses and no file is missing.
pub proof fn lemma_all_present(files: Seq<MirrorFileView>, statuses: Seq<FileStatusView>)
    requires
        all_present(files, statuses),
    ensures
        status_faults(files, statuses) == Seq::<Seq<char>>::empty(),
        missing_files(files, statuses) == Seq::<MirrorFileView>::empty(),
    decreases files.len(),
{
    if files.len() > 0 {
        assert(all_present(files.drop_last(), statuses.drop_last())) by {
            assert forall|i: int| 0 <= i < files.drop_last().len() implies #[trigger] statuses.drop_last()[i]
                == (FileStatusView::Present { sha256: files.drop_last()[i].sha256 }) by {
                assert(statuses[i] == (FileStatusView::Present { sha256: files[i].sha256 }));
            }
        }
        lemma_all_present(files.drop_last(), statuses.drop_last());
    }
}

/// A run with nothing wrong beforehand, against a store that holds every
/// file with its declared hash, is over once the statuses are in: it
/// reports that all is up to date, and it has fetched and written nothing.
pub proof fn lemma_up_to_date(state: RunView, statuses: Seq<FileStatusView>)
    requires
        state.stage is Statuses,
        state.errors.len() == 0,
        all_present(state.files, statuses),
    ensures
        state.step(EventView::Statuses(statuses)).1 == ActionView::Finish(OutcomeView::UpToDate),
        state.step(EventView::Statuses(statuses)).0.stage is Done,
        state.step(EventView::Statuses(statuses)).0.errors.len() == 0,
        state.step(EventView::Statuses(statuses)).0.to_upload.len() == 0,
{
    lemma_all_present(state.files, statuses);
}

/// What is said before the statuses are asked for.
pub open spec fn plan_text(files: nat, jobs: nat) -> Seq<char> {
    "calculating the changes to execute ("@ + decimal_digits(files) + " files, "@
        + decimal_digits(jobs) + " parallelism)..."@
}

/// What is said before the file named `name` is written.
pub open spec fn uploading_text(name: Seq<char>) -> Seq<char> {
    "uploading "@ + name + "..."@
}

/// What is said at the end of a run, line by line: every message where
/// something was wrong, below their number.
pub open spec fn report_of(outcome: OutcomeView) -> Seq<Seq<char>> {
    match outcome {
        OutcomeView::Failed(errors) => seq![
            "Found "@ + decimal_digits(errors.len()) + " error(s)"@,
        ] + Seq::new(errors.len(), |i: int| "error: "@ + errors[i]),
        OutcomeView::UpToDate => seq!["everything is up to date!"@],
        OutcomeView::Skipped => seq!["skipping upload due to --skip-upload"@],
        OutcomeView::Uploaded => Seq::empty(),
        OutcomeView::Misused => seq!["the run was reported something it had not asked for"@],
    }
}

/// What is said before the statuses of `files` files are asked for, `jobs`
/// at a time.
pub fn plan_message(files: usize, jobs: usize) -> (r: String)
    ensures
        r@ == plan_text(files as nat, jobs as nat),
{
    let mut r = String::from_str("calculating the changes to execute (");
    push_decimal(&mut r, files);
    r.append(" files, ");
    push_decimal(&mut r, jobs);
    r.append(" parallelism)...");
    r
}

/// What is said before the file named `name` is written.
pub fn uploading_message(name: &str) -> (r: String)
    ensures
        r@ == uploading_text(name@),
{
    let mut r = String::from_str("uploading ");
    r.append(name);
    r.append("...");
    r
}

impl Outcome {
    /// Whether the run did what it was for: nothing was wrong.
    pub fn is_success(&self) -> (r: bool)
        ensures
            r == !(self.deep_view() is Failed || self.deep_view() is Misused),
    {
        match self {
            Outcome::Failed(_) => false,
            Outcome::Misused => false,
            _ => true,
        }
    }

    /// What is said at the end of the run, line by line.
    pub fn report(&self) -> (r: Vec<String>)
        ensures
            r.deep_view() == report_of(self.deep_view()),
    {
        let mut lines: Vec<String> = Vec::new();
        match self {
            Outcome::Failed(errors) => {
                let mut head = String::from_str("Found ");
                push_decimal(&mut head, errors.len());
                head.append(" error(s)");
                lines.push(head);
                let ghost first = head@;
                let ghost all = errors.deep_view();
                let mut i: usize = 0;
                while i < errors.len()
                    invariant
                        i <= errors.len(),
                        all == errors.deep_view(),
                        lines.len() == i + 1,
                        lines[0]@ == first,
                        forall|k: int|
                            0 <= k < i ==> (#[trigger] lines[k + 1])@ == "error: "@ + all[k],
                    decreases errors.len() - i,
                {
                    let mut line = String::from_str("error: ");
                    line.append(errors[i].as_str());
                    lines.push(line);
                    i += 1;
                }
                proof {
                    let want = report_of(self.deep_view());
                    assert forall|k: int| 0 <= k < want.len() implies lines.deep_view()[k]
                        == want[k] by {
                        if k > 0 {
                            assert(lines[(k - 1) + 1]@ == "error: "@ + all[k - 1]);
                        }
                    }
                }
            },
            Outcome::UpToDate => {
                lines.push(String::from_str("everything is up to date!"));
            },
            Outcome::Skipped => {
                lines.push(String::from_str("skipping upload due to --skip-upload"));
            },
            Outcome::Uploaded => {
                assert(lines.deep_view() =~= report_of(self.deep_view()));
            },
            Outcome::Misused => {
                lines.push(String::from_str("the run was reported something it had not asked for"));
            },
        }
        lines
    }
}

} // verus!
