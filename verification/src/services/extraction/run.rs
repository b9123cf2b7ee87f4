//! The order of work in a file extraction: pause an online container,
//! create the staging directory, expand each glob and copy each file, then
//! unpause. The work itself (Docker, the file system) is done by the caller;
//! this machine says what comes next and takes back what happened.
use vstd::prelude::*;

use crate::services::extraction::file::{extraction_outcome, joined_messages};
use crate::services::extraction::utils::{get_base_from_glob, glob_base, has_glob_char, is_path_glob};
use crate::text::{join_path, joined, views};

verus! {

/// Where an extraction stands.
#[derive(Debug)]
pub enum ExtractionStage {
    Pausing,
    Staging,
    Working,
    Finished(Result<String, String>),
}

/// Where an extraction stands, over plain values.
pub enum StageModel {
    Pausing,
    Staging,
    Working,
    Finished(Result<Seq<char>, Seq<char>>),
}

/// What the caller is to do next.
#[derive(Debug)]
pub enum ExtractionAction {
    /// Pause the named container.
    Pause(String),
    /// Create the staging directory.
    CreateStaging,
    /// Fetch the directory `base` and list the paths in it that the
    /// `pattern` matches.
    ExpandGlob(String, String),
    /// Copy the file at this path into the staging directory.
    CopyFile(String),
    /// Unpause the named container.
    Unpause(String),
    /// The extraction is over, with this outcome.
    Done(Result<String, String>),
}

/// What the caller is to do next, over plain values.
pub enum StepModel {
    Pause(Seq<char>),
    CreateStaging,
    ExpandGlob(Seq<char>, Seq<char>),
    CopyFile(Seq<char>),
    Unpause(Seq<char>),
    Done(Result<Seq<char>, Seq<char>>),
}

/// What came of the work the caller was asked for.
#[derive(Debug)]
pub enum ExtractionEvent {
    Paused(Result<(), String>),
    StagingCreated(Result<(), String>),
    GlobExpanded(Result<Vec<String>, String>),
    Copied(Result<(), String>),
    Unpaused(Result<(), String>),
}

/// What came of the work, over plain values.
pub enum EventModel {
    Paused(Result<(), Seq<char>>),
    StagingCreated(Result<(), Seq<char>>),
    GlobExpanded(Result<Seq<Seq<char>>, Seq<char>>),
    Copied(Result<(), Seq<char>>),
    Unpaused(Result<(), Seq<char>>),
}

/// The state of an extraction, over plain values: the container, the paths
/// from its labels and how far the work has come through them, the matches
/// of the glob being worked through, and the copy errors so far.
#[verifier::ext_equal]
pub struct ExtractionModel {
    pub name: Seq<char>,
    pub online: bool,
    pub staging_path: Seq<char>,
    pub stage: StageModel,
    pub paths: Seq<Seq<char>>,
    pub next_path: int,
    pub matches: Seq<Seq<char>>,
    pub next_match: int,
    pub errors: Seq<Seq<char>>,
}

/// A file extraction under way.
pub struct FileExtraction {
    name: String,
    online: bool,
    staging_path: String,
    stage: ExtractionStage,
    paths: Vec<String>,
    next_path: usize,
    matches: Vec<String>,
    next_match: usize,
    errors: Vec<String>,
}

pub open spec fn result_view(r: Result<String, String>) -> Result<Seq<char>, Seq<char>> {
    match r {
        Ok(s) => Ok(s@),
        Err(e) => Err(e@),
    }
}

pub open spec fn status_view(r: Result<(), String>) -> Result<(), Seq<char>> {
    match r {
        Ok(_) => Ok(()),
        Err(e) => Err(e@),
    }
}

impl View for ExtractionStage {
    type V = StageModel;

    open spec fn view(&self) -> StageModel {
        match self {
            ExtractionStage::Pausing => StageModel::Pausing,
            ExtractionStage::Staging => StageModel::Staging,
            ExtractionStage::Working => StageModel::Working,
            ExtractionStage::Finished(r) => StageModel::Finished(result_view(*r)),
        }
    }
}

impl View for ExtractionAction {
    type V = StepModel;

    open spec fn view(&self) -> StepModel {
        match self {
            ExtractionAction::Pause(n) => StepModel::Pause(n@),
            ExtractionAction::CreateStaging => StepModel::CreateStaging,
            ExtractionAction::ExpandGlob(p, b) => StepModel::ExpandGlob(p@, b@),
            ExtractionAction::CopyFile(p) => StepModel::CopyFile(p@),
            ExtractionAction::Unpause(n) => StepModel::Unpause(n@),
            ExtractionAction::Done(r) => StepModel::Done(result_view(*r)),
        }
    }
}

impl View for ExtractionEvent {
    type V = EventModel;

    open spec fn view(&self) -> EventModel {
        match self {
            ExtractionEvent::Paused(r) => EventModel::Paused(status_view(*r)),
            ExtractionEvent::StagingCreated(r) => EventModel::StagingCreated(status_view(*r)),
            ExtractionEvent::GlobExpanded(r) => EventModel::GlobExpanded(
                match r {
                    Ok(v) => Ok(views(v@)),
                    Err(e) => Err(e@),
                },
            ),
            ExtractionEvent::Copied(r) => EventModel::Copied(status_view(*r)),
            ExtractionEvent::Unpaused(r) => EventModel::Unpaused(status_view(*r)),
        }
    }
}

impl View for FileExtraction {
    type V = ExtractionModel;

    closed spec fn view(&self) -> ExtractionModel {
        ExtractionModel {
            name: self.name@,
            online: self.online,
            staging_path: self.staging_path@,
            stage: self.stage@,
            paths: views(self.paths@),
            next_path: self.next_path as int,
            matches: views(self.matches@),
            next_match: self.next_match as int,
            errors: views(self.errors@),
        }
    }
}

/// `subject`, a colon, a space and `detail`, as `format!("{}: {}", ..)`
/// writes them.
pub open spec fn failure(subject: Seq<char>, detail: Seq<char>) -> Seq<char> {
    subject + seq![':', ' '] + detail
}

/// The state in which an extraction starts: an online container is paused
/// first, else the staging directory is created first.
pub open spec fn initial_model(
    name: Seq<char>,
    online: bool,
    staging_path: Seq<char>,
    paths: Seq<Seq<char>>,
) -> ExtractionModel {
    ExtractionModel {
        name,
        online,
        staging_path,
        stage: if online {
            StageModel::Pausing
        } else {
            StageModel::Staging
        },
        paths,
        next_path: 0,
        matches: Seq::empty(),
        next_match: 0,
        errors: Seq::empty(),
    }
}

/// Whether matches of a glob are still to be copied.
pub open spec fn copying_match(m: ExtractionModel) -> bool {
    0 <= m.next_match < m.matches.len()
}

/// Whether any path or match is still to be worked on.
pub open spec fn work_left(m: ExtractionModel) -> bool {
    copying_match(m) || 0 <= m.next_path < m.paths.len()
}

/// The staging directory when no copy failed, else the copy errors joined
/// with `; `.
pub open spec fn collected_outcome(m: ExtractionModel) -> Result<Seq<char>, Seq<char>> {
    if m.errors.len() == 0 {
        Ok(m.staging_path)
    } else {
        Err(joined_messages(m.errors))
    }
}

/// What comes next: the pending matches of a glob are copied first, then the
/// next path of the labels is expanded (a glob) or copied; when no work is
/// left, an online container is unpaused, else the extraction is over.
pub open spec fn next_step(m: ExtractionModel) -> StepModel {
    match m.stage {
        StageModel::Pausing => StepModel::Pause(m.name),
        StageModel::Staging => StepModel::CreateStaging,
        StageModel::Working => if copying_match(m) {
            StepModel::CopyFile(m.matches[m.next_match])
        } else if 0 <= m.next_path < m.paths.len() {
            let p = m.paths[m.next_path];
            if has_glob_char(p) {
                StepModel::ExpandGlob(p, glob_base(p))
            } else {
                StepModel::CopyFile(p)
            }
        } else if m.online {
            StepModel::Unpause(m.name)
        } else {
            StepModel::Done(collected_outcome(m))
        },
        StageModel::Finished(r) => StepModel::Done(r),
    }
}

pub open spec fn with_stage(m: ExtractionModel, stage: StageModel) -> ExtractionModel {
    ExtractionModel {
        name: m.name,
        online: m.online,
        staging_path: m.staging_path,
        stage,
        paths: m.paths,
        next_path: m.next_path,
        matches: m.matches,
        next_match: m.next_match,
        errors: m.errors,
    }
}

/// After a glob expanded to `found`: its matches are copied next, and the
/// work on the labels' paths moves past the glob.
pub open spec fn with_matches(m: ExtractionModel, found: Seq<Seq<char>>) -> ExtractionModel {
    ExtractionModel {
        name: m.name,
        online: m.online,
        staging_path: m.staging_path,
        stage: m.stage,
        paths: m.paths,
        next_path: m.next_path + 1,
        matches: found,
        next_match: 0,
        errors: m.errors,
    }
}

/// After the copy of `path`: the work moves past it, and a failure is
/// recorded as `Failed to copy file <path>: <error>`.
pub open spec fn after_copy(
    m: ExtractionModel,
    path: Seq<char>,
    r: Result<(), Seq<char>>,
) -> ExtractionModel {
    ExtractionModel {
        name: m.name,
        online: m.online,
        staging_path: m.staging_path,
        stage: m.stage,
        paths: m.paths,
        next_path: if copying_match(m) {
            m.next_path
        } else {
            m.next_path + 1
        },
        matches: m.matches,
        next_match: if copying_match(m) {
            m.next_match + 1
        } else {
            m.next_match
        },
        errors: match r {
            Ok(_) => m.errors,
            Err(e) => m.errors.push(failure("Failed to copy file "@ + path, e)),
        },
    }
}

/// The state after an event. An event that answers the step asked for
/// moves the extraction on; any other leaves it as it is. A failed pause,
/// staging directory, glob expansion or unpause ends the extraction with
/// that error (the container is not unpaused); a failed copy is recorded and
/// the work goes on.
pub open spec fn extraction_after(m: ExtractionModel, e: EventModel) -> ExtractionModel {
    match next_step(m) {
        StepModel::Pause(_) => match e {
            EventModel::Paused(Ok(_)) => with_stage(m, StageModel::Staging),
            EventModel::Paused(Err(x)) => with_stage(
                m,
                StageModel::Finished(Err(failure("Failed to pause container "@ + m.name, x))),
            ),
            _ => m,
        },
        StepModel::CreateStaging => match e {
            EventModel::StagingCreated(Ok(_)) => with_stage(m, StageModel::Working),
            EventModel::StagingCreated(Err(x)) => with_stage(
                m,
                StageModel::Finished(Err(failure("Failed to create staging directory"@, x))),
            ),
            _ => m,
        },
        StepModel::ExpandGlob(_, _) => match e {
            EventModel::GlobExpanded(Ok(found)) => with_matches(m, found),
            EventModel::GlobExpanded(Err(x)) => with_stage(m, StageModel::Finished(Err(x))),
            _ => m,
        },
        StepModel::CopyFile(p) => match e {
            EventModel::Copied(r) => after_copy(m, p, r),
            _ => m,
        },
        StepModel::Unpause(_) => match e {
            EventModel::Unpaused(Ok(_)) => with_stage(m, StageModel::Finished(collected_outcome(m))),
            EventModel::Unpaused(Err(x)) => with_stage(
                m,
                StageModel::Finished(Err(failure("Failed to unpause container "@ + m.name, x))),
            ),
            _ => m,
        },
        StepModel::Done(_) => m,
    }
}

/// Once an extraction is over it stays over: every event leaves it as it
/// is, and the next step is the outcome it ended with.
pub proof fn lemma_finished_extraction_stays(m: ExtractionModel, e: EventModel)
    requires
        m.stage is Finished,
    ensures
        extraction_after(m, e) == m,
        next_step(m) == StepModel::Done(m.stage->Finished_0),
{
}

/// A glob that cannot be expanded ends the extraction with its error at
/// once: nothing else is copied and the container is not unpaused.
pub proof fn lemma_failed_glob_ends_extraction(m: ExtractionModel, x: Seq<char>)
    requires
        next_step(m) is ExpandGlob,
    ensures
        extraction_after(m, EventModel::GlobExpanded(Err(x))).stage
            == StageModel::Finished(Err::<Seq<char>, Seq<char>>(x)),
        next_step(extraction_after(m, EventModel::GlobExpanded(Err(x)))) == StepModel::Done(
            Err::<Seq<char>, Seq<char>>(x),
        ),
{
}

/// A file that cannot be copied is recorded as
/// `Failed to copy file <path>: <error>`, and the work goes on.
pub proof fn lemma_failed_copy_is_recorded(m: ExtractionModel, p: Seq<char>, x: Seq<char>)
    requires
        next_step(m) == StepModel::CopyFile(p),
    ensures
        extraction_after(m, EventModel::Copied(Err(x))).errors == m.errors.push(
            failure("Failed to copy file "@ + p, x),
        ),
        extraction_after(m, EventModel::Copied(Err(x))).stage == StageModel::Working,
{
}

/// An online container is unpaused only when every path and every match
/// has been worked on.
pub proof fn lemma_unpause_comes_last(m: ExtractionModel)
    requires
        next_step(m) is Unpause,
    ensures
        m.online,
        m.stage == StageModel::Working,
        !work_left(m),
{
}

/// After the unpause, the outcome is the staging directory when no copy
/// failed, else every copy error joined with `; `.
pub proof fn lemma_unpaused_outcome(m: ExtractionModel)
    requires
        next_step(m) is Unpause,
    ensures
        next_step(extraction_after(m, EventModel::Unpaused(Ok(())))) == StepModel::Done(
            collected_outcome(m),
        ),
        m.errors.len() == 0 ==> collected_outcome(m) == Ok::<Seq<char>, Seq<char>>(
            m.staging_path,
        ),
{
}

/// The same extraction, for a container that is online or not.
pub open spec fn with_online(m: ExtractionModel, online: bool) -> ExtractionModel {
    ExtractionModel {
        name: m.name,
        online,
        staging_path: m.staging_path,
        stage: m.stage,
        paths: m.paths,
        next_path: m.next_path,
        matches: m.matches,
        next_match: m.next_match,
        errors: m.errors,
    }
}

/// When an offline container's extraction has no work left, it ends with
/// the staging directory if no copy failed, else with every copy error
/// joined with `; `: the same outcome that the extraction of the same
/// container, online, ends with after its unpause.
pub proof fn lemma_offline_outcome(m: ExtractionModel)
    requires
        m.stage == StageModel::Working,
        !work_left(m),
        !m.online,
    ensures
        m.errors.len() == 0 ==> next_step(m) == StepModel::Done(
            Ok::<Seq<char>, Seq<char>>(m.staging_path),
        ),
        m.errors.len() > 0 ==> next_step(m) == StepModel::Done(
            Err::<Seq<char>, Seq<char>>(joined_messages(m.errors)),
        ),
        next_step(m) == next_step(
            extraction_after(with_online(m, true), EventModel::Unpaused(Ok(()))),
        ),
{
}

/// When no glob match is pending and the next path of the labels holds a
/// glob character, that path is expanded from its glob base next, whatever
/// came of earlier globs.
pub proof fn lemma_glob_path_is_expanded(m: ExtractionModel)
    requires
        m.stage == StageModel::Working,
        !copying_match(m),
        0 <= m.next_path < m.paths.len(),
        has_glob_char(m.paths[m.next_path]),
    ensures
        next_step(m) == StepModel::ExpandGlob(
            m.paths[m.next_path],
            glob_base(m.paths[m.next_path]),
        ),
{
}

/// After a glob expands, its matches are copied next, first to last; a glob
/// that matched nothing moves the work on to the next path of the labels.
pub proof fn lemma_glob_matches_copied_next(m: ExtractionModel, found: Seq<Seq<char>>)
    requires
        next_step(m) is ExpandGlob,
    ensures
        found.len() > 0 ==> next_step(
            extraction_after(m, EventModel::GlobExpanded(Ok(found))),
        ) == StepModel::CopyFile(found[0]),
        extraction_after(m, EventModel::GlobExpanded(Ok(found))).next_path == m.next_path + 1,
        extraction_after(m, EventModel::GlobExpanded(Ok(found))).matches == found,
        extraction_after(m, EventModel::GlobExpanded(Ok(found))).errors == m.errors,
{
}

/// Once a glob's matches have all been copied, the work goes on with the
/// next path of the labels exactly as if the glob had matched nothing.
pub proof fn lemma_finished_matches_do_not_count(m: ExtractionModel)
    requires
        !copying_match(m),
    ensures
        next_step(m) == next_step(
            ExtractionModel {
                name: m.name,
                online: m.online,
                staging_path: m.staging_path,
                stage: m.stage,
                paths: m.paths,
                next_path: m.next_path,
                matches: Seq::empty(),
                next_match: 0,
                errors: m.errors,
            },
        ),
{
}

/// `subject`, `: ` and `detail`.
pub(crate) fn failure_text(subject: String, detail: &str) -> (r: String)
    ensures
        r@ == failure(subject@, detail@),
{
    let mut r = subject;
    r.append(": ");
    r.append(detail);
    proof {
        reveal_strlit(": ");
        assert(": "@ =~= seq![':', ' ']);
    }
    r
}

/// `prefix` followed by `name`.
pub(crate) fn prefixed(prefix: &str, name: &str) -> (r: String)
    ensures
        r@ == prefix@ + name@,
{
    let mut r = String::from_str(prefix);
    r.append(name);
    r
}

impl FileExtraction {
    /// Starts extracting `file_paths` from the named container into
    /// `<staging_dir>/<container_name>`.
    pub fn start(container_name: &str, online: bool, staging_dir: &str, file_paths: &Vec<String>) -> (r:
        FileExtraction)
        ensures
            r@ == initial_model(
                container_name@,
                online,
                joined(staging_dir@, container_name@),
                views(file_paths@),
            ),
    {
        let mut paths: Vec<String> = Vec::new();
        let mut i: usize = 0;
        while i < file_paths.len()
            invariant
                i <= file_paths@.len(),
                views(paths@) == views(file_paths@).subrange(0, i as int),
            decreases file_paths@.len() - i,
        {
            let ghost before = paths@;
            paths.push(file_paths[i].clone());
            assert(views(paths@) =~= views(before).push(file_paths@[i as int]@));
            assert(views(paths@) =~= views(file_paths@).subrange(0, i + 1));
            i = i + 1;
        }
        assert(views(file_paths@).subrange(0, file_paths@.len() as int) =~= views(file_paths@));
        let matches: Vec<String> = Vec::new();
        let errors: Vec<String> = Vec::new();
        assert(views(matches@) =~= Seq::<Seq<char>>::empty());
        assert(views(errors@) =~= Seq::<Seq<char>>::empty());
        let r = FileExtraction {
            name: String::from_str(container_name),
            online,
            staging_path: join_path(staging_dir, container_name),
            stage: if online {
                ExtractionStage::Pausing
            } else {
                ExtractionStage::Staging
            },
            paths,
            next_path: 0,
            matches,
            next_match: 0,
            errors,
        };
        assert(r@ =~= initial_model(
            container_name@,
            online,
            joined(staging_dir@, container_name@),
            views(file_paths@),
        ));
        r
    }

    /// What the caller is to do next.
    pub fn next_action(&self) -> (a: ExtractionAction)
        ensures
            a@ == next_step(self@),
    {
        match &self.stage {
            ExtractionStage::Pausing => ExtractionAction::Pause(self.name.clone()),
            ExtractionStage::Staging => ExtractionAction::CreateStaging,
            ExtractionStage::Finished(r) => match r {
                Ok(s) => ExtractionAction::Done(Ok(s.clone())),
                Err(e) => ExtractionAction::Done(Err(e.clone())),
            },
            ExtractionStage::Working => {
                if self.next_match < self.matches.len() {
                    ExtractionAction::CopyFile(self.matches[self.next_match].clone())
                } else if self.next_path < self.paths.len() {
                    let p = self.paths[self.next_path].as_str();
                    if is_path_glob(p) {
                        ExtractionAction::ExpandGlob(String::from_str(p), get_base_from_glob(p))
                    } else {
                        ExtractionAction::CopyFile(String::from_str(p))
                    }
                } else if self.online {
                    ExtractionAction::Unpause(self.name.clone())
                } else {
                    ExtractionAction::Done(
                        extraction_outcome(self.staging_path.clone(), &self.errors),
                    )
                }
            },
        }
    }

    /// Takes back what came of the work asked for.
    pub fn on_event(&mut self, event: ExtractionEvent)
        ensures
            final(self)@ == extraction_after(old(self)@, event@),
    {
        let step = self.next_action();
        match step {
            ExtractionAction::Pause(_) => match event {
                ExtractionEvent::Paused(Ok(())) => {
                    self.stage = ExtractionStage::Staging;
                },
                ExtractionEvent::Paused(Err(e)) => {
                    let subject = prefixed("Failed to pause container ", self.name.as_str());
                    self.stage = ExtractionStage::Finished(Err(failure_text(subject, e.as_str())));
                },
                _ => {},
            },
            ExtractionAction::CreateStaging => match event {
                ExtractionEvent::StagingCreated(Ok(())) => {
                    self.stage = ExtractionStage::Working;
                },
                ExtractionEvent::StagingCreated(Err(e)) => {
                    let subject = String::from_str("Failed to create staging directory");
                    self.stage = ExtractionStage::Finished(Err(failure_text(subject, e.as_str())));
                },
                _ => {},
            },
            ExtractionAction::ExpandGlob(_, _) => match event {
                ExtractionEvent::GlobExpanded(Ok(found)) => {
                    let n: usize = self.paths.len();
                    assert(self.next_path < n);
                    self.matches = found;
                    self.next_match = 0;
                    self.next_path = self.next_path + 1;
                },
                ExtractionEvent::GlobExpanded(Err(e)) => {
                    self.stage = ExtractionStage::Finished(Err(e));
                },
                _ => {},
            },
            ExtractionAction::CopyFile(p) => match event {
                ExtractionEvent::Copied(r) => {
                    if self.next_match < self.matches.len() {
                        self.next_match = self.next_match + 1;
                    } else {
                        let n: usize = self.paths.len();
                        assert(self.next_path < n);
                        self.next_path = self.next_path + 1;
                    }
                    match r {
                        Ok(()) => {},
                        Err(e) => {
                            let subject = prefixed("Failed to copy file ", p.as_str());
                            let ghost before = self.errors@;
                            self.errors.push(failure_text(subject, e.as_str()));
                            assert(views(self.errors@) =~= views(before).push(
                                failure("Failed to copy file "@ + p@, e@),
                            ));
                        },
                    }
                },
                _ => {},
            },
            ExtractionAction::Unpause(_) => match event {
                ExtractionEvent::Unpaused(Ok(())) => {
                    let outcome = extraction_outcome(self.staging_path.clone(), &self.errors);
                    self.stage = ExtractionStage::Finished(outcome);
                },
                ExtractionEvent::Unpaused(Err(e)) => {
                    let subject = prefixed("Failed to unpause container ", self.name.as_str());
                    self.stage = ExtractionStage::Finished(Err(failure_text(subject, e.as_str())));
                },
                _ => {},
            },
            ExtractionAction::Done(_) => {},
        }
        assert(self@ =~= extraction_after(old(self)@, event@));
    }
}

} // verus!
