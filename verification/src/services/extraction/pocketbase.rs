//! The order of work in a Pocketbase extraction: connect to Docker, pause
//! an online container, log in to the Pocketbase server, have it create a
//! backup, get a file access token, download the backup into the staging
//! directory, then unpause. The first step that fails ends the extraction
//! with its error, and the container stays paused. The work itself (Docker,
//! HTTP, the file system) is done by the caller.
use vstd::prelude::*;

use crate::clients::pocketbase::{credentials_of, pocketbase_credentials};
use crate::models::labels::Labels;
use crate::services::extraction::run::{failure, failure_text, prefixed, result_view, status_view};
use crate::text::{join_path, joined};

verus! {

/// Where a Pocketbase extraction stands.
#[derive(Debug)]
pub enum PocketbaseStage {
    Connecting,
    Pausing,
    Authenticating,
    CreatingBackup,
    GettingFileToken,
    Downloading,
    /// The backup was downloaded to this directory; the container is to be
    /// unpaused.
    Unpausing(String),
    Finished(Result<String, String>),
}

/// Where a Pocketbase extraction stands, over plain values.
pub enum PocketbaseStageModel {
    Connecting,
    Pausing,
    Authenticating,
    CreatingBackup,
    GettingFileToken,
    Downloading,
    Unpausing(Seq<char>),
    Finished(Result<Seq<char>, Seq<char>>),
}

/// What the caller is to do next.
#[derive(Debug)]
pub enum PocketbaseAction {
    /// Connect to the Docker daemon.
    Connect,
    /// Pause the named container.
    Pause(String),
    /// Log in to the server at this address with this user name and
    /// password, for a superuser token.
    Authenticate(String, String, String),
    /// With this token, have the server create a backup; its name comes
    /// back.
    CreateBackup(String),
    /// With this token, get a file access token.
    GetFileToken(String),
    /// With the token, download the named backup using the file access
    /// token into the staging directory: token, backup name, file access
    /// token, staging directory.
    Download(String, String, String, String),
    /// Unpause the named container.
    Unpause(String),
    /// The extraction is over, with this outcome.
    Done(Result<String, String>),
}

/// What the caller is to do next, over plain values.
pub enum PocketbaseStepModel {
    Connect,
    Pause(Seq<char>),
    Authenticate(Seq<char>, Seq<char>, Seq<char>),
    CreateBackup(Seq<char>),
    GetFileToken(Seq<char>),
    Download(Seq<char>, Seq<char>, Seq<char>, Seq<char>),
    Unpause(Seq<char>),
    Done(Result<Seq<char>, Seq<char>>),
}

/// What came of the work the caller was asked for.
#[derive(Debug)]
pub enum PocketbaseEvent {
    Connected(Result<(), String>),
    Paused(Result<(), String>),
    Authenticated(Result<String, String>),
    BackupCreated(Result<String, String>),
    FileTokenIssued(Result<String, String>),
    Downloaded(Result<String, String>),
    Unpaused(Result<(), String>),
}

/// What came of the work, over plain values.
pub enum PocketbaseEventModel {
    Connected(Result<(), Seq<char>>),
    Paused(Result<(), Seq<char>>),
    Authenticated(Result<Seq<char>, Seq<char>>),
    BackupCreated(Result<Seq<char>, Seq<char>>),
    FileTokenIssued(Result<Seq<char>, Seq<char>>),
    Downloaded(Result<Seq<char>, Seq<char>>),
    Unpaused(Result<(), Seq<char>>),
}

/// The state of a Pocketbase extraction, over plain values: the container,
/// the server's credentials, and what the server has answered so far.
#[verifier::ext_equal]
pub struct PocketbaseModel {
    pub name: Seq<char>,
    pub online: bool,
    pub staging_path: Seq<char>,
    pub url: Seq<char>,
    pub username: Seq<char>,
    pub password: Seq<char>,
    pub token: Seq<char>,
    pub backup_key: Seq<char>,
    pub file_token: Seq<char>,
    pub stage: PocketbaseStageModel,
}

/// A Pocketbase extraction under way.
pub struct PocketbaseExtraction {
    name: String,
    online: bool,
    staging_path: String,
    url: String,
    username: String,
    password: String,
    token: String,
    backup_key: String,
    file_token: String,
    stage: PocketbaseStage,
}

impl View for PocketbaseStage {
    type V = PocketbaseStageModel;

    open spec fn view(&self) -> PocketbaseStageModel {
        match self {
            PocketbaseStage::Connecting => PocketbaseStageModel::Connecting,
            PocketbaseStage::Pausing => PocketbaseStageModel::Pausing,
            PocketbaseStage::Authenticating => PocketbaseStageModel::Authenticating,
            PocketbaseStage::CreatingBackup => PocketbaseStageModel::CreatingBackup,
            PocketbaseStage::GettingFileToken => PocketbaseStageModel::GettingFileToken,
            PocketbaseStage::Downloading => PocketbaseStageModel::Downloading,
            PocketbaseStage::Unpausing(p) => PocketbaseStageModel::Unpausing(p@),
            PocketbaseStage::Finished(r) => PocketbaseStageModel::Finished(result_view(*r)),
        }
    }
}

impl View for PocketbaseAction {
    type V = PocketbaseStepModel;

    open spec fn view(&self) -> PocketbaseStepModel {
        match self {
            PocketbaseAction::Connect => PocketbaseStepModel::Connect,
            PocketbaseAction::Pause(n) => PocketbaseStepModel::Pause(n@),
            PocketbaseAction::Authenticate(u, n, p) => PocketbaseStepModel::Authenticate(
                u@,
                n@,
                p@,
            ),
            PocketbaseAction::CreateBackup(t) => PocketbaseStepModel::CreateBackup(t@),
            PocketbaseAction::GetFileToken(t) => PocketbaseStepModel::GetFileToken(t@),
            PocketbaseAction::Download(t, k, f, s) => PocketbaseStepModel::Download(
                t@,
                k@,
                f@,
                s@,
            ),
            PocketbaseAction::Unpause(n) => PocketbaseStepModel::Unpause(n@),
            PocketbaseAction::Done(r) => PocketbaseStepModel::Done(result_view(*r)),
        }
    }
}

impl View for PocketbaseEvent {
    type V = PocketbaseEventModel;

    open spec fn view(&self) -> PocketbaseEventModel {
        match self {
            PocketbaseEvent::Connected(r) => PocketbaseEventModel::Connected(status_view(*r)),
            PocketbaseEvent::Paused(r) => PocketbaseEventModel::Paused(status_view(*r)),
            PocketbaseEvent::Authenticated(r) => PocketbaseEventModel::Authenticated(
                result_view(*r),
            ),
            PocketbaseEvent::BackupCreated(r) => PocketbaseEventModel::BackupCreated(
                result_view(*r),
            ),
            PocketbaseEvent::FileTokenIssued(r) => PocketbaseEventModel::FileTokenIssued(
                result_view(*r),
            ),
            PocketbaseEvent::Downloaded(r) => PocketbaseEventModel::Downloaded(result_view(*r)),
            PocketbaseEvent::Unpaused(r) => PocketbaseEventModel::Unpaused(status_view(*r)),
        }
    }
}

impl View for PocketbaseExtraction {
    type V = PocketbaseModel;

    closed spec fn view(&self) -> PocketbaseModel {
        PocketbaseModel {
            name: self.name@,
            online: self.online,
            staging_path: self.staging_path@,
            url: self.url@,
            username: self.username@,
            password: self.password@,
            token: self.token@,
            backup_key: self.backup_key@,
            file_token: self.file_token@,
            stage: self.stage@,
        }
    }
}

/// The state in which a Pocketbase extraction starts: with the server's
/// credentials from the labels it connects to Docker first; without them it
/// is over at once, with the error for the first one missing.
pub open spec fn pocketbase_initial(
    name: Seq<char>,
    online: bool,
    staging_path: Seq<char>,
    labels: Labels,
) -> PocketbaseModel {
    let c = credentials_of(labels);
    PocketbaseModel {
        name,
        online,
        staging_path,
        url: if c is Ok { c->Ok_0.0 } else { Seq::empty() },
        username: if c is Ok { c->Ok_0.1 } else { Seq::empty() },
        password: if c is Ok { c->Ok_0.2 } else { Seq::empty() },
        token: Seq::empty(),
        backup_key: Seq::empty(),
        file_token: Seq::empty(),
        stage: match c {
            Ok(_) => PocketbaseStageModel::Connecting,
            Err(e) => PocketbaseStageModel::Finished(Err(e)),
        },
    }
}

/// What comes next, by the stage the extraction stands at.
pub open spec fn pocketbase_next_step(m: PocketbaseModel) -> PocketbaseStepModel {
    match m.stage {
        PocketbaseStageModel::Connecting => PocketbaseStepModel::Connect,
        PocketbaseStageModel::Pausing => PocketbaseStepModel::Pause(m.name),
        PocketbaseStageModel::Authenticating => PocketbaseStepModel::Authenticate(
            m.url,
            m.username,
            m.password,
        ),
        PocketbaseStageModel::CreatingBackup => PocketbaseStepModel::CreateBackup(m.token),
        PocketbaseStageModel::GettingFileToken => PocketbaseStepModel::GetFileToken(m.token),
        PocketbaseStageModel::Downloading => PocketbaseStepModel::Download(
            m.token,
            m.backup_key,
            m.file_token,
            m.staging_path,
        ),
        PocketbaseStageModel::Unpausing(_) => PocketbaseStepModel::Unpause(m.name),
        PocketbaseStageModel::Finished(r) => PocketbaseStepModel::Done(r),
    }
}

pub open spec fn pb_with_stage(m: PocketbaseModel, stage: PocketbaseStageModel) -> PocketbaseModel {
    PocketbaseModel {
        name: m.name,
        online: m.online,
        staging_path: m.staging_path,
        url: m.url,
        username: m.username,
        password: m.password,
        token: m.token,
        backup_key: m.backup_key,
        file_token: m.file_token,
        stage,
    }
}

/// Ends the extraction with this outcome.
pub open spec fn pb_finished(m: PocketbaseModel, r: Result<Seq<char>, Seq<char>>) -> PocketbaseModel {
    pb_with_stage(m, PocketbaseStageModel::Finished(r))
}

/// The state after an event. An event that answers the step asked for moves
/// the extraction on; any other leaves it as it is. A failed pause or
/// unpause gives `Failed to (un)pause container <name>: <error>`; any other
/// failure ends the extraction with the error as the caller gave it.
pub open spec fn pocketbase_after(m: PocketbaseModel, e: PocketbaseEventModel) -> PocketbaseModel {
    match (m.stage, e) {
        (PocketbaseStageModel::Connecting, PocketbaseEventModel::Connected(r)) => match r {
            Ok(_) => pb_with_stage(
                m,
                if m.online {
                    PocketbaseStageModel::Pausing
                } else {
                    PocketbaseStageModel::Authenticating
                },
            ),
            Err(x) => pb_finished(m, Err(x)),
        },
        (PocketbaseStageModel::Pausing, PocketbaseEventModel::Paused(r)) => match r {
            Ok(_) => pb_with_stage(m, PocketbaseStageModel::Authenticating),
            Err(x) => pb_finished(m, Err(failure("Failed to pause container "@ + m.name, x))),
        },
        (PocketbaseStageModel::Authenticating, PocketbaseEventModel::Authenticated(r)) => match r {
            Ok(t) => PocketbaseModel {
                token: t,
                ..pb_with_stage(m, PocketbaseStageModel::CreatingBackup)
            },
            Err(x) => pb_finished(m, Err(x)),
        },
        (PocketbaseStageModel::CreatingBackup, PocketbaseEventModel::BackupCreated(r)) => match r {
            Ok(k) => PocketbaseModel {
                backup_key: k,
                ..pb_with_stage(m, PocketbaseStageModel::GettingFileToken)
            },
            Err(x) => pb_finished(m, Err(x)),
        },
        (PocketbaseStageModel::GettingFileToken, PocketbaseEventModel::FileTokenIssued(r)) => match r {
            Ok(f) => PocketbaseModel {
                file_token: f,
                ..pb_with_stage(m, PocketbaseStageModel::Downloading)
            },
            Err(x) => pb_finished(m, Err(x)),
        },
        (PocketbaseStageModel::Downloading, PocketbaseEventModel::Downloaded(r)) => match r {
            Ok(p) => if m.online {
                pb_with_stage(m, PocketbaseStageModel::Unpausing(p))
            } else {
                pb_finished(m, Ok(p))
            },
            Err(x) => pb_finished(m, Err(x)),
        },
        (PocketbaseStageModel::Unpausing(p), PocketbaseEventModel::Unpaused(r)) => match r {
            Ok(_) => pb_finished(m, Ok(p)),
            Err(x) => pb_finished(m, Err(failure("Failed to unpause container "@ + m.name, x))),
        },
        _ => m,
    }
}

impl PocketbaseExtraction {
    /// Starts extracting a Pocketbase backup from the named container into
    /// `<staging_dir>/<container_name>`, with the server's credentials from
    /// its labels.
    pub fn start(container_name: &str, online: bool, staging_dir: &str, labels: &Labels) -> (r:
        PocketbaseExtraction)
        ensures
            r@ == pocketbase_initial(
                container_name@,
                online,
                joined(staging_dir@, container_name@),
                *labels,
            ),
    {
        let name = String::from_str(container_name);
        let staging_path = join_path(staging_dir, container_name);
        let r = match pocketbase_credentials(labels) {
            Ok((url, username, password)) => PocketbaseExtraction {
                name,
                online,
                staging_path,
                url,
                username,
                password,
                token: String::new(),
                backup_key: String::new(),
                file_token: String::new(),
                stage: PocketbaseStage::Connecting,
            },
            Err(e) => PocketbaseExtraction {
                name,
                online,
                staging_path,
                url: String::new(),
                username: String::new(),
                password: String::new(),
                token: String::new(),
                backup_key: String::new(),
                file_token: String::new(),
                stage: PocketbaseStage::Finished(Err(e)),
            },
        };
        assert(r@ =~= pocketbase_initial(
            container_name@,
            online,
            joined(staging_dir@, container_name@),
            *labels,
        ));
        r
    }

    /// What the caller is to do next.
    pub fn next_action(&self) -> (a: PocketbaseAction)
        ensures
            a@ == pocketbase_next_step(self@),
    {
        match &self.stage {
            PocketbaseStage::Connecting => PocketbaseAction::Connect,
            PocketbaseStage::Pausing => PocketbaseAction::Pause(self.name.clone()),
            PocketbaseStage::Authenticating => PocketbaseAction::Authenticate(
                self.url.clone(),
                self.username.clone(),
                self.password.clone(),
            ),
            PocketbaseStage::CreatingBackup => PocketbaseAction::CreateBackup(self.token.clone()),
            PocketbaseStage::GettingFileToken => PocketbaseAction::GetFileToken(self.token.clone()),
            PocketbaseStage::Downloading => PocketbaseAction::Download(
                self.token.clone(),
                self.backup_key.clone(),
                self.file_token.clone(),
                self.staging_path.clone(),
            ),
            PocketbaseStage::Unpausing(_) => PocketbaseAction::Unpause(self.name.clone()),
            PocketbaseStage::Finished(r) => match r {
                Ok(s) => PocketbaseAction::Done(Ok(s.clone())),
                Err(e) => PocketbaseAction::Done(Err(e.clone())),
            },
        }
    }

    /// Takes back what came of the work asked for.
    pub fn on_event(&mut self, event: PocketbaseEvent)
        ensures
            final(self)@ == pocketbase_after(old(self)@, event@),
    {
        let ghost before = self@;
        match (&self.stage, event) {
            (PocketbaseStage::Connecting, PocketbaseEvent::Connected(r)) => match r {
                Ok(()) => {
                    self.stage = if self.online {
                        PocketbaseStage::Pausing
                    } else {
                        PocketbaseStage::Authenticating
                    };
                },
                Err(x) => {
                    self.stage = PocketbaseStage::Finished(Err(x));
                },
            },
            (PocketbaseStage::Pausing, PocketbaseEvent::Paused(r)) => match r {
                Ok(()) => {
                    self.stage = PocketbaseStage::Authenticating;
                },
                Err(x) => {
                    let subject = prefixed("Failed to pause container ", self.name.as_str());
                    self.stage = PocketbaseStage::Finished(Err(failure_text(subject, x.as_str())));
                },
            },
            (PocketbaseStage::Authenticating, PocketbaseEvent::Authenticated(r)) => match r {
                Ok(t) => {
                    self.token = t;
                    self.stage = PocketbaseStage::CreatingBackup;
                },
                Err(x) => {
                    self.stage = PocketbaseStage::Finished(Err(x));
                },
            },
            (PocketbaseStage::CreatingBackup, PocketbaseEvent::BackupCreated(r)) => match r {
                Ok(k) => {
                    self.backup_key = k;
                    self.stage = PocketbaseStage::GettingFileToken;
                },
                Err(x) => {
                    self.stage = PocketbaseStage::Finished(Err(x));
                },
            },
            (PocketbaseStage::GettingFileToken, PocketbaseEvent::FileTokenIssued(r)) => match r {
                Ok(f) => {
                    self.file_token = f;
                    self.stage = PocketbaseStage::Downloading;
                },
                Err(x) => {
                    self.stage = PocketbaseStage::Finished(Err(x));
                },
            },
            (PocketbaseStage::Downloading, PocketbaseEvent::Downloaded(r)) => match r {
                Ok(p) => {
                    self.stage = if self.online {
                        PocketbaseStage::Unpausing(p)
                    } else {
                        PocketbaseStage::Finished(Ok(p))
                    };
                },
                Err(x) => {
                    self.stage = PocketbaseStage::Finished(Err(x));
                },
            },
            (PocketbaseStage::Unpausing(p), PocketbaseEvent::Unpaused(r)) => {
                let path = p.clone();
                match r {
                    Ok(()) => {
                        self.stage = PocketbaseStage::Finished(Ok(path));
                    },
                    Err(x) => {
                        let subject = prefixed("Failed to unpause container ", self.name.as_str());
                        self.stage = PocketbaseStage::Finished(
                            Err(failure_text(subject, x.as_str())),
                        );
                    },
                }
            },
            _ => {},
        }
        assert(self@ =~= pocketbase_after(before, event@));
    }
}

/// A step that fails ends the extraction at once, and nothing else is
/// asked for: in particular an online container is not unpaused.
pub proof fn lemma_pocketbase_failure_ends_extraction(m: PocketbaseModel, e: PocketbaseEventModel)
    requires
        !(m.stage is Finished),
        pocketbase_after(m, e) != m,
        match e {
            PocketbaseEventModel::Connected(r) => r is Err,
            PocketbaseEventModel::Paused(r) => r is Err,
            PocketbaseEventModel::Authenticated(r) => r is Err,
            PocketbaseEventModel::BackupCreated(r) => r is Err,
            PocketbaseEventModel::FileTokenIssued(r) => r is Err,
            PocketbaseEventModel::Downloaded(r) => r is Err,
            PocketbaseEventModel::Unpaused(r) => r is Err,
        },
    ensures
        pocketbase_after(m, e).stage is Finished,
        pocketbase_after(m, e).stage->Finished_0 is Err,
        pocketbase_next_step(pocketbase_after(m, e)) is Done,
{
}

/// Once a Pocketbase extraction is over it stays over.
pub proof fn lemma_pocketbase_finished_stays(m: PocketbaseModel, e: PocketbaseEventModel)
    requires
        m.stage is Finished,
    ensures
        pocketbase_after(m, e) == m,
{
}

/// An online container is unpaused only after the backup was downloaded,
/// and the extraction then ends with the directory it was downloaded to.
pub proof fn lemma_pocketbase_unpause_after_download(m: PocketbaseModel)
    requires
        pocketbase_next_step(m) is Unpause,
    ensures
        m.stage is Unpausing,
        pocketbase_after(m, PocketbaseEventModel::Unpaused(Ok(()))).stage
            == PocketbaseStageModel::Finished(Ok::<Seq<char>, Seq<char>>(m.stage->Unpausing_0)),
{
}

} // verus!
