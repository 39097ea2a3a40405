//! The sandbox record and the plain types it is made of.

use vstd::prelude::*;
use vstd::string::*;

use crate::text::char_prefix;

verus! {

/// The isolation mechanism that runs a sandbox's workload.
#[derive(Clone, Copy, Debug, PartialEq, Eq, Structural)]
pub enum Backend {
    Bubblewrap,
    Container,
    Vm,
}

impl Backend {
    /// The lower-case name of the backend.
    pub open spec fn label_text(self) -> Seq<char> {
        match self {
            Backend::Bubblewrap => "bubblewrap"@,
            Backend::Container => "container"@,
            Backend::Vm => "vm"@,
        }
    }

    /// Whether a sandbox of this backend runs on a virtual display that the
    /// manager has to provide. A virtual machine brings its own.
    pub open spec fn needs_display(self) -> bool {
        self != Backend::Vm
    }

    /// The lower-case name of the backend, as it is shown and stored.
    pub fn label(&self) -> (r: &'static str)
        ensures
            r@ == self.label_text(),
    {
        match self {
            Backend::Bubblewrap => "bubblewrap",
            Backend::Container => "container",
            Backend::Vm => "vm",
        }
    }

    /// Whether the manager has to provide a virtual display for this backend.
    pub fn requires_display(&self) -> (r: bool)
        ensures
            r == self.needs_display(),
    {
        match self {
            Backend::Vm => false,
            _ => true,
        }
    }
}

/// Where a sandbox stands in its life: `Running` from creation, `Stopped`
/// after an explicit stop, `Dead` once its session was found gone.
#[derive(Clone, Copy, Debug, PartialEq, Eq, Structural)]
pub enum SandboxStatus {
    Running,
    Stopped,
    Dead,
}

impl SandboxStatus {
    /// The lower-case name of the status.
    pub open spec fn label_text(self) -> Seq<char> {
        match self {
            SandboxStatus::Running => "running"@,
            SandboxStatus::Stopped => "stopped"@,
            SandboxStatus::Dead => "dead"@,
        }
    }

    /// The lower-case name of the status, as it is shown and stored.
    pub fn label(&self) -> (r: &'static str)
        ensures
            r@ == self.label_text(),
    {
        match self {
            SandboxStatus::Running => "running",
            SandboxStatus::Stopped => "stopped",
            SandboxStatus::Dead => "dead",
        }
    }
}

/// A point in time: whole seconds since the Unix epoch and the nanoseconds
/// within that second. Two timestamps are ordered by the seconds, then by the
/// nanoseconds.
#[derive(Clone, Copy, Debug, PartialEq, Eq, Structural)]
pub struct Timestamp {
    pub secs: i64,
    pub nanos: u32,
}

impl Timestamp {
    /// `self` lies strictly before `other`.
    pub open spec fn before(self, other: Timestamp) -> bool {
        self.secs < other.secs || (self.secs == other.secs && self.nanos < other.nanos)
    }

    /// Whether `self` lies strictly before `other`.
    pub fn is_before(&self, other: &Timestamp) -> (r: bool)
        ensures
            r == self.before(*other),
    {
        self.secs < other.secs || (self.secs == other.secs && self.nanos < other.nanos)
    }
}

/// The view of an optional string: the characters it holds, if any.
pub open spec fn text_view(text: Option<String>) -> Option<Seq<char>> {
    match text {
        Some(s) => Some(s@),
        None => None,
    }
}

/// A copy of an optional string.
pub fn copy_text(text: &Option<String>) -> (r: Option<String>)
    ensures
        text_view(r) == text_view(*text),
{
    match text {
        Some(s) => Some(s.clone()),
        None => None,
    }
}

/// The mathematical value of a [`Sandbox`].
pub struct SandboxView {
    pub id: Seq<char>,
    pub name: Seq<char>,
    pub backend: Backend,
    pub project_dir: Seq<char>,
    pub status: SandboxStatus,
    pub display_num: Option<u32>,
    pub tmux_session: Option<Seq<char>>,
    pub pid_xvfb: Option<u32>,
    pub qemu_qmp_socket: Option<Seq<char>>,
    pub network: bool,
    pub created_at: Timestamp,
}

impl SandboxView {
    /// The same record with another status.
    pub open spec fn with_status(self, status: SandboxStatus) -> SandboxView {
        SandboxView { status, ..self }
    }

    /// The record is in the `Running` state.
    pub open spec fn running(self) -> bool {
        self.status == SandboxStatus::Running
    }

    /// The display number of the record, where it has one, lies below `hint`.
    pub open spec fn display_below(self, hint: u32) -> bool {
        match self.display_num {
            Some(d) => d < hint,
            None => true,
        }
    }

    /// The record after a look at which sessions are gone: a `Running` record
    /// whose session is among `gone` is `Dead`; any other record, and every
    /// other field, stays as it is.
    pub open spec fn reconciled(self, gone: Seq<Seq<char>>) -> SandboxView {
        if self.session_gone(gone) {
            self.with_status(SandboxStatus::Dead)
        } else {
            self
        }
    }

    /// The record is `Running` and its session is among `gone`.
    pub open spec fn session_gone(self, gone: Seq<Seq<char>>) -> bool {
        &&& self.running()
        &&& self.tmux_session matches Some(session)
        &&& gone.contains(session)
    }

    /// The record is `Running` and holds display number `num`.
    pub open spec fn holds_display(self, num: u32) -> bool {
        self.running() && self.display_num == Some(num)
    }
}

/// A look at the sessions never revives a record and never touches one that is
/// `Stopped` or `Dead`: the status stays, or goes from `Running` to `Dead`,
/// and nothing but the status changes.
pub proof fn lemma_reconcile_only_demotes(r: SandboxView, gone: Seq<Seq<char>>)
    ensures
        !r.running() ==> r.reconciled(gone) == r,
        r.reconciled(gone).status == r.status || (r.running() && r.reconciled(gone).status
            == SandboxStatus::Dead),
        r.reconciled(gone).with_status(r.status) == r,
{
}

/// One supervised session and what the manager knows of it.
#[derive(Debug)]
pub struct Sandbox {
    pub id: String,
    pub name: String,
    pub backend: Backend,
    pub project_dir: String,
    pub status: SandboxStatus,
    pub display_num: Option<u32>,
    pub tmux_session: Option<String>,
    pub pid_xvfb: Option<u32>,
    pub qemu_qmp_socket: Option<String>,
    pub network: bool,
    pub created_at: Timestamp,
}

impl View for Sandbox {
    type V = SandboxView;

    open spec fn view(&self) -> SandboxView {
        SandboxView {
            id: self.id@,
            name: self.name@,
            backend: self.backend,
            project_dir: self.project_dir@,
            status: self.status,
            display_num: self.display_num,
            tmux_session: text_view(self.tmux_session),
            pid_xvfb: self.pid_xvfb,
            qemu_qmp_socket: text_view(self.qemu_qmp_socket),
            network: self.network,
            created_at: self.created_at,
        }
    }
}

impl Clone for Sandbox {
    fn clone(&self) -> (r: Self)
        ensures
            r@ == self@,
    {
        Sandbox {
            id: self.id.clone(),
            name: self.name.clone(),
            backend: self.backend,
            project_dir: self.project_dir.clone(),
            status: self.status,
            display_num: self.display_num,
            tmux_session: copy_text(&self.tmux_session),
            pid_xvfb: self.pid_xvfb,
            qemu_qmp_socket: copy_text(&self.qemu_qmp_socket),
            network: self.network,
            created_at: self.created_at,
        }
    }
}

/// The number of leading characters of an id that name a sandbox for display
/// and in the names derived from it.
pub const SHORT_ID_LEN: usize = 8;

/// The first [`SHORT_ID_LEN`] characters of `id`, or all of it where it is
/// shorter.
pub open spec fn short_id_of(id: Seq<char>) -> Seq<char> {
    id.take(if SHORT_ID_LEN <= id.len() { SHORT_ID_LEN as int } else { id.len() as int })
}

impl Sandbox {
    /// The short form of the id.
    pub fn short_id(&self) -> (r: String)
        ensures
            r@ == short_id_of(self@.id),
    {
        char_prefix(self.id.as_str(), SHORT_ID_LEN)
    }

    /// Whether the sandbox is in the `Running` state.
    pub fn is_running(&self) -> (r: bool)
        ensures
            r == self@.running(),
    {
        self.status == SandboxStatus::Running
    }

    /// The same record with another status.
    pub fn with_status(&self, status: SandboxStatus) -> (r: Sandbox)
        ensures
            r@ == self@.with_status(status),
    {
        let mut copy = self.clone();
        copy.status = status;
        copy
    }
}

/// What a caller asks for when creating a sandbox.
#[derive(Debug)]
pub struct CreateSandboxRequest {
    pub name: String,
    pub backend: Backend,
    pub project_dir: String,
    pub network: bool,
}

impl Clone for CreateSandboxRequest {
    fn clone(&self) -> (r: Self)
        ensures
            r.name@ == self.name@,
            r.backend == self.backend,
            r.project_dir@ == self.project_dir@,
            r.network == self.network,
    {
        CreateSandboxRequest {
            name: self.name.clone(),
            backend: self.backend,
            project_dir: self.project_dir.clone(),
            network: self.network,
        }
    }
}

/// The value of `network` where a request does not say.
pub fn default_true() -> (r: bool)
    ensures
        r,
{
    true
}

} // verus!
