//! The life of a sandbox: the steps of creating one, and stopping and
//! deleting one.
//!
//! Creating a sandbox needs work that only the caller can do: starting a
//! display, waiting for it, starting the session. [`begin_create`] and
//! [`create_sandbox`] decide what is to be done next; the caller does it and
//! reports what happened. Stopping and deleting change the registry at once
//! and hand the caller the list of what is to be torn down.

use vstd::prelude::*;
use vstd::string::*;

use crate::error::{ManagerError, ManagerErrorView};
use crate::record::{
    short_id_of, Backend, CreateSandboxRequest, Sandbox, SandboxStatus, SandboxView, Timestamp,
    SHORT_ID_LEN,
};
use crate::state::{ManagerState, RegistryView};
use crate::text::{char_prefix, join};

verus! {

/// How long a display is given to come up before a session is started on it,
/// in milliseconds.
pub const DISPLAY_SETTLE_MILLIS: u64 = 500;

/// `c` is a digit or a lower-case letter from `a` to `f`.
pub open spec fn is_lower_hex(c: char) -> bool {
    ('0' <= c && c <= '9') || ('a' <= c && c <= 'f')
}

/// `s` has the form of a random identifier: 36 characters, hyphens as the
/// 9th, 14th, 19th and 24th, lower-case hexadecimal digits elsewhere, and `4`
/// as the 15th.
pub open spec fn is_id_text(s: Seq<char>) -> bool {
    &&& s.len() == 36
    &&& forall|i: int|
        0 <= i < 36 ==> if i == 8 || i == 13 || i == 18 || i == 23 {
            #[trigger] s[i] == '-'
        } else {
            is_lower_hex(s[i])
        }
    &&& s[14] == '4'
}

/// A new random identifier. Calls `Uuid::new_v4` of the uuid crate and prints
/// the result with its `Display`, which writes the hyphenated lower-case form
/// of a version 4 identifier. The value is random: only its form is claimed.
/// The outside function panics where the host cannot supply random bytes.
#[verifier::external_body]
fn fresh_id() -> (r: String)
    ensures
        is_id_text(r@),
{
    uuid::Uuid::new_v4().to_string()
}

/// The current time. Calls `Utc::now` of the chrono crate and reads the result
/// with `timestamp` and `timestamp_subsec_nanos`. The value depends on the
/// clock: all that is claimed is that the nanoseconds stay below one second,
/// as the outside function takes them from the part of a duration that lies
/// below one second. It panics where the clock stands before the Unix epoch.
#[verifier::external_body]
fn now() -> (r: Timestamp)
    ensures
        r.nanos < 1_000_000_000,
{
    let t = chrono::Utc::now();
    Timestamp { secs: t.timestamp(), nanos: t.timestamp_subsec_nanos() }
}

/// The name of the session of the sandbox with id `id`.
pub open spec fn session_name_text(id: Seq<char>) -> Seq<char> {
    "sandbox-"@ + short_id_of(id)
}

/// The programs that start a workload, one for each backend, and the
/// directory in which the control sockets of virtual machines lie. They belong
/// to the installation, so the caller supplies them.
#[derive(Debug)]
pub struct Launchers {
    pub bubblewrap: String,
    pub container: String,
    pub vm: String,
    pub socket_dir: String,
}

/// The mathematical value of [`Launchers`].
pub struct LaunchersView {
    pub bubblewrap: Seq<char>,
    pub container: Seq<char>,
    pub vm: Seq<char>,
    pub socket_dir: Seq<char>,
}

impl View for Launchers {
    type V = LaunchersView;

    open spec fn view(&self) -> LaunchersView {
        LaunchersView {
            bubblewrap: self.bubblewrap@,
            container: self.container@,
            vm: self.vm@,
            socket_dir: self.socket_dir@,
        }
    }
}

impl LaunchersView {
    /// The program that starts the workload of `backend`.
    pub open spec fn program(self, backend: Backend) -> Seq<char> {
        match backend {
            Backend::Bubblewrap => self.bubblewrap,
            Backend::Container => self.container,
            Backend::Vm => self.vm,
        }
    }

    /// The command that starts the workload of `backend` on `project_dir`: the
    /// program, a space, and the directory.
    pub open spec fn command(self, backend: Backend, project_dir: Seq<char>) -> Seq<char> {
        self.program(backend) + " "@ + project_dir
    }

    /// The path of the control socket of the virtual machine of the sandbox
    /// with id `id`.
    pub open spec fn socket_path(self, id: Seq<char>) -> Seq<char> {
        self.socket_dir + "/qmp-"@ + short_id_of(id) + ".sock"@
    }

    /// The control socket of a sandbox: a virtual machine has one, named after
    /// the id; the other backends have none.
    pub open spec fn control_socket(self, backend: Backend, id: Seq<char>) -> Option<Seq<char>> {
        if backend == Backend::Vm {
            Some(self.socket_path(id))
        } else {
            None
        }
    }
}

/// The name of the session of the sandbox with id `id`.
pub fn session_name(id: &str) -> (r: String)
    ensures
        r@ == session_name_text(id@),
{
    let short = char_prefix(id, SHORT_ID_LEN);
    join("sandbox-", short.as_str())
}

impl Launchers {
    /// The path of the control socket of the virtual machine of the sandbox
    /// with id `id`.
    pub fn control_socket_path(&self, id: &str) -> (r: String)
        ensures
            r@ == self@.socket_path(id@),
    {
        let short = char_prefix(id, SHORT_ID_LEN);
        let head = join(self.socket_dir.as_str(), "/qmp-");
        let named = join(head.as_str(), short.as_str());
        let r = join(named.as_str(), ".sock");
        assert(r@ =~= self@.socket_path(id@));
        r
    }

    /// The command that starts the workload of `backend` on `project_dir`.
    pub fn launch_command(&self, backend: Backend, project_dir: &str) -> (r: String)
        ensures
            r@ == self@.command(backend, project_dir@),
    {
        let program = match backend {
            Backend::Bubblewrap => self.bubblewrap.as_str(),
            Backend::Container => self.container.as_str(),
            Backend::Vm => self.vm.as_str(),
        };
        let head = join(program, " ");
        join(head.as_str(), project_dir)
    }
}

/// What is to be torn down when a sandbox stops.
#[derive(Debug)]
pub struct StopPlan {
    /// The session to terminate, if the record names one.
    pub kill_session: Option<String>,
    /// The process of the display to stop, if one was started.
    pub stop_display: Option<u32>,
    /// The id under which a cached screenshot is to be dropped.
    pub drop_screenshot: String,
}

/// The mathematical value of a [`StopPlan`].
pub struct StopPlanView {
    pub kill_session: Option<Seq<char>>,
    pub stop_display: Option<u32>,
    pub drop_screenshot: Seq<char>,
}

impl View for StopPlan {
    type V = StopPlanView;

    open spec fn view(&self) -> StopPlanView {
        StopPlanView {
            kill_session: crate::record::text_view(self.kill_session),
            stop_display: self.stop_display,
            drop_screenshot: self.drop_screenshot@,
        }
    }
}

/// What stopping the sandbox of record `r` tears down: its session, the
/// process of its display, and its cached screenshot.
pub open spec fn teardown_of(r: SandboxView) -> StopPlanView {
    StopPlanView { kill_session: r.tmux_session, stop_display: r.pid_xvfb, drop_screenshot: r.id }
}

/// The view of an optional plan.
pub open spec fn plan_view(plan: Option<StopPlan>) -> Option<StopPlanView> {
    match plan {
        Some(p) => Some(p@),
        None => None,
    }
}

/// The registry `v` after the record with id `id` was stopped: that record is
/// `Stopped`, and nothing else has changed.
pub open spec fn stopped(v: RegistryView, id: Seq<char>) -> RegistryView {
    RegistryView {
        sandboxes: v.sandboxes.insert(id, v.sandboxes[id].with_status(SandboxStatus::Stopped)),
        next_display: v.next_display,
    }
}

/// The registry `v` after the record with id `id` was deleted.
pub open spec fn deleted(v: RegistryView, id: Seq<char>) -> RegistryView {
    RegistryView { sandboxes: v.sandboxes.remove(id), next_display: v.next_display }
}

fn teardown(prev: Sandbox) -> (r: StopPlan)
    ensures
        r@ == teardown_of(prev@),
{
    StopPlan { kill_session: prev.tmux_session, stop_display: prev.pid_xvfb, drop_screenshot: prev.id }
}

/// Stops the sandbox with id `id`. An unknown id is refused with `NotFound`
/// and nothing changes. Otherwise the record is `Stopped` from now on, whatever
/// it was before, and the plan says what the caller has to tear down: the
/// session and the display of the record as it stood, and the cached
/// screenshot. The caller does so without regard to failures, and writes the
/// snapshot.
pub fn stop_sandbox(state: &mut ManagerState, id: &str) -> (r: Result<StopPlan, ManagerError>)
    requires
        old(state).wf(),
    ensures
        final(state).wf(),
        match r {
            Ok(plan) => {
                &&& old(state)@.sandboxes.contains_key(id@)
                &&& plan@ == teardown_of(old(state)@.sandboxes[id@])
                &&& final(state)@ == stopped(old(state)@, id@)
            },
            Err(e) => {
                &&& e@ == ManagerErrorView::NotFound
                &&& !old(state)@.sandboxes.contains_key(id@)
                &&& final(state)@ == old(state)@
            },
        },
{
    match state.mark_stopped(id) {
        Some(prev) => {
            proof {
                assert(old(state)@.consistent());
                assert(prev@.id == id@);
            }
            Ok(teardown(prev))
        },
        None => Err(ManagerError::NotFound),
    }
}

/// Deletes the sandbox with id `id`. An unknown id is refused with `NotFound`
/// and nothing changes. Otherwise the record leaves the registry. Where it was
/// `Running` it is stopped first: the plan then says what the caller has to
/// tear down, as for a stop. A record that was not `Running` needs no plan.
pub fn delete_sandbox(state: &mut ManagerState, id: &str) -> (r: Result<
    Option<StopPlan>,
    ManagerError,
>)
    requires
        old(state).wf(),
    ensures
        final(state).wf(),
        match r {
            Ok(plan) => {
                &&& old(state)@.sandboxes.contains_key(id@)
                &&& plan_view(plan) == if old(state)@.sandboxes[id@].running() {
                    Some(teardown_of(old(state)@.sandboxes[id@]))
                } else {
                    None
                }
                &&& final(state)@ == deleted(old(state)@, id@)
                &&& !final(state)@.sandboxes.contains_key(id@)
            },
            Err(e) => {
                &&& e@ == ManagerErrorView::NotFound
                &&& !old(state)@.sandboxes.contains_key(id@)
                &&& final(state)@ == old(state)@
            },
        },
{
    match state.remove(id) {
        Some(prev) => {
            if prev.is_running() {
                Ok(Some(teardown(prev)))
            } else {
                Ok(None)
            }
        },
        None => Err(ManagerError::NotFound),
    }
}

/// Stopping is idempotent: a second stop of the same sandbox is not refused
/// and leaves the registry as the first stop left it, with the record
/// `Stopped`.
pub proof fn lemma_stop_idempotent(v: RegistryView, id: Seq<char>)
    requires
        v.sandboxes.contains_key(id),
    ensures
        stopped(v, id).sandboxes.contains_key(id),
        stopped(v, id).sandboxes[id].status == SandboxStatus::Stopped,
        stopped(stopped(v, id), id) == stopped(v, id),
{
    assert(stopped(stopped(v, id), id).sandboxes =~= stopped(v, id).sandboxes);
}

/// Where the creation of a sandbox stands, with what it has gathered so far.
#[derive(Debug)]
pub enum CreatePhase {
    /// Waiting for a display number from the registry.
    ReservingDisplay,
    /// Waiting for the display with this number to start.
    StartingDisplay { display_num: u32 },
    /// The display runs as process `pid_xvfb`; waiting for it to settle.
    Settling { display_num: u32, pid_xvfb: u32 },
    /// Waiting for the session to start.
    StartingSession { display: Option<u32>, display_pid: Option<u32> },
    /// The session runs; waiting for the registry to take the record.
    Registering { sandbox: Sandbox },
    /// The sandbox was created.
    Done,
    /// The creation was given up.
    Failed,
}

/// The mathematical value of a [`CreatePhase`].
pub enum CreatePhaseView {
    ReservingDisplay,
    StartingDisplay { display_num: u32 },
    Settling { display_num: u32, pid_xvfb: u32 },
    StartingSession { display: Option<u32>, display_pid: Option<u32> },
    Registering { sandbox: SandboxView },
    Done,
    Failed,
}

impl View for CreatePhase {
    type V = CreatePhaseView;

    open spec fn view(&self) -> CreatePhaseView {
        match self {
            CreatePhase::ReservingDisplay => CreatePhaseView::ReservingDisplay,
            CreatePhase::StartingDisplay { display_num } => CreatePhaseView::StartingDisplay {
                display_num: *display_num,
            },
            CreatePhase::Settling { display_num, pid_xvfb } => CreatePhaseView::Settling {
                display_num: *display_num,
                pid_xvfb: *pid_xvfb,
            },
            CreatePhase::StartingSession {
                display,
                display_pid,
            } => CreatePhaseView::StartingSession {
                display: *display,
                display_pid: *display_pid,
            },
            CreatePhase::Registering { sandbox } => CreatePhaseView::Registering {
                sandbox: sandbox@,
            },
            CreatePhase::Done => CreatePhaseView::Done,
            CreatePhase::Failed => CreatePhaseView::Failed,
        }
    }
}

/// A creation under way: what was asked for, the id of the sandbox to be, the
/// command that starts its workload, its control socket if it is to have one,
/// and how far the creation has come.
#[derive(Debug)]
pub struct Creation {
    pub request: CreateSandboxRequest,
    pub id: String,
    pub command: String,
    pub control_socket: Option<String>,
    pub phase: CreatePhase,
}

/// The mathematical value of a [`Creation`].
pub struct CreationView {
    pub name: Seq<char>,
    pub backend: Backend,
    pub project_dir: Seq<char>,
    pub network: bool,
    pub id: Seq<char>,
    pub command: Seq<char>,
    pub control_socket: Option<Seq<char>>,
    pub phase: CreatePhaseView,
}

impl View for Creation {
    type V = CreationView;

    open spec fn view(&self) -> CreationView {
        CreationView {
            name: self.request.name@,
            backend: self.request.backend,
            project_dir: self.request.project_dir@,
            network: self.request.network,
            id: self.id@,
            command: self.command@,
            control_socket: crate::record::text_view(self.control_socket),
            phase: self.phase@,
        }
    }
}

/// What the caller reports back after it has done what it was told.
#[derive(Debug)]
pub enum CreateEvent {
    /// What the registry answered when asked for a display number.
    Reserved { display: Result<u32, ManagerError> },
    /// The display runs, as the process with this id.
    DisplayStarted { pid: u32 },
    /// The display did not start.
    DisplayFailed { reason: String },
    /// The time to settle has passed.
    Settled,
    /// The session runs.
    SessionStarted,
    /// The session did not start.
    SessionFailed { reason: String },
    /// What the registry answered when given the record.
    Registered { outcome: Result<(), ManagerError> },
}

/// The mathematical value of a [`CreateEvent`].
pub enum CreateEventView {
    Reserved { display: Result<u32, ManagerErrorView> },
    DisplayStarted { pid: u32 },
    DisplayFailed { reason: Seq<char> },
    Settled,
    SessionStarted,
    SessionFailed { reason: Seq<char> },
    Registered { outcome: Result<(), ManagerErrorView> },
}

impl View for CreateEvent {
    type V = CreateEventView;

    open spec fn view(&self) -> CreateEventView {
        match self {
            CreateEvent::Reserved { display } => CreateEventView::Reserved {
                display: match display {
                    Ok(num) => Ok(*num),
                    Err(e) => Err(e@),
                },
            },
            CreateEvent::DisplayStarted { pid } => CreateEventView::DisplayStarted { pid: *pid },
            CreateEvent::DisplayFailed { reason } => CreateEventView::DisplayFailed {
                reason: reason@,
            },
            CreateEvent::Settled => CreateEventView::Settled,
            CreateEvent::SessionStarted => CreateEventView::SessionStarted,
            CreateEvent::SessionFailed { reason } => CreateEventView::SessionFailed {
                reason: reason@,
            },
            CreateEvent::Registered { outcome } => CreateEventView::Registered {
                outcome: match outcome {
                    Ok(()) => Ok(()),
                    Err(e) => Err(e@),
                },
            },
        }
    }
}

/// What the caller is to do next.
#[derive(Debug)]
pub enum CreateAction {
    /// Ask the registry for a display number, and report `Reserved`.
    ReserveDisplay,
    /// Start a display with this number, and report `DisplayStarted` or
    /// `DisplayFailed`.
    StartDisplay { display_num: u32 },
    /// Wait this many milliseconds, and report `Settled`.
    Settle { millis: u64 },
    /// Start a session of this name that runs `command` in `working_dir`, on
    /// the display if there is one, and report `SessionStarted` or
    /// `SessionFailed`.
    StartSession { session_name: String, display: Option<u32>, command: String, working_dir: String },
    /// Hand the record to the registry, write the snapshot, and report
    /// `Registered`.
    Register { sandbox: Sandbox },
    /// The sandbox was created: this is its record.
    Finish { sandbox: Sandbox },
    /// The creation was given up for this reason. Nothing that was started is
    /// stopped again.
    Fail { error: ManagerError },
}

/// The mathematical value of a [`CreateAction`].
pub enum CreateActionView {
    ReserveDisplay,
    StartDisplay { display_num: u32 },
    Settle { millis: u64 },
    StartSession {
        session_name: Seq<char>,
        display: Option<u32>,
        command: Seq<char>,
        working_dir: Seq<char>,
    },
    Register { sandbox: SandboxView },
    Finish { sandbox: SandboxView },
    Fail { error: ManagerErrorView },
}

impl View for CreateAction {
    type V = CreateActionView;

    open spec fn view(&self) -> CreateActionView {
        match self {
            CreateAction::ReserveDisplay => CreateActionView::ReserveDisplay,
            CreateAction::StartDisplay { display_num } => CreateActionView::StartDisplay {
                display_num: *display_num,
            },
            CreateAction::Settle { millis } => CreateActionView::Settle { millis: *millis },
            CreateAction::StartSession {
                session_name,
                display,
                command,
                working_dir,
            } => CreateActionView::StartSession {
                session_name: session_name@,
                display: *display,
                command: command@,
                working_dir: working_dir@,
            },
            CreateAction::Register { sandbox } => CreateActionView::Register { sandbox: sandbox@ },
            CreateAction::Finish { sandbox } => CreateActionView::Finish { sandbox: sandbox@ },
            CreateAction::Fail { error } => CreateActionView::Fail { error: error@ },
        }
    }
}

impl CreationView {
    /// The same creation in another phase.
    pub open spec fn at(self, phase: CreatePhaseView) -> CreationView {
        CreationView { phase, ..self }
    }

    /// The order to start the session of this creation on the given display.
    pub open spec fn start_session(self, display: Option<u32>) -> CreateActionView {
        CreateActionView::StartSession {
            session_name: session_name_text(self.id),
            display,
            command: self.command,
            working_dir: self.project_dir,
        }
    }

    /// The record of the sandbox that this creation has brought about: it is
    /// `Running`, carries what was asked for, the display that was started for
    /// it, the session named after its id, and the control socket of the
    /// creation.
    pub open spec fn record(
        self,
        display_num: Option<u32>,
        pid_xvfb: Option<u32>,
        created_at: Timestamp,
    ) -> SandboxView {
        SandboxView {
            id: self.id,
            name: self.name,
            backend: self.backend,
            project_dir: self.project_dir,
            status: SandboxStatus::Running,
            display_num,
            tmux_session: Some(session_name_text(self.id)),
            pid_xvfb,
            qemu_qmp_socket: self.control_socket,
            network: self.network,
            created_at,
        }
    }

    /// The first step of a creation: a backend that needs a display asks for a
    /// number; a virtual machine starts its session at once.
    pub open spec fn first(self) -> (CreationView, CreateActionView) {
        if self.backend.needs_display() {
            (self.at(CreatePhaseView::ReservingDisplay), CreateActionView::ReserveDisplay)
        } else {
            (
                self.at(CreatePhaseView::StartingSession { display: None, display_pid: None }),
                self.start_session(None),
            )
        }
    }

    /// The creation is given up with `error`.
    pub open spec fn fail(self, error: ManagerErrorView) -> (CreationView, CreateActionView) {
        (self.at(CreatePhaseView::Failed), CreateActionView::Fail { error })
    }

    /// The step that `event` brings about, where `created_at` is the time at
    /// which the step is taken. Each phase has the events that answer its
    /// order; any other event, and any event after the end, gives the creation
    /// up.
    pub open spec fn step(self, event: CreateEventView, created_at: Timestamp) -> (
        CreationView,
        CreateActionView,
    ) {
        match (self.phase, event) {
            (
                CreatePhaseView::ReservingDisplay,
                CreateEventView::Reserved { display: Ok(display_num) },
            ) => (
                self.at(CreatePhaseView::StartingDisplay { display_num }),
                CreateActionView::StartDisplay { display_num },
            ),
            (
                CreatePhaseView::ReservingDisplay,
                CreateEventView::Reserved { display: Err(error) },
            ) => self.fail(error),
            (
                CreatePhaseView::StartingDisplay { display_num },
                CreateEventView::DisplayStarted { pid },
            ) => (
                self.at(CreatePhaseView::Settling { display_num, pid_xvfb: pid }),
                CreateActionView::Settle { millis: DISPLAY_SETTLE_MILLIS },
            ),
            (
                CreatePhaseView::StartingDisplay { display_num },
                CreateEventView::DisplayFailed { reason },
            ) => self.fail(ManagerErrorView::DriverFailure("Failed to start Xvfb: "@ + reason)),
            (CreatePhaseView::Settling { display_num, pid_xvfb }, CreateEventView::Settled) => (
                self.at(
                    CreatePhaseView::StartingSession {
                        display: Some(display_num),
                        display_pid: Some(pid_xvfb),
                    },
                ),
                self.start_session(Some(display_num)),
            ),
            (
                CreatePhaseView::StartingSession { display, display_pid },
                CreateEventView::SessionStarted,
            ) => {
                let sandbox = self.record(display, display_pid, created_at);
                (
                    self.at(CreatePhaseView::Registering { sandbox }),
                    CreateActionView::Register { sandbox },
                )
            },
            (
                CreatePhaseView::StartingSession { display, display_pid },
                CreateEventView::SessionFailed { reason },
            ) => self.fail(
                ManagerErrorView::DriverFailure("Failed to create tmux session: "@ + reason),
            ),
            (
                CreatePhaseView::Registering { sandbox },
                CreateEventView::Registered { outcome: Ok(()) },
            ) => (self.at(CreatePhaseView::Done), CreateActionView::Finish { sandbox }),
            (
                CreatePhaseView::Registering { sandbox },
                CreateEventView::Registered { outcome: Err(error) },
            ) => self.fail(error),
            _ => self.fail(ManagerErrorView::DriverFailure("Unexpected event"@)),
        }
    }
}

impl Creation {
    fn moved_to(self, phase: CreatePhase) -> (r: Creation)
        ensures
            r@ == self@.at(phase@),
    {
        Creation {
            request: self.request,
            id: self.id,
            command: self.command,
            control_socket: self.control_socket,
            phase,
        }
    }

    fn start_session(&self, display: Option<u32>) -> (r: CreateAction)
        ensures
            r@ == self@.start_session(display),
    {
        CreateAction::StartSession {
            session_name: session_name(self.id.as_str()),
            display,
            command: self.command.clone(),
            working_dir: self.request.project_dir.clone(),
        }
    }

    fn record(&self, display_num: Option<u32>, pid_xvfb: Option<u32>, created_at: Timestamp) -> (r:
        Sandbox)
        ensures
            r@ == self@.record(display_num, pid_xvfb, created_at),
    {
        let qemu_qmp_socket = crate::record::copy_text(&self.control_socket);
        Sandbox {
            id: self.id.clone(),
            name: self.request.name.clone(),
            backend: self.request.backend,
            project_dir: self.request.project_dir.clone(),
            status: SandboxStatus::Running,
            display_num,
            tmux_session: Some(session_name(self.id.as_str())),
            pid_xvfb,
            qemu_qmp_socket,
            network: self.request.network,
            created_at,
        }
    }
}

fn give_up(creation: Creation, error: ManagerError) -> (r: (Creation, CreateAction))
    ensures
        (r.0@, r.1@) == creation@.fail(error@),
{
    (creation.moved_to(CreatePhase::Failed), CreateAction::Fail { error })
}

/// Starts the creation of a sandbox for `request` under the id `id`, with the
/// programs and the socket directory of `launchers`, and says what is to be
/// done first.
pub fn begin_create_as(request: CreateSandboxRequest, id: String, launchers: &Launchers) -> (r: (
    Creation,
    CreateAction,
))
    ensures
        r.0@.name == request.name@,
        r.0@.backend == request.backend,
        r.0@.project_dir == request.project_dir@,
        r.0@.network == request.network,
        r.0@.id == id@,
        r.0@.command == launchers@.command(request.backend, request.project_dir@),
        r.0@.control_socket == launchers@.control_socket(request.backend, id@),
        (r.0@, r.1@) == r.0@.first(),
{
    let command = launchers.launch_command(request.backend, request.project_dir.as_str());
    let control_socket = match request.backend {
        Backend::Vm => Some(launchers.control_socket_path(id.as_str())),
        _ => None,
    };
    if request.backend.requires_display() {
        (
            Creation { request, id, command, control_socket, phase: CreatePhase::ReservingDisplay },
            CreateAction::ReserveDisplay,
        )
    } else {
        let creation = Creation {
            request,
            id,
            command,
            control_socket,
            phase: CreatePhase::StartingSession { display: None, display_pid: None },
        };
        let action = creation.start_session(None);
        (creation, action)
    }
}

/// Starts the creation of a sandbox for `request` under a new random id, with
/// the programs and the socket directory of `launchers`, and says what is to
/// be done first.
pub fn begin_create(request: CreateSandboxRequest, launchers: &Launchers) -> (r: (
    Creation,
    CreateAction,
))
    ensures
        r.0@.name == request.name@,
        r.0@.backend == request.backend,
        r.0@.project_dir == request.project_dir@,
        r.0@.network == request.network,
        is_id_text(r.0@.id),
        r.0@.command == launchers@.command(request.backend, request.project_dir@),
        r.0@.control_socket == launchers@.control_socket(request.backend, r.0@.id),
        (r.0@, r.1@) == r.0@.first(),
{
    begin_create_as(request, fresh_id(), launchers)
}

/// Takes the creation one step further on `event`, where the step is taken at
/// the time `created_at`: the time that the record bears if this step builds
/// it.
pub fn create_sandbox_at(creation: Creation, event: CreateEvent, created_at: Timestamp) -> (r: (
    Creation,
    CreateAction,
))
    ensures
        (r.0@, r.1@) == creation@.step(event@, created_at),
{
    let Creation { request, id, command, control_socket, phase } = creation;
    match (phase, event) {
        (CreatePhase::ReservingDisplay, CreateEvent::Reserved { display: Ok(display_num) }) => (
            Creation {
                request,
                id,
                command,
                control_socket,
                phase: CreatePhase::StartingDisplay { display_num },
            },
            CreateAction::StartDisplay { display_num },
        ),
        (CreatePhase::ReservingDisplay, CreateEvent::Reserved { display: Err(error) }) => give_up(
            Creation { request, id, command, control_socket, phase: CreatePhase::ReservingDisplay },
            error,
        ),
        (CreatePhase::StartingDisplay { display_num }, CreateEvent::DisplayStarted { pid }) => (
            Creation {
                request,
                id,
                command,
                control_socket,
                phase: CreatePhase::Settling { display_num, pid_xvfb: pid },
            },
            CreateAction::Settle { millis: DISPLAY_SETTLE_MILLIS },
        ),
        (CreatePhase::StartingDisplay { display_num }, CreateEvent::DisplayFailed { reason }) => {
            let text = join("Failed to start Xvfb: ", reason.as_str());
            give_up(
                Creation {
                    request,
                    id,
                    command,
                    control_socket,
                    phase: CreatePhase::StartingDisplay { display_num },
                },
                ManagerError::DriverFailure(text),
            )
        },
        (CreatePhase::Settling { display_num, pid_xvfb }, CreateEvent::Settled) => {
            let next = Creation {
                request,
                id,
                command,
                control_socket,
                phase: CreatePhase::StartingSession {
                    display: Some(display_num),
                    display_pid: Some(pid_xvfb),
                },
            };
            let action = next.start_session(Some(display_num));
            (next, action)
        },
        (
            CreatePhase::StartingSession { display, display_pid },
            CreateEvent::SessionStarted,
        ) => {
            let current = Creation {
                request,
                id,
                command,
                control_socket,
                phase: CreatePhase::StartingSession { display, display_pid },
            };
            let sandbox = current.record(display, display_pid, created_at);
            let copy = sandbox.clone();
            (current.moved_to(CreatePhase::Registering { sandbox: copy }), CreateAction::Register {
                sandbox,
            })
        },
        (
            CreatePhase::StartingSession { display, display_pid },
            CreateEvent::SessionFailed { reason },
        ) => {
            let text = join("Failed to create tmux session: ", reason.as_str());
            give_up(
                Creation {
                    request,
                    id,
                    command,
                    control_socket,
                    phase: CreatePhase::StartingSession { display, display_pid },
                },
                ManagerError::DriverFailure(text),
            )
        },
        (CreatePhase::Registering { sandbox }, CreateEvent::Registered { outcome: Ok(()) }) => (
            Creation { request, id, command, control_socket, phase: CreatePhase::Done },
            CreateAction::Finish { sandbox },
        ),
        (
            CreatePhase::Registering { sandbox },
            CreateEvent::Registered { outcome: Err(error) },
        ) => give_up(
            Creation {
                request,
                id,
                command,
                control_socket,
                phase: CreatePhase::Registering { sandbox },
            },
            error,
        ),
        (phase, _) => give_up(
            Creation { request, id, command, control_socket, phase },
            ManagerError::DriverFailure(String::from_str("Unexpected event")),
        ),
    }
}

/// Takes the creation one step further on `event`. The step is the one that
/// [`create_sandbox_at`] takes at some time; where the step builds the record,
/// that time is read from the clock.
pub fn create_sandbox(creation: Creation, event: CreateEvent) -> (r: (Creation, CreateAction))
    ensures
        exists|created_at: Timestamp| (r.0@, r.1@) == #[trigger] creation@.step(event@, created_at),
{
    let builds_record = match (&creation.phase, &event) {
        (CreatePhase::StartingSession { .. }, CreateEvent::SessionStarted) => true,
        _ => false,
    };
    let created_at = if builds_record {
        now()
    } else {
        Timestamp { secs: 0, nanos: 0 }
    };
    create_sandbox_at(creation, event, created_at)
}

/// A creation on a display goes through its steps in order: it asks for a
/// display number, starts the display, lets it settle, starts the session on
/// it, and hands over a record that is `Running` and carries the display and
/// its process. Once the registry has taken the record, the creation is done
/// with that record.
pub proof fn lemma_create_on_display(c: CreationView, num: u32, pid: u32, at: Timestamp)
    requires
        c.backend.needs_display(),
    ensures
        ({
            let (c0, a0) = c.first();
            let (c1, a1) = c0.step(CreateEventView::Reserved { display: Ok(num) }, at);
            let (c2, a2) = c1.step(CreateEventView::DisplayStarted { pid }, at);
            let (c3, a3) = c2.step(CreateEventView::Settled, at);
            let (c4, a4) = c3.step(CreateEventView::SessionStarted, at);
            let (c5, a5) = c4.step(CreateEventView::Registered { outcome: Ok(()) }, at);
            let sandbox = c.record(Some(num), Some(pid), at);
            &&& a0 == CreateActionView::ReserveDisplay
            &&& a1 == CreateActionView::StartDisplay { display_num: num }
            &&& a2 == CreateActionView::Settle { millis: DISPLAY_SETTLE_MILLIS }
            &&& a3 == c.start_session(Some(num))
            &&& a4 == CreateActionView::Register { sandbox }
            &&& a5 == CreateActionView::Finish { sandbox }
            &&& c5.phase == CreatePhaseView::Done
            &&& sandbox.running()
            &&& sandbox.id == c.id
        }),
{
}

/// The creation of a virtual machine takes no display: it starts the session
/// at once and hands over a record that is `Running` and has neither display
/// nor display process.
pub proof fn lemma_create_without_display(c: CreationView, at: Timestamp)
    requires
        !c.backend.needs_display(),
    ensures
        ({
            let (c0, a0) = c.first();
            let (c1, a1) = c0.step(CreateEventView::SessionStarted, at);
            let (c2, a2) = c1.step(CreateEventView::Registered { outcome: Ok(()) }, at);
            let sandbox = c.record(None, None, at);
            &&& a0 == c.start_session(None)
            &&& a1 == CreateActionView::Register { sandbox }
            &&& a2 == CreateActionView::Finish { sandbox }
            &&& c2.phase == CreatePhaseView::Done
            &&& sandbox.running()
            &&& sandbox.display_num is None
        }),
{
}

/// A record is handed over only by the step that follows the start of the
/// session, and every record handed over is `Running`.
pub proof fn lemma_created_running(c: CreationView, event: CreateEventView, at: Timestamp)
    ensures
        c.step(event, at).1 matches CreateActionView::Register { sandbox } ==> {
            &&& sandbox.running()
            &&& sandbox.id == c.id
            &&& c.phase is StartingSession
            &&& event is SessionStarted
        },
{
}

/// A creation that has ended stays ended: after `Done` or `Failed` every
/// event is answered with a failure.
pub proof fn lemma_create_ends(c: CreationView, event: CreateEventView, at: Timestamp)
    requires
        c.phase is Done || c.phase is Failed,
    ensures
        c.step(event, at).0.phase is Failed,
        c.step(event, at).1 is Fail,
{
}

} // verus!
