//! Provisioning jobs for machines: what a job is called, what it is labelled
//! with, and in which order the cluster is asked before a job is spawned.

use crate::text::same_str;
use vstd::prelude::*;
use vstd::string::*;

verus! {

/// The text in snake case.
pub uninterp spec fn snake_case(text: Seq<char>) -> Seq<char>;

/// Calls `inflector::cases::snakecase::to_snake_case`. Trusted: the result
/// depends on the text alone.
#[verifier::external_body]
fn to_snake_case(text: &str) -> (r: String)
    ensures
        r@ == snake_case(text@),
{
    inflector::cases::snakecase::to_snake_case(text)
}

/// The label of the name of the machine.
pub const LABEL_BOX_NAME: &'static str = "kiss.netai-cloud/box_name";

/// The label of the primary address of the machine.
pub const LABEL_BOX_ACCESS_PRIMARY_ADDRESS: &'static str =
    "kiss.netai-cloud/box_access_primary_address";

/// The label of the speed of the primary address of the machine.
pub const LABEL_BOX_ACCESS_PRIMART_SPEED_MBPS: &'static str =
    "kiss.netai-cloud/box_access_primary_speed_mbps";

/// The label of the identifier of the machine.
pub const LABEL_BOX_MACHINE_UUID: &'static str = "kiss.netai-cloud/box_machine_uuid";

/// The label of the state that a job takes the machine to when it is over.
pub const LABEL_COMPLETED_STATE: &'static str = "kiss.netai-cloud/completed_state";

/// The label of the cluster of the machine.
pub const LABEL_GROUP_CLUSTER_NAME: &'static str = "kiss.netai-cloud/group_cluster_name";

/// The label of the role of the machine.
pub const LABEL_GROUP_ROLE: &'static str = "kiss.netai-cloud/group_role";

/// What a machine does in its cluster.
#[derive(Clone, Copy, Debug, PartialEq, Eq, Structural)]
pub enum BoxGroupRole {
    ControlPlane,
    Worker,
}

/// How far a machine has come.
#[derive(Clone, Copy, Debug, PartialEq, Eq, Structural)]
pub enum BoxState {
    New,
    Commissioning,
    Ready,
    Joining,
    Running,
    GroupChanged,
    Failed,
    Disconnected,
    Missing,
}

/// What the cluster is asked before a job is spawned.
#[derive(Clone, Copy, Debug, PartialEq, Eq, Structural)]
pub enum ClusterCheck {
    /// Take the lock of the cluster.
    Lock,
    /// Give the lock of the cluster back.
    Release,
    /// Ask whether a control plane is ready.
    ControlPlaneReady,
}

/// What spawning a job does next.
#[derive(Clone, Copy, Debug, PartialEq, Eq, Structural)]
pub enum SpawnStep {
    /// Delete the scheduled jobs of the machine.
    DeleteCronJobs,
    /// Delete the jobs of the machine.
    DeleteJobs,
    /// Load the state of the cluster.
    LoadState,
    /// Ask the cluster; the number says which of the questions is due.
    Check(usize),
    /// Create the job as a scheduled one.
    CreateCronJob,
    /// Create the job.
    CreateJob,
    /// Done; the job was spawned or was not.
    Finish(bool),
}

/// What spawning reads of a job.
#[derive(Clone, Copy, Debug, PartialEq, Eq, Structural)]
pub struct JobFacts {
    /// The role of the machine in its group.
    pub role: BoxGroupRole,
    /// The state that the job takes the machine to.
    pub new_state: BoxState,
    /// Whether the job runs on a schedule.
    pub scheduled: bool,
}

/// Whether a state has to do with the membership of the cluster.
pub open spec fn touches_cluster(state: BoxState) -> bool {
    state == BoxState::Joining || state == BoxState::Disconnected
}

/// What the cluster is asked for a job, in this order; every answer must be
/// yes. A control plane takes the lock to join or leave, and gives it back
/// otherwise. A worker joins only where a control plane is ready, and joins
/// or leaves only where the lock is free.
pub open spec fn cluster_checks(role: BoxGroupRole, new_state: BoxState) -> Seq<ClusterCheck> {
    match role {
        BoxGroupRole::ControlPlane => if touches_cluster(new_state) {
            seq![ClusterCheck::Lock]
        } else {
            seq![ClusterCheck::Release]
        },
        BoxGroupRole::Worker => if new_state == BoxState::Joining {
            seq![ClusterCheck::ControlPlaneReady, ClusterCheck::Release]
        } else if new_state == BoxState::Disconnected {
            seq![ClusterCheck::Release]
        } else {
            seq![]
        },
    }
}

/// The step that creates the job.
pub open spec fn create_step(facts: JobFacts) -> SpawnStep {
    if facts.scheduled {
        SpawnStep::CreateCronJob
    } else {
        SpawnStep::CreateJob
    }
}

/// The step that is due once `asked` questions were answered with yes.
pub open spec fn step_after_checks(facts: JobFacts, asked: int) -> SpawnStep {
    if asked < cluster_checks(facts.role, facts.new_state).len() {
        SpawnStep::Check(asked as usize)
    } else {
        create_step(facts)
    }
}

/// The step after a step that went through; `yes` is the answer of the
/// cluster where the step was a question. The old jobs go first, then the
/// state of the cluster is loaded, then the cluster is asked, and the first
/// no ends it all; the job is created last.
pub open spec fn spawn_next_step(facts: JobFacts, step: SpawnStep, yes: bool) -> SpawnStep {
    match step {
        SpawnStep::DeleteCronJobs => SpawnStep::DeleteJobs,
        SpawnStep::DeleteJobs => SpawnStep::LoadState,
        SpawnStep::LoadState => step_after_checks(facts, 0),
        SpawnStep::Check(i) => if yes {
            step_after_checks(facts, i + 1)
        } else {
            SpawnStep::Finish(false)
        },
        SpawnStep::CreateCronJob => SpawnStep::Finish(true),
        SpawnStep::CreateJob => SpawnStep::Finish(true),
        SpawnStep::Finish(spawned) => SpawnStep::Finish(spawned),
    }
}

/// What the cluster is asked for a job.
pub fn cluster_checks_of(role: BoxGroupRole, new_state: BoxState) -> (checks: Vec<ClusterCheck>)
    ensures
        checks@ == cluster_checks(role, new_state),
{
    let mut checks: Vec<ClusterCheck> = Vec::new();
    let joining = match new_state {
        BoxState::Joining => true,
        _ => false,
    };
    let leaving = match new_state {
        BoxState::Disconnected => true,
        _ => false,
    };
    match role {
        BoxGroupRole::ControlPlane => {
            if joining || leaving {
                checks.push(ClusterCheck::Lock);
            } else {
                checks.push(ClusterCheck::Release);
            }
        },
        BoxGroupRole::Worker => {
            if joining {
                checks.push(ClusterCheck::ControlPlaneReady);
            }
            if joining || leaving {
                checks.push(ClusterCheck::Release);
            }
        },
    }
    assert(checks@ =~= cluster_checks(role, new_state));
    checks
}

/// The first step of spawning a job.
pub fn spawn_begin() -> (step: SpawnStep)
    ensures
        step == SpawnStep::DeleteCronJobs,
{
    SpawnStep::DeleteCronJobs
}

/// The step after a step that went through.
pub fn spawn_advance(facts: JobFacts, step: SpawnStep, yes: bool) -> (next: SpawnStep)
    ensures
        next == spawn_next_step(facts, step, yes),
{
    let asked: usize = match step {
        SpawnStep::DeleteCronJobs => {
            return SpawnStep::DeleteJobs;
        },
        SpawnStep::DeleteJobs => {
            return SpawnStep::LoadState;
        },
        SpawnStep::LoadState => 0,
        SpawnStep::Check(i) => {
            if !yes {
                return SpawnStep::Finish(false);
            }
            if i == usize::MAX {
                // More questions than can be counted are not asked.
                usize::MAX
            } else {
                i + 1
            }
        },
        SpawnStep::CreateCronJob => {
            return SpawnStep::Finish(true);
        },
        SpawnStep::CreateJob => {
            return SpawnStep::Finish(true);
        },
        SpawnStep::Finish(spawned) => {
            return SpawnStep::Finish(spawned);
        },
    };
    let checks = cluster_checks_of(facts.role, facts.new_state);
    if asked < checks.len() {
        SpawnStep::Check(asked)
    } else if facts.scheduled {
        SpawnStep::CreateCronJob
    } else {
        SpawnStep::CreateJob
    }
}

impl BoxGroupRole {
    /// The name of the role.
    pub fn name(&self) -> (name: &'static str)
        ensures
            name@ == role_name(*self),
    {
        match self {
            BoxGroupRole::ControlPlane => "ControlPlane",
            BoxGroupRole::Worker => "Worker",
        }
    }
}

/// The name of a role.
pub open spec fn role_name(role: BoxGroupRole) -> Seq<char> {
    match role {
        BoxGroupRole::ControlPlane => "ControlPlane"@,
        BoxGroupRole::Worker => "Worker"@,
    }
}

/// The name of a state.
pub open spec fn state_name(state: BoxState) -> Seq<char> {
    match state {
        BoxState::New => "New"@,
        BoxState::Commissioning => "Commissioning"@,
        BoxState::Ready => "Ready"@,
        BoxState::Joining => "Joining"@,
        BoxState::Running => "Running"@,
        BoxState::GroupChanged => "GroupChanged"@,
        BoxState::Failed => "Failed"@,
        BoxState::Disconnected => "Disconnected"@,
        BoxState::Missing => "Missing"@,
    }
}

impl BoxState {
    /// The name of the state.
    pub fn name(&self) -> (name: &'static str)
        ensures
            name@ == state_name(*self),
    {
        match self {
            BoxState::New => "New",
            BoxState::Commissioning => "Commissioning",
            BoxState::Ready => "Ready",
            BoxState::Joining => "Joining",
            BoxState::Running => "Running",
            BoxState::GroupChanged => "GroupChanged",
            BoxState::Failed => "Failed",
            BoxState::Disconnected => "Disconnected",
            BoxState::Missing => "Missing",
        }
    }
}

/// The name of the job of a task on a machine.
pub open spec fn job_name_of(task: Seq<char>, box_name: Seq<char>) -> Seq<char> {
    "box-"@ + task + "-"@ + box_name
}

/// The name of the job of a task on a machine.
pub fn job_name(task: &str, box_name: &str) -> (name: String)
    ensures
        name@ == job_name_of(task@, box_name@),
{
    let mut name = "box-".to_owned();
    name.append(task);
    name.append("-");
    name.append(box_name);
    name
}

/// The selector of everything that carries the name of a machine.
pub open spec fn box_selector_of(box_name: Seq<char>) -> Seq<char> {
    LABEL_BOX_NAME@ + "="@ + box_name
}

/// The selector of everything that carries the name of a machine.
pub fn box_selector(box_name: &str) -> (selector: String)
    ensures
        selector@ == box_selector_of(box_name@),
{
    let mut selector = LABEL_BOX_NAME.to_owned();
    selector.append("=");
    selector.append(box_name);
    selector
}

/// The playbook of a role.
pub open spec fn playbook_of(role: BoxGroupRole) -> Seq<char> {
    "/opt/playbook/playbook-"@ + snake_case(role_name(role)) + ".yaml"@
}

/// The playbook of a role.
pub fn playbook(role: BoxGroupRole) -> (path: String)
    ensures
        path@ == playbook_of(role),
{
    let mut path = "/opt/playbook/playbook-".to_owned();
    let snake = to_snake_case(role.name());
    path.append(snake.as_str());
    path.append(".yaml");
    path
}

/// The name of a cluster in snake case.
pub fn cluster_name_snake_case(cluster_name: &str) -> (name: String)
    ensures
        name@ == snake_case(cluster_name@),
{
    to_snake_case(cluster_name)
}

/// The group of a machine: the cluster it belongs to, and what it does there.
#[derive(Debug, PartialEq, Eq)]
pub struct BoxGroup {
    pub cluster_name: String,
    pub role: BoxGroupRole,
}

/// A group as a mathematical value.
pub ghost struct BoxGroupView {
    pub cluster_name: Seq<char>,
    pub role: BoxGroupRole,
}

impl View for BoxGroup {
    type V = BoxGroupView;

    open spec fn view(&self) -> BoxGroupView {
        BoxGroupView { cluster_name: self.cluster_name@, role: self.role }
    }
}

/// An optional group as a mathematical value.
pub open spec fn group_view(group: Option<&BoxGroup>) -> Option<BoxGroupView> {
    match group {
        Some(group) => Some(group@),
        None => None,
    }
}

/// The group that a job works in: the group that the machine is bound to,
/// or, where it is bound to none, the group that it is meant for.
pub fn effective_group<'a>(bound: Option<&'a BoxGroup>, wanted: &'a BoxGroup) -> (group:
    &'a BoxGroup)
    ensures
        group@ == match bound {
            Some(bound) => bound@,
            None => wanted@,
        },
{
    match bound {
        Some(bound) => bound,
        None => wanted,
    }
}

/// Whether a job resets the machine: where that is forced, or where the
/// machine is not bound to the group that it is meant for.
pub fn needs_reset(force: bool, bound: Option<&BoxGroup>, wanted: &BoxGroup) -> (reset: bool)
    ensures
        reset == (force || group_view(bound) != Some(wanted@)),
{
    if force {
        return true;
    }
    match bound {
        None => true,
        Some(bound) => {
            let same_role = match (bound.role, wanted.role) {
                (BoxGroupRole::ControlPlane, BoxGroupRole::ControlPlane) => true,
                (BoxGroupRole::Worker, BoxGroupRole::Worker) => true,
                _ => false,
            };
            !(same_role && same_str(
                bound.cluster_name.as_str(),
                wanted.cluster_name.as_str(),
            ))
        },
    }
}

/// A label: its key and its value.
#[derive(Debug, PartialEq, Eq)]
pub struct Label {
    pub key: String,
    pub value: String,
}

impl View for Label {
    type V = (Seq<char>, Seq<char>);

    open spec fn view(&self) -> (Seq<char>, Seq<char>) {
        (self.key@, self.value@)
    }
}

/// A list of labels as a mathematical value.
pub open spec fn labels_view(labels: Seq<Label>) -> Seq<(Seq<char>, Seq<char>)> {
    labels.map_values(|l: Label| l@)
}

/// What the labels of a job are made of.
pub struct LabelFacts {
    pub box_name: String,
    pub primary_address: Option<String>,
    pub primary_speed_mbps: Option<String>,
    pub machine_uuid: String,
    pub completed_state: Option<BoxState>,
    pub cluster_name: String,
    pub role: BoxGroupRole,
}

/// One label where there is a value for it, none where there is not.
pub open spec fn optional_label(key: Seq<char>, value: Option<String>) -> Seq<
    (Seq<char>, Seq<char>),
> {
    match value {
        Some(value) => seq![(key, value@)],
        None => seq![],
    }
}

/// The labels of a job, in their order. The labels of the primary address,
/// of its speed and of the state that the job completes are there only
/// where the job knows them.
pub open spec fn job_labels_of(facts: LabelFacts) -> Seq<(Seq<char>, Seq<char>)> {
    seq![(LABEL_BOX_NAME@, facts.box_name@)] + optional_label(
        LABEL_BOX_ACCESS_PRIMARY_ADDRESS@,
        facts.primary_address,
    ) + optional_label(LABEL_BOX_ACCESS_PRIMART_SPEED_MBPS@, facts.primary_speed_mbps) + seq![
        (LABEL_BOX_MACHINE_UUID@, facts.machine_uuid@),
        ("serviceType"@, "ansible-task"@),
    ] + (match facts.completed_state {
        Some(state) => seq![(LABEL_COMPLETED_STATE@, state_name(state))],
        None => seq![],
    }) + seq![
        (LABEL_GROUP_CLUSTER_NAME@, facts.cluster_name@),
        (LABEL_GROUP_ROLE@, role_name(facts.role)),
    ]
}

/// Appends a label.
fn push_label(labels: &mut Vec<Label>, key: &str, value: &str)
    ensures
        labels_view(final(labels)@) == labels_view(old(labels)@).push((key@, value@)),
{
    labels.push(Label { key: key.to_owned(), value: value.to_owned() });
    assert(labels_view(labels@) =~= labels_view(old(labels)@).push((key@, value@)));
}

/// The labels of a job.
pub fn job_labels(facts: &LabelFacts) -> (labels: Vec<Label>)
    ensures
        labels_view(labels@) == job_labels_of(*facts),
{
    let mut labels: Vec<Label> = Vec::new();
    assert(labels_view(labels@) =~= Seq::empty());
    push_label(&mut labels, LABEL_BOX_NAME, facts.box_name.as_str());
    match &facts.primary_address {
        Some(address) => {
            push_label(&mut labels, LABEL_BOX_ACCESS_PRIMARY_ADDRESS, address.as_str());
        },
        None => {},
    }
    match &facts.primary_speed_mbps {
        Some(speed) => {
            push_label(&mut labels, LABEL_BOX_ACCESS_PRIMART_SPEED_MBPS, speed.as_str());
        },
        None => {},
    }
    push_label(&mut labels, LABEL_BOX_MACHINE_UUID, facts.machine_uuid.as_str());
    push_label(&mut labels, "serviceType", "ansible-task");
    match &facts.completed_state {
        Some(state) => {
            push_label(&mut labels, LABEL_COMPLETED_STATE, state.name());
        },
        None => {},
    }
    push_label(&mut labels, LABEL_GROUP_CLUSTER_NAME, facts.cluster_name.as_str());
    push_label(&mut labels, LABEL_GROUP_ROLE, facts.role.name());
    assert(labels_view(labels@) =~= job_labels_of(*facts));
    labels
}

/// The verbosity of the log for a debug level given on the command line,
/// from nothing to three.
pub open spec fn log_level_of(debug: u8) -> Seq<char> {
    if debug == 0 {
        "WARN"@
    } else if debug == 1 {
        "INFO"@
    } else if debug == 2 {
        "DEBUG"@
    } else {
        "TRACE"@
    }
}

/// The verbosity of the log for a debug level given on the command line.
pub fn log_level(debug: u8) -> (level: &'static str)
    requires
        debug <= 3,
    ensures
        level@ == log_level_of(debug),
{
    match debug {
        0 => "WARN",
        1 => "INFO",
        2 => "DEBUG",
        _ => "TRACE",
    }
}

} // verus!
