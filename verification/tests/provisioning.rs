use kubegraph::provision::{
    box_selector, cluster_checks_of, cluster_name_snake_case, effective_group, job_labels,
    job_name, log_level, needs_reset, playbook, spawn_advance, spawn_begin, BoxGroup,
    BoxGroupRole, BoxState, ClusterCheck, JobFacts, Label, LabelFacts, SpawnStep,
};

const STATES: [BoxState; 9] = [
    BoxState::New,
    BoxState::Commissioning,
    BoxState::Ready,
    BoxState::Joining,
    BoxState::Running,
    BoxState::GroupChanged,
    BoxState::Failed,
    BoxState::Disconnected,
    BoxState::Missing,
];

#[test]
fn the_cluster_is_asked_by_role_and_state() {
    for state in STATES {
        let control_plane = cluster_checks_of(BoxGroupRole::ControlPlane, state);
        let worker = cluster_checks_of(BoxGroupRole::Worker, state);
        match state {
            BoxState::Joining => {
                assert_eq!(control_plane, vec![ClusterCheck::Lock]);
                assert_eq!(
                    worker,
                    vec![ClusterCheck::ControlPlaneReady, ClusterCheck::Release]
                );
            }
            BoxState::Disconnected => {
                assert_eq!(control_plane, vec![ClusterCheck::Lock]);
                assert_eq!(worker, vec![ClusterCheck::Release]);
            }
            _ => {
                assert_eq!(control_plane, vec![ClusterCheck::Release]);
                assert_eq!(worker, vec![]);
            }
        }
    }
}

fn run(facts: JobFacts, answers: &[bool]) -> Vec<SpawnStep> {
    let mut steps = vec![spawn_begin()];
    let mut answers = answers.iter();
    loop {
        let step = *steps.last().unwrap();
        let yes = match step {
            SpawnStep::Finish(_) => return steps,
            SpawnStep::Check(_) => *answers.next().unwrap(),
            _ => true,
        };
        steps.push(spawn_advance(facts, step, yes));
    }
}

#[test]
fn a_job_is_spawned_step_by_step() {
    let worker_joins = JobFacts {
        role: BoxGroupRole::Worker,
        new_state: BoxState::Joining,
        scheduled: false,
    };
    assert_eq!(
        run(worker_joins, &[true, true]),
        vec![
            SpawnStep::DeleteCronJobs,
            SpawnStep::DeleteJobs,
            SpawnStep::LoadState,
            SpawnStep::Check(0),
            SpawnStep::Check(1),
            SpawnStep::CreateJob,
            SpawnStep::Finish(true),
        ]
    );
    assert_eq!(
        run(worker_joins, &[false]).last(),
        Some(&SpawnStep::Finish(false))
    );
    assert_eq!(
        run(worker_joins, &[true, false]),
        vec![
            SpawnStep::DeleteCronJobs,
            SpawnStep::DeleteJobs,
            SpawnStep::LoadState,
            SpawnStep::Check(0),
            SpawnStep::Check(1),
            SpawnStep::Finish(false),
        ]
    );
    let worker_runs = JobFacts {
        role: BoxGroupRole::Worker,
        new_state: BoxState::Running,
        scheduled: true,
    };
    assert_eq!(
        run(worker_runs, &[]),
        vec![
            SpawnStep::DeleteCronJobs,
            SpawnStep::DeleteJobs,
            SpawnStep::LoadState,
            SpawnStep::CreateCronJob,
            SpawnStep::Finish(true),
        ]
    );
    let control_plane = JobFacts {
        role: BoxGroupRole::ControlPlane,
        new_state: BoxState::Ready,
        scheduled: false,
    };
    assert_eq!(run(control_plane, &[true]).len(), 6);
    assert_eq!(
        spawn_advance(control_plane, SpawnStep::Finish(false), true),
        SpawnStep::Finish(false)
    );
    assert_eq!(
        spawn_advance(control_plane, SpawnStep::Check(usize::MAX), true),
        SpawnStep::CreateJob
    );
}

#[test]
fn jobs_and_playbooks_are_named_after_task_and_role() {
    assert_eq!(job_name("join", "0a1b"), "box-join-0a1b");
    assert_eq!(box_selector("0a1b"), "kiss.netai-cloud/box_name=0a1b");
    assert_eq!(
        playbook(BoxGroupRole::ControlPlane),
        "/opt/playbook/playbook-control_plane.yaml"
    );
    assert_eq!(
        playbook(BoxGroupRole::Worker),
        "/opt/playbook/playbook-worker.yaml"
    );
    assert_eq!(cluster_name_snake_case("MyCluster one"), "my_cluster_one");
    assert_eq!(cluster_name_snake_case("default"), "default");
    assert_eq!(BoxGroupRole::ControlPlane.name(), "ControlPlane");
    assert_eq!(BoxState::GroupChanged.name(), "GroupChanged");
}

fn group(cluster_name: &str, role: BoxGroupRole) -> BoxGroup {
    BoxGroup {
        cluster_name: cluster_name.to_string(),
        role,
    }
}

#[test]
fn a_machine_is_reset_when_it_changes_its_group() {
    let wanted = group("a", BoxGroupRole::Worker);
    assert!(needs_reset(false, None, &wanted));
    assert!(!needs_reset(false, Some(&group("a", BoxGroupRole::Worker)), &wanted));
    assert!(needs_reset(true, Some(&group("a", BoxGroupRole::Worker)), &wanted));
    assert!(needs_reset(false, Some(&group("b", BoxGroupRole::Worker)), &wanted));
    assert!(needs_reset(
        false,
        Some(&group("a", BoxGroupRole::ControlPlane)),
        &wanted
    ));
    let bound = group("b", BoxGroupRole::ControlPlane);
    assert_eq!(effective_group(Some(&bound), &wanted), &bound);
    assert_eq!(effective_group(None, &wanted), &wanted);
}

fn label(key: &str, value: &str) -> Label {
    Label {
        key: key.to_string(),
        value: value.to_string(),
    }
}

#[test]
fn labels_are_there_where_the_job_knows_them() {
    let mut facts = LabelFacts {
        box_name: "0a1b".to_string(),
        primary_address: None,
        primary_speed_mbps: None,
        machine_uuid: "0a1b".to_string(),
        completed_state: None,
        cluster_name: "default".to_string(),
        role: BoxGroupRole::Worker,
    };
    assert_eq!(
        job_labels(&facts),
        vec![
            label("kiss.netai-cloud/box_name", "0a1b"),
            label("kiss.netai-cloud/box_machine_uuid", "0a1b"),
            label("serviceType", "ansible-task"),
            label("kiss.netai-cloud/group_cluster_name", "default"),
            label("kiss.netai-cloud/group_role", "Worker"),
        ]
    );
    facts.primary_address = Some("10.0.0.1".to_string());
    facts.primary_speed_mbps = Some("1000".to_string());
    facts.completed_state = Some(BoxState::Running);
    facts.role = BoxGroupRole::ControlPlane;
    assert_eq!(
        job_labels(&facts),
        vec![
            label("kiss.netai-cloud/box_name", "0a1b"),
            label("kiss.netai-cloud/box_access_primary_address", "10.0.0.1"),
            label("kiss.netai-cloud/box_access_primary_speed_mbps", "1000"),
            label("kiss.netai-cloud/box_machine_uuid", "0a1b"),
            label("serviceType", "ansible-task"),
            label("kiss.netai-cloud/completed_state", "Running"),
            label("kiss.netai-cloud/group_cluster_name", "default"),
            label("kiss.netai-cloud/group_role", "ControlPlane"),
        ]
    );
}

#[test]
fn the_log_follows_the_debug_level() {
    assert_eq!(log_level(0), "WARN");
    assert_eq!(log_level(1), "INFO");
    assert_eq!(log_level(2), "DEBUG");
    assert_eq!(log_level(3), "TRACE");
}
