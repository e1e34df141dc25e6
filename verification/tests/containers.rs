use bctop::container::{
    find_by_id, is_well_formed, remove_by_id, upsert, Container, ContainerStatus,
};
use bctop::lifecycle::{plan_pause, plan_stop, PausePlan, StopPlan, STOP_GRACE_SECONDS};
use bctop::refresh::{
    build_container, container_name, cpu_usage, label_value, ContainerSummary, Label,
    RefreshError, StatsSample,
};
use bctop::session::enter_tty;

fn record(id: &str, name: &str) -> Container {
    Container {
        id: id.to_string(),
        status: ContainerStatus::Running,
        name: name.to_string(),
        image: "img".to_string(),
        cpu_usage: 0,
        memory_usage_bytes: 0,
        memory_limit_bytes: 0,
        swarm_service: None,
        swarm_stack: None,
        compose_service: None,
        compose_project: None,
    }
}

fn ids(list: &Vec<Container>) -> Vec<String> {
    list.iter().map(|c| c.id.clone()).collect()
}

fn sample() -> StatsSample {
    StatsSample {
        cpu_total: 300,
        precpu_total: 100,
        system_cpu: Some(2000),
        presystem_cpu: Some(1000),
        online_cpus: Some(4),
        memory_usage: Some(1024),
        memory_limit: Some(4096),
    }
}

fn summary() -> ContainerSummary {
    ContainerSummary {
        id: Some("abc".to_string()),
        names: Some(vec!["/web".to_string(), "/alias".to_string()]),
        image: Some("nginx".to_string()),
        state: Some("paused".to_string()),
        labels: Some(vec![
            Label { key: "com.docker.compose.service".to_string(), value: "web".to_string() },
            Label { key: "com.docker.compose.project".to_string(), value: "shop".to_string() },
        ]),
    }
}

#[test]
fn status_words() {
    assert_eq!(ContainerStatus::from("created".to_string()), ContainerStatus::Created);
    assert_eq!(ContainerStatus::from("running".to_string()), ContainerStatus::Running);
    assert_eq!(ContainerStatus::from("paused".to_string()), ContainerStatus::Paused);
    assert_eq!(ContainerStatus::from("stopped".to_string()), ContainerStatus::Stopped);
    assert_eq!(ContainerStatus::from("restarting".to_string()), ContainerStatus::Restarting);
    assert_eq!(ContainerStatus::from("removing".to_string()), ContainerStatus::Removing);
    assert_eq!(ContainerStatus::from("exited".to_string()), ContainerStatus::Exited);
    assert_eq!(ContainerStatus::from("dead".to_string()), ContainerStatus::Dead);
}

#[test]
fn unknown_status_word_counts_as_running() {
    assert_eq!(ContainerStatus::from("frozen".to_string()), ContainerStatus::Running);
    assert_eq!(ContainerStatus::from("".to_string()), ContainerStatus::Running);
    assert_eq!(ContainerStatus::from("Dead".to_string()), ContainerStatus::Running);
    assert_eq!(ContainerStatus::parse("dead "), ContainerStatus::Running);
    assert_eq!(ContainerStatus::parse("exited"), ContainerStatus::Exited);
}

#[test]
fn upsert_keeps_the_list_sorted_by_name() {
    let mut list = Vec::new();
    upsert(&mut list, record("1", "delta"));
    upsert(&mut list, record("2", "alpha"));
    upsert(&mut list, record("3", "charlie"));
    upsert(&mut list, record("4", "bravo"));
    assert_eq!(ids(&list), vec!["2", "4", "3", "1"]);
}

#[test]
fn upsert_replaces_the_record_of_the_same_id() {
    let mut list = Vec::new();
    upsert(&mut list, record("1", "alpha"));
    upsert(&mut list, record("2", "bravo"));
    upsert(&mut list, record("1", "zulu"));
    assert_eq!(ids(&list), vec!["2", "1"]);
    assert_eq!(list[1].name, "zulu");
    assert_eq!(list.len(), 2);
}

#[test]
fn upsert_puts_equal_names_behind_each_other() {
    let mut list = Vec::new();
    upsert(&mut list, record("1", "same"));
    upsert(&mut list, record("2", "same"));
    upsert(&mut list, record("3", "same"));
    assert_eq!(ids(&list), vec!["1", "2", "3"]);
    upsert(&mut list, record("1", "same"));
    assert_eq!(ids(&list), vec!["2", "3", "1"]);
}

#[test]
fn names_are_ordered_by_code_point() {
    let mut list = Vec::new();
    upsert(&mut list, record("1", "b"));
    upsert(&mut list, record("2", "B"));
    upsert(&mut list, record("3", "ab"));
    upsert(&mut list, record("4", "a"));
    upsert(&mut list, record("5", ""));
    upsert(&mut list, record("6", "é"));
    assert_eq!(ids(&list), vec!["5", "2", "4", "3", "1", "6"]);
}

#[test]
fn remove_takes_out_only_the_given_id() {
    let mut list = Vec::new();
    upsert(&mut list, record("1", "alpha"));
    upsert(&mut list, record("2", "bravo"));
    upsert(&mut list, record("3", "charlie"));
    remove_by_id(&mut list, "2");
    assert_eq!(ids(&list), vec!["1", "3"]);
    remove_by_id(&mut list, "9");
    assert_eq!(ids(&list), vec!["1", "3"]);
    remove_by_id(&mut list, "1");
    remove_by_id(&mut list, "3");
    assert!(list.is_empty());
    remove_by_id(&mut list, "3");
    assert!(list.is_empty());
}

#[test]
fn find_by_id_gives_the_place_or_the_length() {
    let mut list = Vec::new();
    upsert(&mut list, record("x", "alpha"));
    upsert(&mut list, record("y", "bravo"));
    assert_eq!(find_by_id(&list, "x"), 0);
    assert_eq!(find_by_id(&list, "y"), 1);
    assert_eq!(find_by_id(&list, "z"), 2);
    assert_eq!(find_by_id(&Vec::new(), "x"), 0);
}

#[test]
fn cpu_share_is_container_ticks_over_system_ticks_times_cpus() {
    // 200 of 1000 ticks on 4 processors: 80.00 %
    assert_eq!(cpu_usage(300, 100, 2000, 1000, 4), 8000);
    // 1 of 3 ticks on one processor: 33.33 %
    assert_eq!(cpu_usage(1, 0, 3, 0, 1), 3333);
    assert_eq!(cpu_usage(2, 0, 3, 0, 1), 6666);
    assert_eq!(cpu_usage(500, 0, 1000, 0, 1), 5000);
    assert_eq!(cpu_usage(500, 0, 1000, 0, 0), 0);
}

#[test]
fn cpu_share_is_zero_when_the_system_counter_did_not_advance() {
    assert_eq!(cpu_usage(300, 100, 1000, 1000, 4), 0);
    assert_eq!(cpu_usage(300, 100, 999, 1000, 4), 0);
    assert_eq!(cpu_usage(u64::MAX, 0, 0, u64::MAX, u64::MAX), 0);
    assert_eq!(cpu_usage(0, 0, 0, 0, 0), 0);
}

#[test]
fn cpu_share_is_zero_when_the_container_counter_went_back() {
    assert_eq!(cpu_usage(100, 300, 2000, 1000, 4), 0);
}

#[test]
fn cpu_share_stops_at_the_largest_value() {
    assert_eq!(cpu_usage(u64::MAX, 0, 1, 0, u64::MAX), u64::MAX);
    assert_eq!(cpu_usage(u64::MAX, 0, 1, 0, 1), u64::MAX);
    assert_eq!(cpu_usage(u64::MAX, 0, 10000, 0, 1), u64::MAX);
    assert_eq!(cpu_usage(u64::MAX, 0, 10001, 0, 1), 18444899583751176497);
    assert_eq!(cpu_usage(u64::MAX, 0, u64::MAX, 0, u64::MAX), u64::MAX);
    assert_eq!(cpu_usage(u64::MAX, 0, u64::MAX, 0, 1), 10000);
}

#[test]
fn name_loses_one_leading_separator() {
    assert_eq!(container_name("/web"), "web");
    assert_eq!(container_name("web"), "web");
    assert_eq!(container_name("//web"), "/web");
    assert_eq!(container_name("/a/b"), "a/b");
    assert_eq!(container_name("/"), "");
    assert_eq!(container_name(""), "");
    assert_eq!(container_name("/été"), "été");
}

#[test]
fn label_lookup() {
    let labels = vec![
        Label { key: "a".to_string(), value: "1".to_string() },
        Label { key: "b".to_string(), value: "2".to_string() },
        Label { key: "a".to_string(), value: "3".to_string() },
    ];
    assert_eq!(label_value(&labels, "a"), Some("1".to_string()));
    assert_eq!(label_value(&labels, "b"), Some("2".to_string()));
    assert_eq!(label_value(&labels, "c"), None);
    assert_eq!(label_value(&Vec::new(), "a"), None);
}

#[test]
fn record_from_listing_and_sample() {
    let c = build_container(summary(), &sample()).unwrap();
    assert_eq!(c.id, "abc");
    assert_eq!(c.name, "web");
    assert_eq!(c.image, "nginx");
    assert_eq!(c.status, ContainerStatus::Paused);
    assert_eq!(c.cpu_usage, 8000);
    assert_eq!(c.memory_usage_bytes, 1024);
    assert_eq!(c.memory_limit_bytes, 4096);
    assert_eq!(c.swarm_service, None);
    assert_eq!(c.swarm_stack, None);
    assert_eq!(c.compose_service, Some("web".to_string()));
    assert_eq!(c.compose_project, Some("shop".to_string()));
}

#[test]
fn record_with_swarm_labels() {
    let mut s = summary();
    s.labels = Some(vec![
        Label { key: "com.docker.swarm.service.name".to_string(), value: "shop_web".to_string() },
        Label { key: "com.docker.stack.namespace".to_string(), value: "shop".to_string() },
    ]);
    let c = build_container(s, &sample()).unwrap();
    assert_eq!(c.swarm_service, Some("shop_web".to_string()));
    assert_eq!(c.swarm_stack, Some("shop".to_string()));
    assert_eq!(c.compose_service, None);
    assert_eq!(c.compose_project, None);
}

#[test]
fn record_without_labels_state_or_cpu_count() {
    let mut s = summary();
    s.labels = None;
    s.state = None;
    let mut stats = sample();
    stats.online_cpus = None;
    let c = build_container(s, &stats).unwrap();
    assert_eq!(c.status, ContainerStatus::Running);
    assert_eq!(c.cpu_usage, 2000);
    assert_eq!(c.swarm_service, None);
    assert_eq!(c.swarm_stack, None);
    assert_eq!(c.compose_service, None);
    assert_eq!(c.compose_project, None);
}

#[test]
fn record_needs_every_field() {
    let mut s = summary();
    s.id = None;
    assert_eq!(build_container(s, &sample()).err(), Some(RefreshError::MissingId));

    let mut stats = sample();
    stats.system_cpu = None;
    assert_eq!(build_container(summary(), &stats).err(), Some(RefreshError::MissingCpuStats));
    let mut stats = sample();
    stats.presystem_cpu = None;
    assert_eq!(build_container(summary(), &stats).err(), Some(RefreshError::MissingCpuStats));

    let mut stats = sample();
    stats.memory_usage = None;
    assert_eq!(build_container(summary(), &stats).err(), Some(RefreshError::MissingMemoryStats));
    let mut stats = sample();
    stats.memory_limit = None;
    assert_eq!(build_container(summary(), &stats).err(), Some(RefreshError::MissingMemoryStats));

    let mut s = summary();
    s.names = None;
    assert_eq!(build_container(s, &sample()).err(), Some(RefreshError::MissingName));
    let mut s = summary();
    s.names = Some(Vec::new());
    assert_eq!(build_container(s, &sample()).err(), Some(RefreshError::MissingName));

    let mut s = summary();
    s.image = None;
    assert_eq!(build_container(s, &sample()).err(), Some(RefreshError::MissingImage));
}

#[test]
fn the_first_missing_field_is_reported() {
    let s = ContainerSummary { id: None, names: None, image: None, state: None, labels: None };
    let stats = StatsSample {
        cpu_total: 0,
        precpu_total: 0,
        system_cpu: None,
        presystem_cpu: None,
        online_cpus: None,
        memory_usage: None,
        memory_limit: None,
    };
    assert_eq!(build_container(s, &stats).err(), Some(RefreshError::MissingId));
    let s = ContainerSummary {
        id: Some("a".to_string()),
        names: None,
        image: None,
        state: None,
        labels: None,
    };
    assert_eq!(build_container(s, &stats).err(), Some(RefreshError::MissingCpuStats));
    let s = ContainerSummary {
        id: Some("a".to_string()),
        names: None,
        image: None,
        state: None,
        labels: None,
    };
    let mut stats = sample();
    stats.memory_limit = None;
    assert_eq!(build_container(s, &stats).err(), Some(RefreshError::MissingMemoryStats));
    let s = ContainerSummary {
        id: Some("a".to_string()),
        names: None,
        image: None,
        state: None,
        labels: None,
    };
    assert_eq!(build_container(s, &sample()).err(), Some(RefreshError::MissingName));
}

#[test]
fn stop_plans() {
    assert_eq!(plan_stop(Some(ContainerStatus::Running)), StopPlan::Stop { grace_seconds: 10 });
    assert_eq!(STOP_GRACE_SECONDS, 10);
    assert_eq!(plan_stop(Some(ContainerStatus::Exited)), StopPlan::Remove);
    assert_eq!(plan_stop(Some(ContainerStatus::Created)), StopPlan::Remove);
    assert_eq!(plan_stop(Some(ContainerStatus::Paused)), StopPlan::Skip);
    assert_eq!(plan_stop(Some(ContainerStatus::Stopped)), StopPlan::Skip);
    assert_eq!(plan_stop(Some(ContainerStatus::Restarting)), StopPlan::Skip);
    assert_eq!(plan_stop(Some(ContainerStatus::Removing)), StopPlan::Skip);
    assert_eq!(plan_stop(Some(ContainerStatus::Dead)), StopPlan::Skip);
    assert_eq!(plan_stop(None), StopPlan::Skip);
}

#[test]
fn pause_plans() {
    assert_eq!(plan_pause(Some(ContainerStatus::Running)), PausePlan::Pause);
    assert_eq!(plan_pause(Some(ContainerStatus::Paused)), PausePlan::Unpause);
    assert_eq!(plan_pause(Some(ContainerStatus::Created)), PausePlan::Skip);
    assert_eq!(plan_pause(Some(ContainerStatus::Exited)), PausePlan::Skip);
    assert_eq!(plan_pause(Some(ContainerStatus::Dead)), PausePlan::Skip);
    assert_eq!(plan_pause(None), PausePlan::Skip);
}

#[test]
fn shell_request() {
    let r = enter_tty("abc".to_string());
    assert_eq!(r.container_id, "abc");
    assert!(r.attach_stdin && r.attach_stdout && r.attach_stderr && r.tty);
    assert_eq!(r.cmd, vec!["/bin/sh".to_string()]);
}

#[test]
fn well_formed_lists_are_sorted_with_one_record_for_each_id() {
    assert!(is_well_formed(&Vec::new()));
    assert!(is_well_formed(&vec![record("1", "a")]));
    assert!(is_well_formed(&vec![record("1", "a"), record("2", "a"), record("3", "b")]));
    assert!(!is_well_formed(&vec![record("1", "b"), record("2", "a")]));
    assert!(!is_well_formed(&vec![record("1", "a"), record("2", "c"), record("3", "b")]));
    assert!(!is_well_formed(&vec![record("1", "a"), record("2", "b"), record("1", "c")]));
    assert!(!is_well_formed(&vec![record("1", "a"), record("1", "a")]));
    let mut list = Vec::new();
    for (id, name) in [("3", "m"), ("1", "z"), ("2", "a"), ("3", "b"), ("4", "m")] {
        upsert(&mut list, record(id, name));
        assert!(is_well_formed(&list));
    }
    remove_by_id(&mut list, "1");
    assert!(is_well_formed(&list));
}
