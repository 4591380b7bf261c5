use cpx::config::{ConfigInfo, FileInfo, PathInfo, TagInfo};
use cpx::cpx::{CopyConfig, Cpx};
use cpx::errors::CpxError;
use cpx::plan::{failure_line, join_path, CopyPlan, Executor};
use cpx::request::parse_spec;

fn sample_config() -> ConfigInfo {
    ConfigInfo {
        path_list: vec![
            ("a".to_string(), PathInfo { path: "/src".to_string() }),
            ("b".to_string(), PathInfo { path: "/dst".to_string() }),
        ],
        tag_list: vec![(
            "t1".to_string(),
            TagInfo { file_list: Some(vec!["f1".to_string()]), script_list: None },
        )],
        file_list: vec![
            ("f1".to_string(), FileInfo { relative_path: "docs/readme.md".to_string() }),
            ("f2".to_string(), FileInfo { relative_path: "docs/extra.md".to_string() }),
        ],
        script_list: vec![],
    }
}

fn options(from: &str, to: &str, dry_run: bool, verbose: u64) -> CopyConfig {
    CopyConfig {
        from: Some(from.to_string()),
        to: Some(to.to_string()),
        dry_run,
        create_dir: true,
        verbose,
    }
}

fn plan_of(cpx: &Cpx, tags: Option<Vec<&str>>) -> CopyPlan {
    let tags = tags.map(|v| v.into_iter().map(|s| s.to_string()).collect());
    cpx.execute(tags, None).expect("execution should yield a plan")
}

#[test]
fn end_to_end_tag_selection_plans_one_copy() {
    let cpx = Cpx::new(options("a", "b", false, 0), sample_config());
    let plan = plan_of(&cpx, Some(vec!["t1"]));
    assert_eq!(plan.ops.len(), 1);
    assert_eq!(plan.ops[0].src, "/src/docs/readme.md");
    assert_eq!(plan.ops[0].dst, "/dst/docs/readme.md");
    assert!(!plan.dry_run);
    assert_eq!(plan.report_lines(), Vec::<String>::new());
    let ex = Executor::new(plan);
    let op = ex.next_op().expect("a real run attempts the planned copy");
    assert_eq!(op.src, "/src/docs/readme.md");
    assert_eq!(op.dst, "/dst/docs/readme.md");
}

#[test]
fn src_and_dst_paths_resolve_from_locations() {
    let cpx = Cpx::new(options("a", "b", false, 0), sample_config());
    assert_eq!(cpx.src_path(), Some("/src".to_string()));
    assert_eq!(cpx.dst_path(), Some("/dst".to_string()));
}

#[test]
fn unknown_location_is_a_path_resolution_failure() {
    let cpx = Cpx::new(options("a", "nowhere", false, 0), sample_config());
    assert!(cpx.dst_path().is_none());
    match cpx.execute(None, Some(vec!["f1".to_string()])) {
        Err(CpxError::PathResolutionFailure) => {}
        _ => panic!("an unknown destination must fail path resolution"),
    }
}

#[test]
fn missing_spec_is_a_path_resolution_failure() {
    let mut opts = options("a", "b", false, 0);
    opts.from = None;
    opts.to = None;
    let cpx = Cpx::new(opts, sample_config());
    match cpx.execute(Some(vec!["t1".to_string()]), None) {
        Err(CpxError::PathResolutionFailure) => {}
        _ => panic!("absent endpoints must fail path resolution"),
    }
}

#[test]
fn lookup_failure_wins_over_path_failure() {
    let cpx = Cpx::new(options("a", "nowhere", false, 0), sample_config());
    match cpx.execute(None, Some(vec!["ghost".to_string()])) {
        Err(CpxError::ConfigLookupFailure(name)) => assert_eq!(name, "ghost"),
        _ => panic!("the file lookup must fail before endpoint resolution"),
    }
}

#[test]
fn dry_run_reports_and_plans_no_writes() {
    let cpx = Cpx::new(options("a", "b", true, 0), sample_config());
    let plan = plan_of(&cpx, Some(vec!["t1"]));
    assert_eq!(
        plan.report_lines(),
        vec!["Copy:\n/src/docs/readme.md\nto:\n/dst/docs/readme.md".to_string()]
    );
    let ex = Executor::new(plan);
    assert!(ex.next_op().is_none());
}

#[test]
fn dry_run_twice_reports_identically() {
    let cpx = Cpx::new(options("a", "b", true, 0), sample_config());
    let first = plan_of(&cpx, Some(vec!["t1"])).report_lines();
    let second = plan_of(&cpx, Some(vec!["t1"])).report_lines();
    assert_eq!(first, second);
}

#[test]
fn dry_run_report_matches_verbose_real_report() {
    let dry = Cpx::new(options("a", "b", true, 0), sample_config());
    let wet = Cpx::new(options("a", "b", false, 1), sample_config());
    let dry_plan = plan_of(&dry, Some(vec!["t1"]));
    let wet_plan = plan_of(&wet, Some(vec!["t1"]));
    assert_eq!(dry_plan.report_lines(), wet_plan.report_lines());
    assert!(Executor::new(dry_plan).next_op().is_none());
    assert!(Executor::new(wet_plan).next_op().is_some());
}

#[test]
fn quiet_real_run_reports_nothing() {
    let cpx = Cpx::new(options("a", "b", false, 0), sample_config());
    let plan = plan_of(&cpx, Some(vec!["t1"]));
    assert_eq!(plan.report_lines(), Vec::<String>::new());
}

#[test]
fn failed_copy_does_not_stop_the_remaining_ones() {
    let cpx = Cpx::new(options("a", "b", false, 0), sample_config());
    let plan = cpx
        .execute(None, Some(vec!["f1".to_string(), "f2".to_string()]))
        .expect("execution should yield a plan");
    assert_eq!(plan.ops.len(), 2);
    let mut ex = Executor::new(plan);
    let mut attempted = Vec::new();
    let mut failure_lines = Vec::new();
    while let Some(op) = ex.next_op() {
        attempted.push(op.src.clone());
        if op.src == "/src/docs/readme.md" {
            failure_lines.push(ex.record_failure(&"gone".to_string()));
        } else {
            ex.record_success();
        }
    }
    assert_eq!(
        attempted,
        vec!["/src/docs/readme.md".to_string(), "/src/docs/extra.md".to_string()]
    );
    assert_eq!(
        failure_lines,
        vec!["Copy:\n/src/docs/readme.md\nto:\n/dst/docs/readme.md\nfailed, gone".to_string()]
    );
    assert!(ex.degraded());
}

#[test]
fn clean_run_is_not_degraded() {
    let cpx = Cpx::new(options("a", "b", false, 0), sample_config());
    let plan = plan_of(&cpx, Some(vec!["t1"]));
    let mut ex = Executor::new(plan);
    while let Some(_op) = ex.next_op() {
        ex.record_success();
    }
    assert!(!ex.degraded());
}

#[test]
fn failure_line_carries_the_error_text() {
    let cpx = Cpx::new(options("a", "b", false, 0), sample_config());
    let plan = plan_of(&cpx, Some(vec!["t1"]));
    let line = failure_line(&plan.ops[0], &"No such file (os error 2)".to_string());
    assert_eq!(
        line,
        "Copy:\n/src/docs/readme.md\nto:\n/dst/docs/readme.md\nfailed, No such file (os error 2)"
    );
}

#[test]
fn join_path_inserts_a_separator_only_where_needed() {
    assert_eq!(join_path(&"/src".to_string(), &"d/f".to_string()), "/src/d/f");
    assert_eq!(join_path(&"/src/".to_string(), &"d/f".to_string()), "/src/d/f");
    assert_eq!(join_path(&"".to_string(), &"d/f".to_string()), "d/f");
}

#[test]
fn parse_spec_accepts_exactly_one_colon() {
    assert_eq!(
        parse_spec(&"a:b".to_string()),
        Some(("a".to_string(), "b".to_string()))
    );
    assert_eq!(parse_spec(&":".to_string()), Some((String::new(), String::new())));
    assert_eq!(parse_spec(&"ab".to_string()), None);
    assert_eq!(parse_spec(&"a:b:c".to_string()), None);
    assert_eq!(parse_spec(&"".to_string()), None);
}
