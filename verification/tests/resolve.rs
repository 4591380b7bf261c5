use cpx::config::{ConfigInfo, FileInfo, PathInfo, ScriptInfo, TagInfo};
use cpx::errors::CpxError;

fn entry(name: &str, rel: &str) -> (String, FileInfo) {
    (name.to_string(), FileInfo { relative_path: rel.to_string() })
}

fn tag(name: &str, files: Option<Vec<&str>>) -> (String, TagInfo) {
    (
        name.to_string(),
        TagInfo {
            file_list: files.map(|fs| fs.into_iter().map(|f| f.to_string()).collect()),
            script_list: None,
        },
    )
}

fn sample_config() -> ConfigInfo {
    ConfigInfo {
        path_list: vec![
            ("a".to_string(), PathInfo { path: "/src".to_string() }),
            ("b".to_string(), PathInfo { path: "/dst".to_string() }),
        ],
        tag_list: vec![
            tag("tagA", Some(vec!["x", "y"])),
            tag("tagB", Some(vec!["y", "z"])),
            tag("scripts_only", None),
        ],
        file_list: vec![
            entry("x", "conf/x.conf"),
            entry("y", "conf/y.conf"),
            entry("z", "conf/z.conf"),
            entry("x_alias", "conf/x.conf"),
        ],
        script_list: vec![(
            "s1".to_string(),
            ScriptInfo { from: "here".to_string(), to: "there".to_string() },
        )],
    }
}

fn names(v: Vec<&str>) -> Option<Vec<String>> {
    Some(v.into_iter().map(|s| s.to_string()).collect())
}

fn paths_of(r: Result<Vec<FileInfo>, CpxError>) -> Vec<String> {
    r.expect("resolution should succeed").into_iter().map(|f| f.relative_path).collect()
}

#[test]
fn empty_selection_resolves_to_nothing() {
    let cfg = sample_config();
    let r = cfg.calculate_file_list(None, None);
    assert_eq!(paths_of(r), Vec::<String>::new());
}

#[test]
fn tag_selection_resolves_to_its_files() {
    let cfg = sample_config();
    let r = cfg.calculate_file_list(names(vec!["tagA"]), None);
    assert_eq!(paths_of(r), vec!["conf/x.conf".to_string(), "conf/y.conf".to_string()]);
}

#[test]
fn unknown_tag_is_tolerated_silently() {
    let cfg = sample_config();
    let r = cfg.calculate_file_list(names(vec!["unknownTag"]), None);
    assert_eq!(paths_of(r), Vec::<String>::new());
}

#[test]
fn tag_without_file_list_contributes_nothing() {
    let cfg = sample_config();
    let r = cfg.calculate_file_list(names(vec!["scripts_only", "tagA"]), None);
    assert_eq!(paths_of(r), vec!["conf/x.conf".to_string(), "conf/y.conf".to_string()]);
}

#[test]
fn unknown_file_is_a_lookup_failure() {
    let cfg = sample_config();
    let r = cfg.calculate_file_list(None, names(vec!["unknownFile"]));
    match r {
        Err(e) => {
            assert!(e.is_config_lookup_failure());
            assert_eq!(e.failed_name().map(|s| s.as_str()), Some("unknownFile"));
        }
        Ok(_) => panic!("an unknown file name must fail resolution"),
    }
}

#[test]
fn unknown_file_via_tag_is_a_lookup_failure() {
    let cfg = ConfigInfo {
        path_list: vec![],
        tag_list: vec![tag("broken", Some(vec!["ghost"]))],
        file_list: vec![],
        script_list: vec![],
    };
    let r = cfg.calculate_file_list(Some(vec!["broken".to_string()]), None);
    match r {
        Err(e) => assert_eq!(e.failed_name().map(|s| s.as_str()), Some("ghost")),
        Ok(_) => panic!("a tag naming an unknown file must fail resolution"),
    }
}

#[test]
fn overlapping_tags_and_files_are_deduplicated() {
    let cfg = sample_config();
    let r = cfg.calculate_file_list(names(vec!["tagA", "tagB"]), names(vec!["x", "z"]));
    let got = paths_of(r);
    assert_eq!(
        got,
        vec!["conf/x.conf".to_string(), "conf/y.conf".to_string(), "conf/z.conf".to_string()]
    );
    for i in 0..got.len() {
        for j in 0..got.len() {
            if i != j {
                assert_ne!(got[i], got[j]);
            }
        }
    }
}

#[test]
fn two_names_for_one_path_give_one_operation() {
    let cfg = sample_config();
    let r = cfg.calculate_file_list(None, names(vec!["x", "x_alias"]));
    assert_eq!(paths_of(r), vec!["conf/x.conf".to_string()]);
}

#[test]
fn lookups_find_first_match() {
    let mut cfg = sample_config();
    cfg.file_list.push(entry("x", "conf/shadowed.conf"));
    assert_eq!(
        cfg.lookup_file(&"x".to_string()).map(|f| f.relative_path.as_str()),
        Some("conf/x.conf")
    );
    assert_eq!(cfg.lookup_file(&"nope".to_string()).map(|f| f.relative_path.as_str()), None);
    assert_eq!(cfg.lookup_location(&"a".to_string()).map(|p| p.path.as_str()), Some("/src"));
    assert_eq!(cfg.lookup_location(&"c".to_string()).map(|p| p.path.as_str()), None);
    assert!(cfg.lookup_tag(&"tagA".to_string()).is_some());
    assert!(cfg.lookup_tag(&"tagZ".to_string()).is_none());
}

#[test]
fn explicit_files_follow_tag_files() {
    let cfg = sample_config();
    let r = cfg.calculate_file_list(names(vec!["tagB"]), names(vec!["x"]));
    assert_eq!(
        paths_of(r),
        vec!["conf/y.conf".to_string(), "conf/z.conf".to_string(), "conf/x.conf".to_string()]
    );
}
