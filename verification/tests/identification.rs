use cmem_server::identification::{
    normalize_project_name, resolve_created, resolve_found, resolve_recorded, resolve_start,
    ResolveStep, SubmittedProjectInfo,
};

#[test]
fn normalize_basic() {
    assert_eq!(normalize_project_name("nginx-rce"), "nginx-rce");
    assert_eq!(normalize_project_name("Nginx RCE"), "nginx-rce");
    assert_eq!(normalize_project_name("55.ai/research"), "55-ai-research");
    assert_eq!(normalize_project_name("---foo___bar---"), "foo-bar");
    assert_eq!(normalize_project_name(""), "");
    assert_eq!(normalize_project_name("   "), "");
}

#[test]
fn normalize_unicode_keeps_alnum() {
    let n = normalize_project_name("研究 项目 nginx");
    assert!(n.contains("nginx"));
    assert!(n.contains("研究"));
}

#[test]
fn normalize_is_idempotent_on_examples() {
    for s in ["Nginx RCE", "55.ai/research", "---foo___bar---", "Research 2026"] {
        let once = normalize_project_name(s);
        assert_eq!(normalize_project_name(&once), once);
    }
    assert_eq!(normalize_project_name("Research 2026"), "research-2026");
}

fn info(marker: Option<&str>, name: Option<&str>, path: Option<&str>) -> SubmittedProjectInfo {
    SubmittedProjectInfo {
        marker_id: marker.map(str::to_string),
        name: name.map(str::to_string),
        path: path.map(str::to_string),
    }
}

fn done(step: &ResolveStep) -> Option<String> {
    match step {
        ResolveStep::Done(p) => p.clone(),
        other => panic!("not finished: {other:?}"),
    }
}

#[test]
fn no_marker_no_name_means_no_project() {
    assert_eq!(done(&resolve_start(&info(None, None, Some("/x")))), None);
    assert_eq!(done(&resolve_start(&info(Some("  "), Some("   "), None))), None);
    assert_eq!(done(&resolve_start(&info(None, Some("!!!"), None))), None);
}

#[test]
fn capitalization_merges_into_existing_project() {
    let s = info(None, Some("Nginx RCE"), Some("/home/alice/projects/nginx-rce"));
    let step = resolve_start(&s);
    match &step {
        ResolveStep::FindByName { name, marker } => {
            assert_eq!(name, "nginx-rce");
            assert!(marker.is_none());
        }
        other => panic!("unexpected {other:?}"),
    }
    let next = resolve_found(&s, &step, Some("p1".to_string()), "fresh");
    match &next {
        ResolveStep::RecordPath { project_id, marker } => {
            assert_eq!(project_id, "p1");
            assert!(marker.is_none());
        }
        other => panic!("unexpected {other:?}"),
    }
    assert_eq!(done(&resolve_recorded(&next)), Some("p1".to_string()));
}

#[test]
fn new_name_creates_project_under_fresh_id() {
    let s = info(None, Some("nginx-rce-v2"), None);
    let step = resolve_start(&s);
    let next = resolve_found(&s, &step, None, "fresh-id");
    match &next {
        ResolveStep::Create { id, name, marker } => {
            assert_eq!(id, "fresh-id");
            assert_eq!(name, "nginx-rce-v2");
            assert!(marker.is_none());
        }
        other => panic!("unexpected {other:?}"),
    }
    assert_eq!(done(&resolve_created(&s, &next)), Some("fresh-id".to_string()));
}

#[test]
fn known_marker_wins() {
    let s = info(Some(" m-123 "), Some("whatever"), None);
    let step = resolve_start(&s);
    match &step {
        ResolveStep::FindById { marker } => assert_eq!(marker, "m-123"),
        other => panic!("unexpected {other:?}"),
    }
    let next = resolve_found(&s, &step, Some("m-123".to_string()), "fresh");
    assert_eq!(done(&next), Some("m-123".to_string()));
}

#[test]
fn unknown_marker_creates_project_with_marker_id() {
    let s = info(Some("0190abcd-ffff"), Some("My Project"), Some("/p"));
    let step = resolve_start(&s);
    let next = resolve_found(&s, &step, None, "fresh");
    match &next {
        ResolveStep::FindByName { name, marker } => {
            assert_eq!(name, "my-project");
            assert_eq!(marker.as_deref(), Some("0190abcd-ffff"));
        }
        other => panic!("unexpected {other:?}"),
    }
    let create = resolve_found(&s, &next, None, "fresh");
    match &create {
        ResolveStep::Create { id, name, marker } => {
            assert_eq!(id, "0190abcd-ffff");
            assert_eq!(name, "my-project");
            assert_eq!(marker.as_deref(), Some("0190abcd-ffff"));
        }
        other => panic!("unexpected {other:?}"),
    }
    let link = resolve_created(&s, &create);
    assert!(matches!(link, ResolveStep::RecordPath { .. }));
    assert_eq!(done(&resolve_recorded(&link)), Some("0190abcd-ffff".to_string()));
}

#[test]
fn unknown_marker_with_unusable_name_uses_marker_prefix() {
    let s = info(Some("___________zz"), Some("!!!"), None);
    let step = resolve_start(&s);
    let next = resolve_found(&s, &step, None, "fresh");
    match &next {
        ResolveStep::FindByName { name, .. } => assert_eq!(name, "project-________"),
        other => panic!("unexpected {other:?}"),
    }
}

#[test]
fn normalized_names_have_the_fixed_form() {
    for raw in ["--A__b  c--", "x..y", " 研究/项目 ", "a-b", "¡¿", "\u{3000}\u{a0}\t"] {
        let r = normalize_project_name(raw);
        assert!(!r.starts_with('-') && !r.ends_with('-'), "{r}");
        assert!(!r.contains("--"), "{r}");
        assert!(r.chars().all(|c| c == '-' || c.is_alphanumeric()), "{r}");
    }
    assert_eq!(normalize_project_name("--A__b  c--"), "a-b-c");
    assert_eq!(normalize_project_name("\u{3000}\u{a0}\t"), "");
}

#[test]
fn a_name_of_unicode_spaces_gives_no_project() {
    let s = info(None, Some("\u{3000}\u{2009}"), Some("/p"));
    assert_eq!(done(&resolve_start(&s)), None);
}
