use cmem_server::admin::AdminObservationView;
use cmem_server::export::{
    attachment_disposition, audit_csv, gzip_bytes, observations_csv, user_archive,
    user_archive_filename, users_csv, zip_archive,
};
use cmem_server::rows::{AuditRow, ObservationRow, UserRow};
use cmem_server::sync::without_machines;
use cmem_server::text::int_text;

fn user() -> UserRow {
    UserRow {
        id: "u1".into(),
        username: "alice".into(),
        password_hash: "h".into(),
        email: Some("a@x.io".into()),
        is_admin: 1,
        is_active: 0,
        created_at: 1_700_000_000,
        last_login_at: None,
        registration_ip: Some("203.0.113.5".into()),
        last_login_ip: None,
    }
}

#[test]
fn users_csv_lines() {
    let bytes = users_csv(&[user()]).unwrap();
    let text = String::from_utf8(bytes).unwrap();
    let lines: Vec<&str> = text.lines().collect();
    assert_eq!(lines[0], "id,username,email,is_admin,is_active,created_at,last_login_at,registration_ip,last_login_ip");
    assert_eq!(lines[1], "u1,alice,a@x.io,1,0,1700000000,,203.0.113.5,");
    assert_eq!(lines.len(), 2);
}

#[test]
fn audit_csv_quotes_when_needed() {
    let a = AuditRow {
        id: -3,
        user_id: None,
        machine_id: Some("m,1".into()),
        action: "admin.export".into(),
        target_type: None,
        target_id: None,
        created_at: 5,
    };
    let text = String::from_utf8(audit_csv(&[a]).unwrap()).unwrap();
    assert_eq!(text.lines().nth(1), Some("-3,,\"m,1\",admin.export,,,5"));
}

#[test]
fn observations_csv_has_content_last() {
    let o = AdminObservationView {
        id: "o1".into(),
        user_id: "u1".into(),
        username: "alice".into(),
        machine_id: "m1".into(),
        project_id: None,
        project_name: None,
        timestamp: 1,
        project_path: None,
        content: "hello".into(),
        obs_type: Some("note".into()),
        server_seq: 9,
        server_received_at: 2,
        deleted_at: Some(3),
    };
    let text = String::from_utf8(observations_csv(&[o]).unwrap()).unwrap();
    assert!(text.lines().next().unwrap().ends_with(",deleted_at,content"));
    assert_eq!(text.lines().nth(1), Some("o1,u1,alice,m1,,,1,,note,9,2,3,hello"));
}

#[test]
fn user_archive_is_a_zip_with_six_documents() {
    let z = user_archive(
        b"{}".to_vec(),
        b"[]".to_vec(),
        b"[]".to_vec(),
        b"[]".to_vec(),
        b"[]".to_vec(),
        b"[]".to_vec(),
    )
    .unwrap();
    assert_eq!(&z[..4], b"PK\x03\x04");
    let names = ["user.json", "machines.json", "projects.json", "observations.json", "shares.json", "audit.json"];
    for n in names {
        assert!(z.windows(n.len()).any(|w| w == n.as_bytes()), "missing {n}");
    }
    let empty = zip_archive(&Vec::new()).unwrap();
    assert!(!empty.is_empty());
    assert_eq!(user_archive_filename("alice", "u1"), "user-alice-u1.zip");
    assert_eq!(attachment_disposition("a.csv"), "attachment; filename=\"a.csv\"");
}

#[test]
fn gzip_has_magic_bytes() {
    let g = gzip_bytes(b"sqlite bytes").unwrap();
    assert_eq!(&g[..2], &[0x1f, 0x8b]);
}

#[test]
fn integer_text() {
    assert_eq!(int_text(0), "0");
    assert_eq!(int_text(-42), "-42");
    assert_eq!(int_text(i64::MIN), "-9223372036854775808");
    assert_eq!(int_text(i64::MAX), "9223372036854775807");
}

#[test]
fn excluded_machines_are_left_out() {
    let row = |id: &str, m: &str| ObservationRow {
        id: id.into(),
        user_id: "u".into(),
        machine_id: m.into(),
        project_id: None,
        timestamp: 0,
        project_path: None,
        content: String::new(),
        obs_type: None,
        metadata: None,
        derived_from: None,
        derivation_chain: None,
        server_seq: 0,
        server_received_at: 0,
    };
    let rows = vec![row("a", "m1"), row("b", "m2"), row("c", "m1")];
    let kept = without_machines(rows, &["m1".to_string()]);
    assert_eq!(kept.len(), 1);
    assert_eq!(kept[0].id, "b");
}
