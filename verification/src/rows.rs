//! The records that the database layer reads and writes, as plain values.

use vstd::prelude::*;

verus! {

/// A stored user account.
#[derive(Debug, Clone)]
pub struct UserRow {
    pub id: String,
    pub username: String,
    pub password_hash: String,
    pub email: Option<String>,
    pub is_admin: i64,
    pub is_active: i64,
    pub created_at: i64,
    pub last_login_at: Option<i64>,
    /// The client address the account registered from, if recorded.
    pub registration_ip: Option<String>,
    /// The client address of the last login, if recorded.
    pub last_login_ip: Option<String>,
}

/// A registered machine of a user.
#[derive(Debug, Clone)]
pub struct MachineRow {
    pub id: String,
    pub user_id: String,
    pub name: String,
    pub description: Option<String>,
    pub last_seen_at: Option<i64>,
    pub created_at: i64,
    pub revoked: i64,
}

/// A project as stored; `deleted_at` is set once it is in the trash.
#[derive(Debug, Clone)]
pub struct ProjectRow {
    pub id: String,
    pub user_id: String,
    pub name: String,
    pub display_name: Option<String>,
    pub description: Option<String>,
    pub is_excluded: i64,
    pub forked_from_project: Option<String>,
    pub forked_at: Option<i64>,
    pub created_at: i64,
    pub deleted_at: Option<i64>,
}

/// A local path under which a machine has seen a project.
#[derive(Debug, Clone)]
pub struct ProjectPathRow {
    pub project_id: String,
    pub machine_id: String,
    pub machine_name: String,
    pub path: String,
    pub project_marker_id: Option<String>,
    pub created_at: i64,
    pub last_seen_at: i64,
}

/// A project seen from the admin pages, with its owner and counts.
#[derive(Debug, Clone)]
pub struct AdminProjectRow {
    pub id: String,
    pub user_id: String,
    pub username: String,
    pub name: String,
    pub display_name: Option<String>,
    pub description: Option<String>,
    pub is_excluded: i64,
    pub created_at: i64,
    pub deleted_at: Option<i64>,
    pub observation_count: i64,
    pub share_count: i64,
    pub path_count: i64,
}

/// An observation as stored.
#[derive(Debug, Clone)]
pub struct ObservationRow {
    pub id: String,
    pub user_id: String,
    pub machine_id: String,
    pub project_id: Option<String>,
    pub timestamp: i64,
    pub project_path: Option<String>,
    pub content: String,
    pub obs_type: Option<String>,
    pub metadata: Option<String>,
    pub derived_from: Option<String>,
    pub derivation_chain: Option<String>,
    pub server_seq: i64,
    pub server_received_at: i64,
}

/// An observation that reaches a user through a share, with the share's details.
#[derive(Debug, Clone)]
pub struct SharedObservationRow {
    pub id: String,
    pub user_id: String,
    pub machine_id: String,
    pub project_id: String,
    pub timestamp: i64,
    pub project_path: Option<String>,
    pub content: String,
    pub obs_type: Option<String>,
    pub metadata: Option<String>,
    pub derived_from: Option<String>,
    pub derivation_chain: Option<String>,
    pub server_seq: i64,
    pub server_received_at: i64,
    pub share_mode: String,
    pub sharer_user_id: String,
    pub sharer_username: String,
    pub project_name: String,
}

/// A share of a project with a user, the public, or a link.
#[derive(Debug, Clone)]
pub struct ShareRow {
    pub id: String,
    pub project_id: String,
    pub sharer_user_id: String,
    pub target_type: String,
    pub target_user_id: Option<String>,
    pub share_token: Option<String>,
    pub share_mode: String,
    pub expires_at: Option<i64>,
    pub created_at: i64,
    pub revoked_at: Option<i64>,
}

/// A share seen from the admin pages, with names resolved.
#[derive(Debug, Clone)]
pub struct AdminShareRow {
    pub id: String,
    pub project_id: String,
    pub project_name: String,
    pub sharer_user_id: String,
    pub sharer_username: String,
    pub target_type: String,
    pub target_user_id: Option<String>,
    pub target_username: Option<String>,
    pub share_token: Option<String>,
    pub share_mode: String,
    pub expires_at: Option<i64>,
    pub created_at: i64,
    pub revoked_at: Option<i64>,
}

/// A pending notice that a share's mode was narrowed.
#[derive(Debug, Clone)]
pub struct DowngradeRow {
    pub id: i64,
    pub project_id: String,
    pub target_user_id: String,
    pub old_mode: String,
    pub new_mode: String,
    pub created_at: i64,
}

/// A registration invite code and its use.
#[derive(Debug, Clone)]
pub struct InviteRow {
    pub code: String,
    pub created_by: Option<String>,
    pub created_at: i64,
    pub expires_at: Option<i64>,
    pub max_uses: i64,
    pub use_count: i64,
    pub used_by: Option<String>,
    pub used_at: Option<i64>,
}

/// An entry of the audit log.
#[derive(Debug, Clone)]
pub struct AuditRow {
    pub id: i64,
    pub user_id: Option<String>,
    pub machine_id: Option<String>,
    pub action: String,
    pub target_type: Option<String>,
    pub target_id: Option<String>,
    pub created_at: i64,
}

/// A stored refresh token (by digest).
#[derive(Debug, Clone)]
pub struct RefreshTokenRow {
    pub token_hash: String,
    pub user_id: String,
    pub issued_at: i64,
    pub expires_at: i64,
    pub revoked: i64,
}

/// Totals over the whole server.
#[derive(Debug, Clone)]
pub struct GlobalStats {
    pub users: i64,
    pub machines: i64,
    pub projects: i64,
    pub observations: i64,
    pub shares: i64,
    pub invites: i64,
}

} // verus!
