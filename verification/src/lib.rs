//! Verified core of the cmem-sync server: access policy, project naming,
//! request validation, client-address resolution, CSRF checks, localisation
//! and the decision steps of the sync and sharing endpoints.

pub mod text;
pub mod permissions;
pub mod identification;
pub mod error;
pub mod crypto;
pub mod tokens;
pub mod cookies;
pub mod i18n;
pub mod ip;
pub mod csrf;
pub mod config;
pub mod password;
pub mod rows;
pub mod auth;
pub mod sharing;
pub mod sync;
pub mod projects;
pub mod fork;
pub mod admin;
pub mod pages;
pub mod settings;
pub mod ratelimit;
pub mod export;
pub mod jwt;
