//! Onboarding and synchronization core for a code-review automation product.
//!
//! The crate holds the verified logic that turns a newly authorized
//! code-hosting account into cached tokens, reconciled webhooks and stored
//! pull-request snapshots: provider-token lifecycle decisions, fail-closed
//! repository filtering, idempotent webhook reconciliation, pull-request
//! state normalization, and the keyed persistent store that the components
//! share.  Network calls, JSON transport and the async runtime live outside
//! the library and hand it plain values.

pub mod aliases;
pub mod auth_info;
pub mod codec;
pub mod db;
pub mod provider;
pub mod prs;
pub mod repo;
pub mod webhook;
pub mod setup;
pub mod store;
pub mod token;

pub use aliases::AliasHandles;
pub use auth_info::BitbucketAuthInfo;
pub use auth_info::GithubAuthInfo;
pub use provider::Provider;
pub use prs::PrInfo;
pub use prs::PrState;
pub use repo::Repository;
pub use repo::UserSelectedRepo;
pub use repo::filter_user_selected_repos;
pub use setup::SetupInfo;
pub use store::Store;
pub use webhook::Webhook;
