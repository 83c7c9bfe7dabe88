//! The signed-in GitHub Copilot account's usage for the current billing cycle: what to ask GitHub
//! for it, what its answer means, and what a status bar indicator shows of it.
//!
//! GitHub does not expose remaining quota through its documented REST surface. The
//! `/copilot_internal/user` endpoint used here is the undocumented one that the first-party editor
//! integrations call to render their usage badge. It is authenticated with the long-lived OAuth
//! token rather than a short-lived API token.

pub mod copilot_usage;
pub mod date;
pub mod double;
pub mod laws;
pub mod request;
pub mod rounding;
pub mod text;
pub mod usage_indicator;

pub use copilot_usage::{CopilotUsage, QuotaSnapshot, QuotaUsage, UserResponse};
pub use double::Double;
pub use usage_indicator::CopilotUsageIndicator;
