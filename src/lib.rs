//! Strategy execution engine for scripted game logins: a registry of
//! automation scripts, the pure parts of the capability bridge offered to
//! scripts, the per-invocation dispatcher state machine and the set of
//! auxiliary processes torn down with the engine.
pub mod capability;
pub mod cookies;
pub mod crypto;
pub mod dispatch;
pub mod launch;
pub mod process_set;
pub mod record;
pub mod registry;

pub use capability::{base_url, cookie_tool_args, cookie_tool_result, CapabilityError};
pub use cookies::{cookie_declarations_of, trimmed};
pub use crypto::{hex_lower, md5_hex};
pub use dispatch::{completion_string, outcome_of, Invocation, InvocationState, Outcome};
pub use launch::{launch_target, LaunchTarget};
pub use process_set::ProcessSet;
pub use record::{sort_by_recent, UserInfo};
pub use registry::{Strategy, StrategyError};
