//! Configuration resolution for a small static file server.
//!
//! Raw, loosely-typed command-line input (string flag values and boolean
//! presence flags) is validated and turned into a single strongly-typed
//! `Args` value, failing fast with a descriptive error on any invalid
//! input.  The two non-trivial steps, resolving a filesystem path and
//! validating a host/port pair as a socket address, carry full contracts.

mod addr;
mod config;
mod errors;
mod num;
mod path;
mod text;

pub use addr::check_host;
pub use addr::check_ipv4;
pub use addr::check_ipv6;
pub use addr::SocketAddress;
pub use config::Args;
pub use config::RawFlags;
pub use errors::AccessCause;
pub use errors::ConfigError;
pub use errors::IntKind;
pub use num::parse_u16;
pub use num::parse_u32;
pub use path::effective_path;
pub use path::resolve_path;
pub use path::FsProbes;
