//! Verified core of the NativeLogi autostart agent and macOS packaging
//! helpers: plist rendering, XML escaping, the reconcile decision for the
//! login-item plist, and the command lines used for signing and packaging.

pub mod text;
pub mod xml;
pub mod launch_agent;
pub mod trash;
pub mod packaging;
