//! Griffith OS core library: the shared vocabulary, settings, node identity,
//! the privacy engine's decisions, the per-OS command plans and parsers, and
//! the host cross-over toggle checks.
pub mod bridge;
pub mod clock;
pub mod doh;
pub mod engine;
pub mod identity;
pub mod net;
pub mod platform;
pub mod settings;
pub mod text;
pub mod types;

pub use bridge::HostBridge;
pub use clock::now_ms;
pub use engine::PrivacyEngine;
pub use identity::NodeIdentity;
pub use settings::GosSettings;
