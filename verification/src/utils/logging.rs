//! Logging setup: installs a global `tracing` subscriber, keeping one
//! that is already installed.
//!
//! The `RUST_LOG` environment variable overrides the level given here.
use tracing_subscriber::EnvFilter;
use vstd::prelude::*;

/// `tracing`'s level type, re-exported for `init_with_level`.
pub use tracing::Level;

verus! {

#[verifier::external_type_specification]
#[verifier::external_body]
pub struct ExLevel(tracing::Level);

/// `tracing::Level::WARN`; nothing is stated of the opaque value.
#[verifier::external_body]
fn warn_level() -> Level {
    Level::WARN
}

/// `tracing::Level::INFO`; nothing is stated of the opaque value.
#[verifier::external_body]
fn info_level() -> Level {
    Level::INFO
}

/// `tracing::Level::DEBUG`; nothing is stated of the opaque value.
#[verifier::external_body]
fn debug_level() -> Level {
    Level::DEBUG
}

#[verifier::external_type_specification]
#[verifier::external_body]
pub struct ExEnvFilter(EnvFilter);

/// `EnvFilter::try_from_default_env`: the filter that `RUST_LOG` describes,
/// or `None` when the variable is unset or does not parse. The outcome
/// depends on the environment, so nothing is stated of it.
#[verifier::external_body]
fn env_filter() -> Option<EnvFilter> {
    EnvFilter::try_from_default_env().ok()
}

/// `EnvFilter::new` on the level's name (`Level`'s `Display`, such as
/// `WARN`) lower-cased, as the single directive of the filter.
#[verifier::external_body]
fn level_filter(level: &Level) -> EnvFilter {
    EnvFilter::new(level.to_string().to_lowercase())
}

/// Tries to install a compact `tracing_subscriber::fmt` subscriber with
/// `filter` as the global default, without targets, thread ids or names,
/// files or line numbers, through `SubscriberBuilder::try_init`; returns
/// whether it was installed. It is not when a global subscriber is already
/// set, which is process-wide state, so nothing is stated of the outcome.
#[verifier::external_body]
fn try_install_compact_subscriber(filter: EnvFilter) -> bool {
    tracing_subscriber::fmt().with_env_filter(filter).with_target(false).with_thread_ids(
        false,
    ).with_thread_names(false).with_file(false).with_line_number(false).compact().try_init().is_ok()
}

/// Installs the global `tracing` subscriber, filtering at `level` unless
/// `RUST_LOG` holds a filter of its own. When a global subscriber is already
/// installed, the existing one is kept.
pub fn init_with_level(level: Level) {
    let filter = match env_filter() {
        Some(filter) => filter,
        None => level_filter(&level),
    };
    let _installed = try_install_compact_subscriber(filter);
}

/// Initializes logging at the WARN level (unless `RUST_LOG` says otherwise).
pub fn init() {
    init_with_level(warn_level());
}

/// Initializes logging at the INFO level (unless `RUST_LOG` says otherwise).
pub fn init_verbose() {
    init_with_level(info_level());
}

/// Initializes logging at the DEBUG level (unless `RUST_LOG` says otherwise).
pub fn init_debug() {
    init_with_level(debug_level());
}

} // verus!
