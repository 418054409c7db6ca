use vstd::prelude::*;

use tracing_subscriber::filter::{LevelFilter, Targets};

verus! {

#[verifier::external_type_specification]
#[verifier::external_body]
pub struct ExTargets(Targets);

/// The most verbose level that a target directive enables, one variant for each of
/// `tracing_subscriber`'s `LevelFilter` constants.
#[derive(Clone, Copy, Debug, PartialEq, Eq, Structural)]
pub enum TargetLevel {
    Off,
    Error,
    Warn,
    Info,
    Debug,
    Trace,
}

/// The directives that a `Targets` filter holds: for each target prefix, the most
/// verbose level it enables.
pub uninterp spec fn target_levels(t: Targets) -> Map<Seq<char>, TargetLevel>;

/// The default level of a `Targets` filter: the level of its directive that names
/// no target, which applies to every target that no other directive matches
/// (`None` when there is no such directive, so that such targets are disabled).
pub uninterp spec fn target_default(t: Targets) -> Option<TargetLevel>;

/// Calls `Targets::new`. Claimed: the new filter holds no directive, neither one
/// for a target nor a default one.
#[verifier::external_body]
pub(crate) fn targets_new() -> (r: Targets)
    ensures
        target_levels(r).is_empty(),
        target_default(r) is None,
{
    Targets::new()
}

/// Calls `Targets::with_target` with the `LevelFilter` that `level` names.
/// Claimed: the directive for `target` is added, replacing any earlier directive
/// for the same target (the crate keeps one directive per target and overwrites
/// it on an equal one), and the other directives, the default one among them, are
/// kept.
#[verifier::external_body]
pub(crate) fn targets_with_target(targets: Targets, target: &str, level: TargetLevel) -> (r: Targets)
    ensures
        target_levels(r) == target_levels(targets).insert(target@, level),
        target_default(r) == target_default(targets),
{
    let filter = match level {
        TargetLevel::Off => LevelFilter::OFF,
        TargetLevel::Error => LevelFilter::ERROR,
        TargetLevel::Warn => LevelFilter::WARN,
        TargetLevel::Info => LevelFilter::INFO,
        TargetLevel::Debug => LevelFilter::DEBUG,
        TargetLevel::Trace => LevelFilter::TRACE,
    };
    targets.with_target(target, filter)
}

} // verus!
