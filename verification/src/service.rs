//! The two requests that reach the registry: a write, which carries a report
//! or the reason why none could be read from the request, and a read.
//!
//! A write is checked before the registry is touched: [`validate`] turns
//! away a report that names no host. [`write_path`] says what a write does
//! to a registry that the caller holds alone. [`AppState`] is a registry
//! shared by all request handlers; it lets one of them in at a time, and
//! only for the map operation itself.

use crate::registry::{distinct_ips, named_hosts, Registry};
use crate::report::{report_views, HostInfo};
use std::sync::Arc;
use vstd::prelude::*;
use vstd::rwlock::{RwLock, RwLockPredicate};

verus! {

/// The status of a write that is turned away.
pub const UNPROCESSABLE_ENTITY: u16 = 422;

/// The reason given for turning away a report whose `ip` is empty.
pub const EMPTY_IP: &'static str = "invalid report: `ip` must not be empty";

/// The payload carries a report that names its host: one that is stored.
pub open spec fn is_storable(payload: Result<HostInfo, String>) -> bool {
    payload matches Ok(report) && report.ip@.len() > 0
}

/// The answer to a write that was stored: the text `ok`.
pub open spec fn is_acknowledged(response: Result<&'static str, (u16, String)>) -> bool {
    response matches Ok(body) && body@ == "ok"@
}

/// The answer to a write that was turned away: the client-error status, and
/// as its text the reason for it.
pub open spec fn is_rejected(
    response: Result<&'static str, (u16, String)>,
    reason: Seq<char>,
) -> bool {
    response matches Err(rejection) && rejection.0 == UNPROCESSABLE_ENTITY && rejection.1@
        == reason
}

/// The answer that a write with this payload gets, whatever the registry
/// holds: a report that names its host is acknowledged, a report with an
/// empty `ip` is turned away with [`EMPTY_IP`], and a payload that could not
/// be read is turned away with the reason it came with.
pub open spec fn answers(
    payload: Result<HostInfo, String>,
    response: Result<&'static str, (u16, String)>,
) -> bool {
    match payload {
        Ok(report) => if report.ip@.len() > 0 {
            is_acknowledged(response)
        } else {
            is_rejected(response, EMPTY_IP@)
        },
        Err(reason) => is_rejected(response, reason@),
    }
}

/// Checks a payload before the registry is touched. A report that names its
/// host passes as it is. A report with an empty `ip` becomes a payload that
/// could not be read, with [`EMPTY_IP`] as the reason. A payload that could
/// not be read stays as it is.
pub fn validate(payload: Result<HostInfo, String>) -> (checked: Result<HostInfo, String>)
    ensures
        match payload {
            Ok(report) => if report.ip@.len() > 0 {
                checked == Ok::<HostInfo, String>(report)
            } else {
                checked matches Err(reason) && reason@ == EMPTY_IP@
            },
            Err(reason) => checked == Err::<HostInfo, String>(reason),
        },
{
    match payload {
        Ok(report) => {
            if report.ip.as_str().is_empty() {
                Err(EMPTY_IP.to_owned())
            } else {
                Ok(report)
            }
        },
        Err(reason) => Err(reason),
    }
}

/// Turns away a write: the client-error status with `reason` as its text.
pub fn reject(reason: String) -> (rejection: (u16, String))
    ensures
        rejection.0 == UNPROCESSABLE_ENTITY,
        rejection.1@ == reason@,
{
    (UNPROCESSABLE_ENTITY, reason)
}

/// A write against a registry held alone. A report that names its host is
/// stored under its `ip` and acknowledged. A report with an empty `ip`, and a
/// payload that could not be read, are turned away with their reason, and the
/// registry stays as it was.
pub fn write_path(registry: &mut Registry, payload: Result<HostInfo, String>) -> (response: Result<
    &'static str,
    (u16, String),
>)
    ensures
        answers(payload, response),
        final(registry)@ == if is_storable(payload) {
            old(registry)@.insert(payload->Ok_0.ip@, payload->Ok_0@)
        } else {
            old(registry)@
        },
        final(registry)@.len() == old(registry)@.len() + if is_storable(payload)
            && !old(registry)@.contains_key(payload->Ok_0.ip@) {
            1nat
        } else {
            0nat
        },
{
    match validate(payload) {
        Ok(report) => {
            registry.upsert(report);
            Ok("ok")
        },
        Err(reason) => Err(reject(reason)),
    }
}

/// What the lock of an [`AppState`] may hold: any registry. A registry keeps
/// its own invariant, one report for each `ip`.
pub struct AnyRegistry;

impl RwLockPredicate<Registry> for AnyRegistry {
    open spec fn inv(self, registry: Registry) -> bool {
        true
    }
}

/// A registry shared by all request handlers. Copies of an `AppState` stand
/// for the same registry. Every access takes the one lock exclusively, so
/// writes and reads happen one after the other, and a read sees each report
/// whole.
#[derive(Clone)]
pub struct AppState {
    hosts: Arc<RwLock<Registry, AnyRegistry>>,
}

impl AppState {
    /// A shared registry in which no host has reported yet.
    pub fn new() -> (state: AppState) {
        AppState { hosts: Arc::new(RwLock::new(Registry::new(), Ghost(AnyRegistry))) }
    }
}

/// Handles a write. A report that names its host is stored under its `ip`,
/// over whatever was stored for that `ip`, and acknowledged; of two writes
/// for one `ip` the one that takes the lock last stays. A report with an
/// empty `ip`, and a payload that could not be read, are turned away with
/// their reason, without touching the registry or its lock.
pub fn update_host(state: &AppState, payload: Result<HostInfo, String>) -> (response: Result<
    &'static str,
    (u16, String),
>)
    ensures
        answers(payload, response),
{
    match validate(payload) {
        Ok(report) => {
            let (mut registry, handle) = state.hosts.acquire_write();
            let response = write_path(&mut registry, Ok(report));
            handle.release_write(registry);
            response
        },
        Err(reason) => Err(reject(reason)),
    }
}

/// Handles a read: a copy of the report of every host, as the registry held
/// them at one moment while the lock was taken. No host is listed twice, and
/// every report that is listed names its host.
pub fn get_hosts(state: &AppState) -> (reports: Vec<HostInfo>)
    ensures
        distinct_ips(report_views(reports@)),
        named_hosts(report_views(reports@)),
{
    let (registry, handle) = state.hosts.acquire_write();
    let reports = registry.snapshot();
    handle.release_write(registry);
    reports
}

} // verus!
