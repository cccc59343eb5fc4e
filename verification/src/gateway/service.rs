//! What the gateway's procedures share, and those that answer from its own state.

use vstd::prelude::*;
use crate::gateway::principal::Principal;
use crate::gateway::status::{Code, Status};
use crate::text;
use crate::text::{all_together, decimal_of};

verus! {

/// The most records that one page of a list holds.
pub const MAX_PAGE_SIZE: u32 = 1000;

/// The size of a page that is asked for: nothing asks for the default, and no larger page than
/// `max` can be had.
pub open spec fn page_size(raw: u32, default: u32, max: u32) -> u32 {
    if raw == 0 {
        default
    } else if raw <= max {
        raw
    } else {
        max
    }
}

/// The size of a page that is asked for.
pub fn clamp_limit(raw: u32, default: u32, max: u32) -> (limit: u32)
    ensures
        limit == page_size(raw, default, max),
{
    if raw == 0 {
        default
    } else if raw < max {
        raw
    } else {
        max
    }
}

/// Why a record could not be stored.
#[derive(Debug)]
pub enum PersistenceError {
    /// The record was changed meanwhile; its version now, where it is known.
    Conflict { current_resource_version: Option<u64> },
    /// Anything else, in words.
    Other(String),
}

/// A version in words.
pub open spec fn version_text(version: Option<u64>) -> Seq<char> {
    match version {
        Some(v) => decimal_of(v as nat),
        None => "unknown"@,
    }
}

/// The status for a record that could not be stored. After a conflict the caller may try again.
pub fn persistence_error_to_status(err: PersistenceError, operation: &str) -> (status: Status)
    ensures
        match err {
            PersistenceError::Conflict { current_resource_version } => status.is(
                Code::Aborted,
                operation@ + " failed due to concurrent modification (current resource_version: "@
                    + version_text(current_resource_version) + ")"@,
            ),
            PersistenceError::Other(reason) => status.is(
                Code::Internal,
                operation@ + " failed: "@ + reason@,
            ),
        },
{
    match err {
        PersistenceError::Conflict { current_resource_version } => {
            let version = match current_resource_version {
                Some(v) => text::decimal(v),
                None => "unknown".to_string(),
            };
            let mut message = all_together(
                operation,
                " failed due to concurrent modification (current resource_version: ",
                version.as_str(),
            );
            message.append(")");
            Status { code: Code::Aborted, message }
        },
        PersistenceError::Other(reason) => {
            let message = all_together(operation, " failed: ", reason.as_str());
            Status { code: Code::Internal, message }
        },
    }
}

/// Who makes a request, as the request carries it. That it carries nobody is a fault of the
/// gateway's own.
pub fn extract_principal(carried: Option<&Principal>) -> (result: Result<&Principal, Status>)
    ensures
        match carried {
            Some(principal) => result == Ok::<&Principal, Status>(principal),
            None => result matches Err(status) && status.is(Code::Internal, "missing principal"@),
        },
{
    match carried {
        Some(principal) => Ok(principal),
        None => Err(Status::new(Code::Internal, "missing principal")),
    }
}

/// What a service says of itself: one that answers is healthy.
#[derive(Debug, Clone, Copy, PartialEq, Eq, Structural)]
pub enum ServiceStatus {
    Healthy,
}

/// The answer to a question after the gateway's health.
#[derive(Debug)]
pub struct HealthResponse {
    pub status: ServiceStatus,
    pub version: String,
}

/// A compute driver as it was last seen.
#[derive(Debug)]
pub struct DriverInfoSnapshot {
    pub name: String,
    pub driver_name: String,
    pub driver_version: String,
}

/// What a compute driver can do.
#[derive(Debug)]
pub struct ComputeDriverCapabilities {
    pub driver_name: String,
    pub driver_version: String,
}

/// A compute driver of the gateway.
#[derive(Debug)]
pub struct ComputeDriverInfo {
    pub name: String,
    pub capabilities: Option<ComputeDriverCapabilities>,
}

/// The answer to a question after the gateway.
#[derive(Debug)]
pub struct GetGatewayInfoResponse {
    pub status: ServiceStatus,
    pub gateway_version: String,
    pub compute_drivers: Vec<ComputeDriverInfo>,
}

impl ComputeDriverInfo {
    /// Whether this tells what `snapshot` holds.
    pub open spec fn tells(self, snapshot: DriverInfoSnapshot) -> bool {
        &&& self.name@ == snapshot.name@
        &&& self.capabilities matches Some(capabilities) && {
            &&& capabilities.driver_name@ == snapshot.driver_name@
            &&& capabilities.driver_version@ == snapshot.driver_version@
        }
    }
}

/// The gateway's service, on its state.
#[derive(Debug)]
pub struct OpenShellService<T> {
    pub state: T,
}

impl<T> OpenShellService<T> {
    /// The service on `state`.
    pub fn new(state: T) -> (service: Self)
        ensures
            service.state == state,
    {
        OpenShellService { state }
    }

    /// The gateway's health: it answers, so it is healthy.
    pub fn health(&self, version: &str) -> (response: HealthResponse)
        ensures
            response.status == ServiceStatus::Healthy,
            response.version@ == version@,
    {
        HealthResponse { status: ServiceStatus::Healthy, version: version.to_string() }
    }

    /// The gateway's health, its version and its compute drivers, each as it was last seen.
    pub fn get_gateway_info(&self, version: &str, drivers: &Vec<DriverInfoSnapshot>) -> (response:
        GetGatewayInfoResponse)
        ensures
            response.status == ServiceStatus::Healthy,
            response.gateway_version@ == version@,
            response.compute_drivers@.len() == drivers@.len(),
            forall|i: int|
                0 <= i < drivers@.len() ==> (#[trigger] response.compute_drivers@[i]).tells(
                    drivers@[i],
                ),
    {
        let mut compute_drivers: Vec<ComputeDriverInfo> = Vec::new();
        let n: usize = drivers.len();
        let mut i: usize = 0;
        while i < n
            invariant
                i <= n,
                n == drivers@.len(),
                compute_drivers@.len() == i,
                forall|j: int|
                    0 <= j < i ==> (#[trigger] compute_drivers@[j]).tells(drivers@[j]),
            decreases n - i,
        {
            let driver = &drivers[i];
            compute_drivers.push(
                ComputeDriverInfo {
                    name: driver.name.clone(),
                    capabilities: Some(
                        ComputeDriverCapabilities {
                            driver_name: driver.driver_name.clone(),
                            driver_version: driver.driver_version.clone(),
                        },
                    ),
                },
            );
            i = i + 1;
        }
        GetGatewayInfoResponse {
            status: ServiceStatus::Healthy,
            gateway_version: version.to_string(),
            compute_drivers,
        }
    }
}

/// A page is never larger than allowed, where the default is not.
pub proof fn lemma_pages_are_bounded(raw: u32, default: u32, max: u32)
    requires
        default <= max,
    ensures
        page_size(raw, default, max) <= max,
{
}

/// A page is as large as it is asked to be, up to the largest; nothing asks for the default.
pub proof fn lemma_pages_are_as_asked(raw: u32, default: u32, max: u32)
    ensures
        raw == 0 ==> page_size(raw, default, max) == default,
        0 < raw <= max ==> page_size(raw, default, max) == raw,
        raw > max ==> page_size(raw, default, max) == max,
{
}

/// What is told of a compute driver is what was seen of it, each part under its own name.
pub proof fn lemma_drivers_are_told_as_seen(info: ComputeDriverInfo, snapshot: DriverInfoSnapshot)
    requires
        info.tells(snapshot),
    ensures
        info.name@ == snapshot.name@,
        info.capabilities matches Some(capabilities) && capabilities.driver_name@
            == snapshot.driver_name@ && capabilities.driver_version@ == snapshot.driver_version@,
{
}

} // verus!
