//! What setup reports, and what is refused before it has completed.

use vstd::prelude::*;

use crate::error::{self, ApiError};

verus! {

/// The answer of the health check, which tells nothing of the configuration.
#[derive(Debug)]
pub struct HealthResponse {
    pub status: &'static str,
}

/// The health check.
pub fn healthz() -> (response: HealthResponse)
    ensures
        response.status@ == "ok"@,
{
    HealthResponse { status: "ok" }
}

/// How far setup has come.
#[derive(Debug)]
pub struct SetupStatus {
    pub initialized: bool,
    pub device_id: Option<String>,
    pub monitor_initialized: bool,
    pub monitor_device_id: Option<String>,
    pub default_room_id: String,
}

/// The contents of a [`SetupStatus`].
pub struct SetupStatusView {
    pub initialized: bool,
    pub device_id: Option<Seq<char>>,
    pub monitor_initialized: bool,
    pub monitor_device_id: Option<Seq<char>>,
    pub default_room_id: Seq<char>,
}

impl View for SetupStatus {
    type V = SetupStatusView;

    open spec fn view(&self) -> SetupStatusView {
        SetupStatusView {
            initialized: self.initialized,
            device_id: self.device_id.deep_view(),
            monitor_initialized: self.monitor_initialized,
            monitor_device_id: self.monitor_device_id.deep_view(),
            default_room_id: self.default_room_id@,
        }
    }
}

/// The device ID to report for a client: the one on record, if the client is
/// available and its device ID could be looked up.
pub open spec fn reported_device(
    available: bool,
    lookup: Result<Option<String>, ()>,
) -> Option<Seq<char>> {
    match lookup {
        Ok(device_id) if available => device_id.deep_view(),
        _ => None,
    }
}

fn device_to_report(available: bool, lookup: Result<Option<String>, ()>) -> (device_id: Option<
    String,
>)
    ensures
        device_id.deep_view() == reported_device(available, lookup),
{
    match lookup {
        Ok(device_id) => if available {
            device_id
        } else {
            None
        },
        Err(_) => None,
    }
}

impl SetupStatus {
    /// Puts the report together. `device` and `monitor_device` are what came of
    /// looking up the device IDs on record.
    pub fn report(
        sender_available: bool,
        device: Result<Option<String>, ()>,
        monitor_available: bool,
        monitor_device: Result<Option<String>, ()>,
        default_room_id: &str,
    ) -> (status: SetupStatus)
        ensures
            status@ == (SetupStatusView {
                initialized: sender_available,
                device_id: reported_device(sender_available, device),
                monitor_initialized: monitor_available,
                monitor_device_id: reported_device(monitor_available, monitor_device),
                default_room_id: default_room_id@,
            }),
    {
        SetupStatus {
            initialized: sender_available,
            device_id: device_to_report(sender_available, device),
            monitor_initialized: monitor_available,
            monitor_device_id: device_to_report(monitor_available, monitor_device),
            default_room_id: default_room_id.to_owned(),
        }
    }
}

/// The error of a request that came before the sender was set up.
pub open spec fn client_missing() -> error::ErrorView {
    error::service_unavailable("Matrix setup has not completed"@)
}

/// The error of a request that came before the monitor was set up.
pub open spec fn monitor_missing() -> error::ErrorView {
    error::service_unavailable("Matrix delivery monitor has not completed setup"@)
}

/// Refuses what needs the sender where it is not available.
pub fn ready_client(available: bool) -> (outcome: Result<(), ApiError>)
    ensures
        match outcome {
            Ok(_) => available,
            Err(error) => !available && error@ == client_missing(),
        },
{
    if available {
        Ok(())
    } else {
        Err(ApiError::service_unavailable("Matrix setup has not completed"))
    }
}

/// Refuses what needs the monitor where it is not available.
pub fn ready_monitor_client(available: bool) -> (outcome: Result<(), ApiError>)
    ensures
        match outcome {
            Ok(_) => available,
            Err(error) => !available && error@ == monitor_missing(),
        },
{
    if available {
        Ok(())
    } else {
        Err(ApiError::service_unavailable("Matrix delivery monitor has not completed setup"))
    }
}

} // verus!
