//! The node's HTTP service models: its configuration and the bodies of the
//! echo and health endpoints.

use vstd::prelude::*;

verus! {

/// Runtime configuration of the node service.
#[derive(Debug)]
pub struct AppConfig {
    pub host: String,
    pub port: u16,
    pub build_id: String,
}

/// Body of an echo request.
#[derive(Debug)]
pub struct EchoPayload {
    pub message: String,
}

/// Body of an echo response.
#[derive(Debug)]
pub struct EchoResponse {
    pub echoed: String,
    pub build_id: String,
}

/// Body of a health response.
#[derive(Debug)]
pub struct HealthResponse {
    pub status: String,
    pub build_id: String,
}

/// The echo endpoint's answer: the message back, with the build id.
pub fn echo(payload: EchoPayload, build_id: &str) -> (r: EchoResponse)
    ensures
        r.echoed@ == payload.message@,
        r.build_id@ == build_id@,
{
    EchoResponse { echoed: payload.message, build_id: String::from_str(build_id) }
}

/// The health endpoint's answer: `ok`, with the build id.
pub fn health_check(build_id: &str) -> (r: HealthResponse)
    ensures
        r.status@ == "ok"@,
        r.build_id@ == build_id@,
{
    HealthResponse { status: String::from_str("ok"), build_id: String::from_str(build_id) }
}

} // verus!
