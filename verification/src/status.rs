//! One observation of the two monitored services, and the verdict on it.

use crate::evaluator::{depends_on_deployment, is_reportable, reportable};
use crate::time::Timestamp;
use vstd::prelude::*;

verus! {

/// What the engine says of itself when asked for its status.
#[derive(Clone, Copy, Debug, PartialEq, Eq, Structural)]
pub struct EngineStatus {
    pub healthy: bool,
}

impl EngineStatus {
    /// Whether the engine reports itself healthy.
    pub fn healthy(&self) -> (healthy: bool)
        ensures
            healthy == self.healthy,
    {
        self.healthy
    }
}

/// Whether an HTTP status code is one of success, 200 to 299.
pub open spec fn is_success(code: u16) -> bool {
    200 <= code <= 299
}

/// One observation. Of each service it holds what the check brought back: a
/// result, or the message of the failure, or neither while the check has not
/// been made.
#[derive(Clone, Debug, PartialEq, Eq)]
pub struct Status {
    pub engine_status: Option<EngineStatus>,
    pub engine_error: Option<String>,
    pub web_status_code: Option<u16>,
    pub web_error: Option<String>,
    pub checked_at: Timestamp,
}

impl Status {
    /// No service has both a result and a failure.
    pub open spec fn wf(&self) -> bool {
        &&& !(self.engine_status is Some && self.engine_error is Some)
        &&& !(self.web_status_code is Some && self.web_error is Some)
    }

    /// Both checks have been made: each service has a result or a failure.
    pub open spec fn complete(&self) -> bool {
        &&& self.engine_status is Some || self.engine_error is Some
        &&& self.web_status_code is Some || self.web_error is Some
    }

    /// Whether the observation counts as healthy: both checks succeeded, the
    /// engine reports itself healthy and the web answered with a code of
    /// success.
    pub open spec fn is_healthy(&self) -> bool {
        &&& self.engine_status matches Some(engine) && engine.healthy
        &&& self.engine_error is None
        &&& self.web_status_code matches Some(code) && is_success(code)
        &&& self.web_error is None
    }

    /// An observation taken at `checked_at` on which no check has been made yet.
    pub fn new(checked_at: Timestamp) -> (status: Status)
        ensures
            status.engine_status is None,
            status.engine_error is None,
            status.web_status_code is None,
            status.web_error is None,
            status.checked_at == checked_at,
            status.wf(),
            !status.is_healthy(),
    {
        Status {
            engine_status: None,
            engine_error: None,
            web_status_code: None,
            web_error: None,
            checked_at,
        }
    }

    /// The verdict on this observation. It is unhealthy as soon as one result
    /// is missing or a failure, the engine reports itself unhealthy, or the web
    /// answered with a code outside 200 to 299.
    #[verifier::when_used_as_spec(is_healthy)]
    pub fn healthy(&self) -> (healthy: bool)
        ensures
            healthy == self.is_healthy(),
            self.engine_status is None || self.engine_error is Some ==> !healthy,
            self.web_status_code is None || self.web_error is Some ==> !healthy,
            self.engine_status matches Some(engine) && !engine.healthy ==> !healthy,
            self.web_status_code matches Some(code) && !(200 <= code <= 299) ==> !healthy,
    {
        let Some(engine_status) = &self.engine_status else {
            return false;
        };
        let Some(web_status_code) = &self.web_status_code else {
            return false;
        };
        self.engine_error.is_none() && self.web_error.is_none() && engine_status.healthy()
            && 200 <= *web_status_code && *web_status_code <= 299
    }

    /// Whether the rule has to be told how recent the engine's last deployment
    /// is: only where the last reported verdict was healthy and this
    /// observation is not.
    pub fn needs_deployment_check(&self, was_healthy: bool) -> (needed: bool)
        ensures
            needed == depends_on_deployment(was_healthy, self.is_healthy()),
    {
        was_healthy && !self.healthy()
    }

    /// Whether this observation is a change of health to report, after the
    /// verdict `was_healthy` that was reported last. `deployed_recently` is
    /// read only where [`Status::needs_deployment_check`] holds.
    pub fn did_change(&self, was_healthy: bool, deployed_recently: bool) -> (changed: bool)
        ensures
            changed == reportable(was_healthy, self.is_healthy(), deployed_recently),
            was_healthy && !self.is_healthy() ==> changed == !deployed_recently,
            !was_healthy && self.is_healthy() ==> changed,
            was_healthy == self.is_healthy() ==> !changed,
            !depends_on_deployment(was_healthy, self.is_healthy()) ==> changed == (!was_healthy
                && self.is_healthy()),
    {
        is_reportable(was_healthy, self.healthy(), deployed_recently)
    }

    /// Assembles the observation taken at `checked_at` from what the two
    /// checks brought back. A failed check is kept as its message and never
    /// stops the other from being recorded.
    pub fn check(
        engine: Result<EngineStatus, String>,
        web: Result<u16, String>,
        checked_at: Timestamp,
    ) -> (status: Status)
        ensures
            status.checked_at == checked_at,
            match engine {
                Ok(engine_status) => status.engine_status == Some(engine_status)
                    && status.engine_error is None,
                Err(message) => status.engine_status is None && status.engine_error == Some(
                    message,
                ),
            },
            match web {
                Ok(code) => status.web_status_code == Some(code) && status.web_error is None,
                Err(message) => status.web_status_code is None && status.web_error == Some(message),
            },
            status.wf(),
            status.complete(),
    {
        let mut status = Status::new(checked_at);
        match engine {
            Ok(engine_status) => {
                status.engine_status = Some(engine_status);
            },
            Err(message) => {
                status.engine_error = Some(message);
            },
        }
        match web {
            Ok(code) => {
                status.web_status_code = Some(code);
            },
            Err(message) => {
                status.web_error = Some(message);
            },
        }
        status
    }
}

} // verus!
