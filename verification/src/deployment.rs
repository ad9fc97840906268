//! How recently the engine was deployed: a failure that follows a deployment
//! within the tolerance window is expected, and is not reported.

use crate::time::{nanos_per_minute, representable, whole_minutes, Timestamp};
use vstd::prelude::*;

verus! {

/// For how many minutes after a deployment a failure of the engine is put
/// down to the deployment.
pub const ENGINE_DEPLOYMENT_TOLERANCE_IN_MINUTES: i64 = 15;

/// One deployment of a service, as the platform lists it: the seconds since
/// the epoch and the nanoseconds into that second at which it was made, where
/// the platform says so.
#[derive(Clone, Copy, Debug, PartialEq, Eq)]
pub struct Deployment {
    pub created_at: Option<(i64, u32)>,
}

/// One service, with its deployments in the order of the platform's answer,
/// which need not be the order of their creation.
#[derive(Clone, Debug, PartialEq, Eq)]
pub struct Service {
    pub deployments: Vec<Deployment>,
}

/// Why the time of the last deployment is not known.
#[derive(Clone, Copy, Debug, PartialEq, Eq, Structural)]
pub enum DeploymentError {
    /// The platform's answer names no service.
    ServiceNotFound,
    /// The service has no deployment.
    DeploymentNotFound,
    /// A deployment carries no time of creation.
    NoCreatedAt,
    /// Every deployment carries a time of creation, but one of them is not a
    /// time that a [`Timestamp`] holds.
    OutOfRange,
}

/// The instant `nanos` nanoseconds after the second `secs`, in nanoseconds
/// since the epoch.
pub open spec fn instant_of(secs: int, nanos: int) -> int {
    secs * 1_000_000_000 + nanos
}

/// The instant at which a deployment was created, in nanoseconds since the
/// epoch, where it carries a time.
pub open spec fn created_instant(deployment: Deployment) -> int {
    match deployment.created_at {
        Some((secs, nanos)) => instant_of(secs as int, nanos as int),
        None => 0,
    }
}

/// Whether a deployment was created `nanos` nanoseconds after the second
/// `secs`.
pub open spec fn created_at_is(deployment: Deployment, secs: int, nanos: int) -> bool {
    deployment.created_at matches Some((s, n)) && s == secs && n == nanos
}

/// Whether a deployment carries a time of creation that a [`Timestamp`] holds.
pub open spec fn has_usable_time(deployment: Deployment) -> bool {
    deployment.created_at matches Some((secs, nanos)) && representable(secs as int, nanos as int)
}

/// Whether `secs` and `nanos` are the time of creation of one of the
/// deployments, and none of them was created later.
pub open spec fn is_latest_created_at(deployments: Seq<Deployment>, secs: int, nanos: int) -> bool {
    &&& exists|i: int|
        0 <= i < deployments.len() && created_at_is(#[trigger] deployments[i], secs, nanos)
    &&& forall|j: int|
        0 <= j < deployments.len() ==> (#[trigger] deployments[j]).created_at is Some
            && created_instant(deployments[j]) <= instant_of(secs, nanos)
}

/// The instant at which the latest of the deployments was created, in
/// nanoseconds since the epoch, where each of them carries a time.
pub open spec fn latest_instant(deployments: Seq<Deployment>) -> int {
    let (secs, nanos) = choose|secs: int, nanos: int|
        is_latest_created_at(deployments, secs, nanos);
    instant_of(secs, nanos)
}

/// Why the time of the last deployment is not known, if it is not: the answer
/// names no service, the first service has no deployment, one of its
/// deployments carries no time, or one carries a time that a [`Timestamp`]
/// does not hold.
pub open spec fn last_deployment_error(services: Seq<Service>) -> Option<DeploymentError> {
    if services.len() == 0 {
        Some(DeploymentError::ServiceNotFound)
    } else if services[0].deployments@.len() == 0 {
        Some(DeploymentError::DeploymentNotFound)
    } else if exists|j: int|
        0 <= j < services[0].deployments@.len() && (#[trigger] services[0].deployments@[j]).created_at
            is None {
        Some(DeploymentError::NoCreatedAt)
    } else if exists|j: int|
        0 <= j < services[0].deployments@.len() && !has_usable_time(
            #[trigger] services[0].deployments@[j],
        ) {
        Some(DeploymentError::OutOfRange)
    } else {
        None
    }
}

/// Whether an instant, in nanoseconds since the epoch, lies less than the
/// tolerance after a deployment. A deployment that lies ahead of the instant
/// counts as recent.
pub open spec fn within_tolerance(now: int, deployed_at: int) -> bool {
    now - deployed_at < ENGINE_DEPLOYMENT_TOLERANCE_IN_MINUTES * nanos_per_minute()
}

/// Whether the engine, by the platform's answer, was deployed less than the
/// tolerance before `now`, or why that cannot be told. What counts is the
/// latest deployment of the first service, wherever it is listed.
pub open spec fn deployed_recently(now: Timestamp, services: Seq<Service>) -> Result<
    bool,
    DeploymentError,
> {
    match last_deployment_error(services) {
        Some(error) => Err(error),
        None => Ok(within_tolerance(now@, latest_instant(services[0].deployments@))),
    }
}

/// The latest time of creation is one instant, whichever deployment carries
/// it.
pub proof fn lemma_latest_instant(deployments: Seq<Deployment>, secs: int, nanos: int)
    requires
        is_latest_created_at(deployments, secs, nanos),
    ensures
        latest_instant(deployments) == instant_of(secs, nanos),
{
    let (chosen_secs, chosen_nanos) = choose|s: int, n: int|
        is_latest_created_at(deployments, s, n);
    assert(is_latest_created_at(deployments, chosen_secs, chosen_nanos));
    let i = choose|i: int|
        0 <= i < deployments.len() && created_at_is(#[trigger] deployments[i], secs, nanos);
    let k = choose|k: int|
        0 <= k < deployments.len() && created_at_is(
            #[trigger] deployments[k],
            chosen_secs,
            chosen_nanos,
        );
    assert(created_instant(deployments[i]) == instant_of(secs, nanos));
    assert(created_instant(deployments[k]) == instant_of(chosen_secs, chosen_nanos));
    assert(instant_of(secs, nanos) <= instant_of(chosen_secs, chosen_nanos));
    assert(instant_of(chosen_secs, chosen_nanos) <= instant_of(secs, nanos));
}

/// When the engine was last deployed: the latest time of creation among the
/// deployments of the first service in the platform's answer, in whatever
/// order they are listed.
pub fn engine_last_deployed_at(services: &Vec<Service>) -> (last: Result<
    Timestamp,
    DeploymentError,
>)
    ensures
        match last {
            Ok(at) => {
                &&& last_deployment_error(services@) is None
                &&& at.wf()
                &&& is_latest_created_at(
                    services@[0].deployments@,
                    at.seconds(),
                    at.subsec_nanos(),
                )
                &&& at@ == latest_instant(services@[0].deployments@)
            },
            Err(error) => last_deployment_error(services@) == Some(error),
        },
{
    if services.len() == 0 {
        return Err(DeploymentError::ServiceNotFound);
    }
    let deployments = &services[0].deployments;
    if deployments.len() == 0 {
        return Err(DeploymentError::DeploymentNotFound);
    }
    let mut lacking = false;
    let mut unusable = false;
    let mut latest: Option<Timestamp> = None;
    let ghost mut holder: int = 0;
    let mut i: usize = 0;
    while i < deployments.len()
        invariant
            i <= deployments.len(),
            lacking == (exists|j: int|
                0 <= j < i && (#[trigger] deployments@[j]).created_at is None),
            unusable == (exists|j: int| 0 <= j < i && !has_usable_time(#[trigger] deployments@[j])),
            latest is None ==> forall|j: int|
                0 <= j < i ==> !has_usable_time(#[trigger] deployments@[j]),
            latest matches Some(at) ==> {
                &&& at.wf()
                &&& 0 <= holder < i
                &&& created_at_is(deployments@[holder], at.seconds(), at.subsec_nanos())
                &&& forall|j: int|
                    0 <= j < i && has_usable_time(#[trigger] deployments@[j]) ==> created_instant(
                        deployments@[j],
                    ) <= at@
            },
        decreases deployments.len() - i,
    {
        match deployments[i].created_at {
            None => {
                lacking = true;
                unusable = true;
            },
            Some((secs, nanos)) => match Timestamp::new(secs, nanos) {
                None => {
                    unusable = true;
                },
                Some(at) => {
                    let later = match &latest {
                        None => true,
                        Some(so_far) => at.is_after(so_far),
                    };
                    if later {
                        latest = Some(at);
                        proof {
                            holder = i as int;
                        }
                    }
                },
            },
        }
        i += 1;
    }
    if lacking {
        Err(DeploymentError::NoCreatedAt)
    } else if unusable {
        Err(DeploymentError::OutOfRange)
    } else {
        match latest {
            Some(at) => {
                proof {
                    assert(is_latest_created_at(deployments@, at.seconds(), at.subsec_nanos())) by {
                        assert forall|j: int| 0 <= j < deployments@.len() implies (
                        #[trigger] deployments@[j]).created_at is Some && created_instant(
                            deployments@[j],
                        ) <= instant_of(at.seconds(), at.subsec_nanos()) by {
                            assert(has_usable_time(deployments@[j]));
                        }
                    }
                    lemma_latest_instant(deployments@, at.seconds(), at.subsec_nanos());
                }
                Ok(at)
            },
            None => {
                proof {
                    assert(has_usable_time(deployments@[0]));
                }
                Err(DeploymentError::DeploymentNotFound)
            },
        }
    }
}

/// A span counts fewer whole minutes than the tolerance exactly where it is
/// shorter than the tolerance: rounding towards zero never carries a span
/// across the limit.
pub proof fn lemma_tolerance_in_whole_minutes(now: int, deployed_at: int)
    ensures
        within_tolerance(now, deployed_at) <==> whole_minutes(now - deployed_at)
            < ENGINE_DEPLOYMENT_TOLERANCE_IN_MINUTES,
{
}

/// Whether `last_deployed_at` lies less than the tolerance before `now`.
pub fn was_deployed_within_tolerance(now: &Timestamp, last_deployed_at: &Timestamp) -> (recent:
    bool)
    ensures
        recent == within_tolerance(now@, last_deployed_at@),
{
    let minutes = now.minutes_since(last_deployed_at);
    proof {
        lemma_tolerance_in_whole_minutes(now@, last_deployed_at@);
    }
    minutes < ENGINE_DEPLOYMENT_TOLERANCE_IN_MINUTES
}

/// Whether the latest deployment of the engine was made less than the
/// tolerance before `now`. That the platform names no deployment, or one
/// without a usable time, is an error and not the answer "no".
pub fn was_engine_deployed_recently(now: &Timestamp, services: &Vec<Service>) -> (recent: Result<
    bool,
    DeploymentError,
>)
    ensures
        recent == deployed_recently(*now, services@),
{
    match engine_last_deployed_at(services) {
        Ok(last_deployed_at) => Ok(was_deployed_within_tolerance(now, &last_deployed_at)),
        Err(error) => Err(error),
    }
}

} // verus!
