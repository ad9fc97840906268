//! The transition rule: whether an observed change of health is reported.

use vstd::prelude::*;

verus! {

/// Whether going from the verdict `was_healthy` to the verdict `is_healthy` is
/// reported. A recovery always is; a failure is, unless the engine was deployed
/// within the tolerance window; a verdict that stays as it was never is.
pub open spec fn reportable(was_healthy: bool, is_healthy: bool, deployed_recently: bool) -> bool {
    (!was_healthy && is_healthy) || (was_healthy && !is_healthy && !deployed_recently)
}

/// Whether the rule has to know how recent the last deployment is: only a
/// failure after a healthy verdict can be suppressed by one.
pub open spec fn depends_on_deployment(was_healthy: bool, is_healthy: bool) -> bool {
    was_healthy && !is_healthy
}

/// Decides whether a change of health is reported.
pub fn is_reportable(was_healthy: bool, is_healthy: bool, deployed_recently: bool) -> (changed: bool)
    ensures
        changed == reportable(was_healthy, is_healthy, deployed_recently),
        was_healthy && !is_healthy ==> changed == !deployed_recently,
        !was_healthy && is_healthy ==> changed,
        was_healthy == is_healthy ==> !changed,
{
    (!was_healthy && is_healthy) || (was_healthy && !is_healthy && !deployed_recently)
}

/// A failure after a healthy verdict is reported exactly where the engine was
/// not deployed recently.
pub proof fn lemma_failure_is_debounced(deployed_recently: bool)
    ensures
        reportable(true, false, deployed_recently) == !deployed_recently,
{
}

/// A recovery is reported, however recent the last deployment is.
pub proof fn lemma_recovery_is_never_debounced(deployed_recently: bool)
    ensures
        reportable(false, true, deployed_recently),
        !depends_on_deployment(false, true),
{
}

/// A verdict that stays as it was is not reported, whatever else holds.
pub proof fn lemma_steady_verdict_is_not_reported(verdict: bool, deployed_recently: bool)
    ensures
        !reportable(verdict, verdict, deployed_recently),
        !depends_on_deployment(verdict, verdict),
{
}

/// Where the rule does not depend on the deployment, its answer is the same
/// for a recent deployment and for an old one.
pub proof fn lemma_deployment_matters_only_for_failures(was_healthy: bool, is_healthy: bool)
    requires
        !depends_on_deployment(was_healthy, is_healthy),
    ensures
        reportable(was_healthy, is_healthy, true) == reportable(was_healthy, is_healthy, false),
{
}

} // verus!
