//! What anomaly detection and the detection engine's operations keep.
use vstd::prelude::*;

use crate::address::Address;
use crate::detection_engine::{DetectionEngineState, Error, spec_is_anomaly};
use crate::word::{U256, sat_add, word_max};

verus! {

/// Anomaly detection is a strict comparison: never of a value against
/// itself, never both ways, transitive, monotone in the value, unchanged by
/// adding the same amount to both sides, every positive value is an anomaly
/// against a zero threshold and nothing is one against the largest word.
pub proof fn law_anomaly_is_strict_order(v: U256, t: U256, c: U256, bigger: U256)
    ensures
        !spec_is_anomaly(v, v),
        spec_is_anomaly(v, t) ==> v.value() > 0,
        spec_is_anomaly(v, t) ==> !spec_is_anomaly(t, v),
        spec_is_anomaly(v, t) && spec_is_anomaly(t, c) ==> spec_is_anomaly(v, c),
        spec_is_anomaly(v, t) && bigger.value() >= v.value() ==> spec_is_anomaly(bigger, t),
        t.value() == 0 ==> (spec_is_anomaly(v, t) <==> v.value() != 0),
        t.value() == word_max() ==> !spec_is_anomaly(v, t),
        v.value() + c.value() <= word_max() && t.value() + c.value() <= word_max() ==> (
        spec_is_anomaly(v, t) <==> (v.value() + c.value() > t.value() + c.value())),
{
    crate::word::lemma_word_of_value(v);
}

/// A report on a registered metric is what is read back, and the anomaly
/// check then answers whether it is above the metric's threshold; a report
/// never changes a threshold, the count, nor the value of another metric. A
/// report on a metric that is not registered fails and changes nothing.
pub proof fn law_report_then_check(s: DetectionEngineState, id: U256, value: U256)
    ensures
        !s.is_registered(id) ==> s.report_metric_outcome(id, value) == Err::<
            DetectionEngineState,
            Error,
        >(Error::MetricNotFound { id }),
        s.is_registered(id) ==> s.report_metric_outcome(id, value) is Ok,
        s.report_metric_outcome(id, value) matches Ok(t) ==> {
            &&& t.value_of(id) == value
            &&& forall|other: U256| other != id ==> #[trigger] t.value_of(other) == s.value_of(other)
            &&& forall|other: U256| #[trigger] t.threshold_of(other) == s.threshold_of(other)
            &&& t.metric_count == s.metric_count
            &&& t.anomaly_of(id) == Ok::<bool, Error>(value.value() > s.threshold_of(id).value())
        },
{
}

/// A registered threshold is what is read back, the metric is then known to
/// the anomaly check, and the thresholds of other metrics stay as they were;
/// the metric count grows by one with each registration, capped at the
/// largest word.
pub proof fn law_register_then_read(s: DetectionEngineState, caller: Address, id: U256, threshold: U256)
    ensures
        s.register_metric_outcome(caller, id, threshold) matches Ok(t) ==> {
            &&& t.threshold_of(id) == threshold
            &&& t.value_of(id) == s.value_of(id)
            &&& t.anomaly_of(id) == Ok::<bool, Error>(s.value_of(id).value() > threshold.value())
            &&& forall|other: U256| other != id ==> #[trigger] t.threshold_of(other) == s.threshold_of(
                other,
            )
            &&& t.metric_count.value() == sat_add(s.metric_count.value(), 1)
        },
        caller == s.owner ==> s.register_metric_outcome(caller, id, threshold) is Ok,
        caller != s.owner ==> s.register_metric_outcome(caller, id, threshold) == Err::<
            DetectionEngineState,
            Error,
        >(Error::UnauthorizedCaller(caller)),
{
    crate::word::lemma_word_of_value(s.metric_count);
    crate::word::lemma_word_value(sat_add(s.metric_count.value(), 1));
}

/// The metric count never decreases, and never wraps: registrations add one
/// up to the largest word, and no other operation changes it.
pub proof fn law_metric_count_monotonic(
    s: DetectionEngineState,
    caller: Address,
    id: U256,
    threshold: U256,
    value: U256,
    new_owner: Address,
)
    ensures
        s.register_metric_outcome(caller, id, threshold) matches Ok(t) ==> s.metric_count.value()
            <= t.metric_count.value() && (s.metric_count.value() < word_max() ==> s.metric_count.value()
            < t.metric_count.value()),
        s.report_metric_outcome(id, value) matches Ok(t) ==> t.metric_count == s.metric_count,
        s.transfer_ownership_outcome(caller, new_owner) matches Ok(t) ==> t.metric_count
            == s.metric_count,
        s.init_outcome(caller) matches Ok(t) ==> t.metric_count == s.metric_count,
{
    crate::word::lemma_word_of_value(s.metric_count);
    crate::word::lemma_word_value(sat_add(s.metric_count.value(), 1));
}

} // verus!
