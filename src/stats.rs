use vstd::prelude::*;

verus! {

/// One observation for the metrics sink: which channel it concerns (an HTTP
/// request, or a publish attempt to the broker) and whether it went well.
#[derive(Clone, Copy, Debug, PartialEq, Eq, Structural)]
pub struct Stat {
    pub is_http_request: bool,
    pub was_successful: bool,
}

/// The four monotonic counters that the metrics sink keeps, one per
/// channel and outcome.
#[derive(Clone, Copy, Debug, PartialEq, Eq, Structural)]
pub enum StatCounter {
    HttpSuccess,
    HttpFailure,
    BrokerSuccess,
    BrokerFailure,
}

/// The counter that a stat with these two flags increments.
pub open spec fn counter_of(is_http_request: bool, was_successful: bool) -> StatCounter {
    if is_http_request {
        if was_successful { StatCounter::HttpSuccess } else { StatCounter::HttpFailure }
    } else {
        if was_successful { StatCounter::BrokerSuccess } else { StatCounter::BrokerFailure }
    }
}

impl Stat {
    pub fn new(is_http_request: bool, was_successful: bool) -> (r: Stat)
        ensures
            r.is_http_request == is_http_request,
            r.was_successful == was_successful,
    {
        Stat { is_http_request, was_successful }
    }

    /// The counter that the metrics sink increments for this stat.
    pub fn counter(&self) -> (r: StatCounter)
        ensures
            r == counter_of(self.is_http_request, self.was_successful),
    {
        if self.is_http_request {
            if self.was_successful {
                StatCounter::HttpSuccess
            } else {
                StatCounter::HttpFailure
            }
        } else if self.was_successful {
            StatCounter::BrokerSuccess
        } else {
            StatCounter::BrokerFailure
        }
    }
}

impl StatCounter {
    /// The key under which a StatsD sink counts this counter.
    pub fn statsd_key(&self) -> (r: &'static str)
        ensures
            *self == StatCounter::HttpSuccess ==> r@ == "http.success"@,
            *self == StatCounter::HttpFailure ==> r@ == "http.failure"@,
            *self == StatCounter::BrokerSuccess ==> r@ == "kafka.success"@,
            *self == StatCounter::BrokerFailure ==> r@ == "kafka.failure"@,
    {
        match self {
            StatCounter::HttpSuccess => "http.success",
            StatCounter::HttpFailure => "http.failure",
            StatCounter::BrokerSuccess => "kafka.success",
            StatCounter::BrokerFailure => "kafka.failure",
        }
    }
}

} // verus!
