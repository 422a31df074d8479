//! The detection engine: metrics with thresholds, reported values, and
//! anomaly detection (a value strictly above its threshold).
//!
//! Every operation takes the caller as an argument where the check needs it,
//! and records the events it emits in the contract's event log.
use vstd::prelude::*;

use crate::address::{Address, InterfaceId, zero_address};
use crate::abi::{AbiParam, encode_error, error_encoding, params_bytes, selector};
use crate::table::Table;
use crate::word::{U256, sat_add, word};

verus! {

/// Errors of detection engine operations.
#[derive(Clone, Copy, Debug, PartialEq, Eq)]
pub enum Error {
    /// The caller is not the owner.
    UnauthorizedCaller(Address),
    /// No metric has this identifier.
    MetricNotFound { id: U256 },
    /// The threshold is invalid.
    InvalidThreshold { value: U256 },
    /// A value exceeds its threshold.
    ThresholdExceeded { current: U256, threshold: U256 },
    /// The owner address is invalid.
    InvalidOwner(Address),
    /// The caller lacks the role.
    InsufficientRole { caller: Address, required_role: u8 },
    /// The role value is not a valid role.
    InvalidRole(u8),
    /// An account may not revoke its own roles.
    CannotRevokeOwnRole(Address),
    /// No pattern has this identifier.
    PatternNotFound { id: U256 },
    /// A pattern with this identifier exists.
    PatternAlreadyExists { id: U256 },
    /// The pattern type bitmask is invalid.
    InvalidPatternType { pattern_type: U256 },
    /// The severity exceeds the maximum.
    InvalidSeverity { severity: U256 },
    /// The pattern is inactive.
    PatternInactive { id: U256 },
    /// No analysis has this identifier.
    AnalysisNotFound { id: U256 },
    /// The analysis input is invalid.
    InvalidAnalysisInput,
    /// The address is already whitelisted.
    AddressAlreadyWhitelisted(Address),
    /// The address is not whitelisted.
    AddressNotWhitelisted(Address),
    /// The address is the zero address.
    InvalidAddress(Address),
    /// The threshold configuration value is invalid.
    InvalidThresholdValue { value: U256 },
    /// The batch is too large.
    BatchSizeTooLarge { size: U256, max: U256 },
    /// The interface is not supported.
    UnsupportedInterface(InterfaceId),
}

/// Events emitted by the detection engine.
#[derive(Clone, Copy, Debug, PartialEq, Eq)]
pub enum DetectionEngineEvent {
    MetricRegistered { id: U256, threshold: U256 },
    MetricReported { id: U256, value: U256 },
    AnomalyDetected { id: U256, current: U256, threshold: U256 },
    OwnershipTransferred { previous_owner: Address, new_owner: Address },
}

/// The model of a detection engine's storage and event log.
#[verifier::ext_equal]
pub struct DetectionEngineState {
    pub owner: Address,
    pub thresholds: Map<U256, U256>,
    pub current_values: Map<U256, U256>,
    pub metric_count: U256,
    pub events: Seq<DetectionEngineEvent>,
}

/// A value is an anomaly when it is strictly above its threshold.
pub open spec fn spec_is_anomaly(value: U256, threshold: U256) -> bool {
    value.value() > threshold.value()
}

/// Whether `value` is an anomaly against `threshold`: strictly above it.
pub fn is_anomaly(value: U256, threshold: U256) -> (r: bool)
    ensures
        r == spec_is_anomaly(value, threshold),
{
    value.gt(&threshold)
}

/// A mutating operation returned `r` and left `new` where the model gave `out`.
pub open spec fn applied<T>(
    old: DetectionEngineState,
    new: DetectionEngineState,
    r: Result<T, Error>,
    out: Result<DetectionEngineState, Error>,
) -> bool {
    match out {
        Ok(s) => r is Ok && new == s,
        Err(e) => r matches Err(e2) && e2 == e && new == old,
    }
}

impl DetectionEngineState {
    /// The threshold of a metric (0 where none was written).
    pub open spec fn threshold_of(self, id: U256) -> U256 {
        if self.thresholds.contains_key(id) {
            self.thresholds[id]
        } else {
            word(0)
        }
    }

    /// The current value of a metric (0 where none was reported).
    pub open spec fn value_of(self, id: U256) -> U256 {
        if self.current_values.contains_key(id) {
            self.current_values[id]
        } else {
            word(0)
        }
    }

    /// The state with one more event.
    pub open spec fn emit(self, e: DetectionEngineEvent) -> DetectionEngineState {
        DetectionEngineState { events: self.events.push(e), ..self }
    }

    /// The storage of a fresh deployment: all zero.
    pub open spec fn fresh() -> DetectionEngineState {
        DetectionEngineState {
            owner: zero_address(),
            thresholds: Map::empty(),
            current_values: Map::empty(),
            metric_count: word(0),
            events: Seq::empty(),
        }
    }

    /// `init`: the first caller becomes the owner.
    pub open spec fn init_outcome(self, caller: Address) -> Result<DetectionEngineState, Error> {
        if !self.owner.spec_is_zero() {
            Err(Error::InvalidOwner(self.owner))
        } else {
            Ok(DetectionEngineState { owner: caller, ..self })
        }
    }

    /// Whether a metric is registered: a threshold was set for it.
    pub open spec fn is_registered(self, id: U256) -> bool {
        self.thresholds.contains_key(id)
    }

    /// `register_metric`: the owner sets a metric's threshold; the metric
    /// count grows by one (capped at the largest word), also where the metric
    /// existed.
    pub open spec fn register_metric_outcome(self, caller: Address, id: U256, threshold: U256) -> Result<
        DetectionEngineState,
        Error,
    > {
        if caller != self.owner {
            Err(Error::UnauthorizedCaller(caller))
        } else {
            Ok(
                DetectionEngineState {
                    thresholds: self.thresholds.insert(id, threshold),
                    metric_count: word(sat_add(self.metric_count.value(), 1)),
                    ..self
                }.emit(DetectionEngineEvent::MetricRegistered { id, threshold }),
            )
        }
    }

    /// `report_metric`: anyone sets the current value of a registered
    /// metric; a value above the threshold also emits an anomaly event.
    pub open spec fn report_metric_outcome(self, id: U256, value: U256) -> Result<
        DetectionEngineState,
        Error,
    > {
        if !self.is_registered(id) {
            Err(Error::MetricNotFound { id })
        } else {
            let threshold = self.threshold_of(id);
            let s = DetectionEngineState {
                current_values: self.current_values.insert(id, value),
                ..self
            }.emit(DetectionEngineEvent::MetricReported { id, value });
            if spec_is_anomaly(value, threshold) {
                Ok(s.emit(DetectionEngineEvent::AnomalyDetected { id, current: value, threshold }))
            } else {
                Ok(s)
            }
        }
    }

    /// `check_anomaly`: whether the current value of a registered metric is
    /// above its threshold.
    pub open spec fn anomaly_of(self, id: U256) -> Result<bool, Error> {
        if !self.is_registered(id) {
            Err(Error::MetricNotFound { id })
        } else {
            Ok(spec_is_anomaly(self.value_of(id), self.threshold_of(id)))
        }
    }

    /// `transfer_ownership`.
    pub open spec fn transfer_ownership_outcome(self, caller: Address, new_owner: Address) -> Result<
        DetectionEngineState,
        Error,
    > {
        if caller != self.owner {
            Err(Error::UnauthorizedCaller(caller))
        } else if new_owner.spec_is_zero() {
            Err(Error::InvalidOwner(new_owner))
        } else {
            Ok(
                DetectionEngineState { owner: new_owner, ..self }.emit(
                    DetectionEngineEvent::OwnershipTransferred {
                        previous_owner: self.owner,
                        new_owner,
                    },
                ),
            )
        }
    }
}

/// A detection engine contract: its storage and the events it emitted.
pub struct DetectionEngine {
    owner: Address,
    thresholds: Table<U256, U256>,
    current_values: Table<U256, U256>,
    metric_count: U256,
    events: Vec<DetectionEngineEvent>,
}

impl View for DetectionEngine {
    type V = DetectionEngineState;

    closed spec fn view(&self) -> DetectionEngineState {
        DetectionEngineState {
            owner: self.owner,
            thresholds: self.thresholds.view(),
            current_values: self.current_values.view(),
            metric_count: self.metric_count,
            events: self.events@,
        }
    }
}

impl DetectionEngine {
    /// Well-formedness: the tables are well formed.
    pub closed spec fn wf(&self) -> bool {
        self.thresholds.wf() && self.current_values.wf()
    }

    /// The storage of a fresh deployment, before `init`.
    pub fn new() -> (r: DetectionEngine)
        ensures
            r.wf(),
            r@ == DetectionEngineState::fresh(),
    {
        let r = DetectionEngine {
            owner: Address::zero(),
            thresholds: Table::new(),
            current_values: Table::new(),
            metric_count: U256::zero(),
            events: Vec::new(),
        };
        proof {
            assert(r@ =~= DetectionEngineState::fresh());
        }
        r
    }

    /// The events emitted so far, oldest first.
    pub fn events(&self) -> (r: &Vec<DetectionEngineEvent>)
        ensures
            r@ == self@.events,
    {
        &self.events
    }

    /// Initializes the contract: the caller becomes the owner.
    pub fn init(&mut self, caller: &Address) -> (r: Result<(), Error>)
        requires
            old(self).wf(),
        ensures
            final(self).wf(),
            applied(old(self)@, final(self)@, r, old(self)@.init_outcome(*caller)),
    {
        if !self.owner.is_zero() {
            return Err(Error::InvalidOwner(self.owner));
        }
        self.owner = *caller;
        proof {
            assert(self@ =~= old(self)@.init_outcome(*caller)->Ok_0);
        }
        Ok(())
    }

    /// Sets the threshold of a metric (owner only).
    pub fn register_metric(&mut self, caller: &Address, id: U256, threshold: U256) -> (r: Result<
        (),
        Error,
    >)
        requires
            old(self).wf(),
        ensures
            final(self).wf(),
            applied(
                old(self)@,
                final(self)@,
                r,
                old(self)@.register_metric_outcome(*caller, id, threshold),
            ),
    {
        if !caller.same(&self.owner) {
            return Err(Error::UnauthorizedCaller(*caller));
        }
        self.thresholds.set(id, threshold);
        self.metric_count = self.metric_count.saturating_add(&U256::from_u64(1));
        self.events.push(DetectionEngineEvent::MetricRegistered { id, threshold });
        proof {
            assert(self@ =~= old(self)@.register_metric_outcome(*caller, id, threshold)->Ok_0);
        }
        Ok(())
    }

    fn threshold_of(&self, id: &U256) -> (r: U256)
        requires
            self.wf(),
        ensures
            r == self@.threshold_of(*id),
    {
        match self.thresholds.get(id) {
            Some(v) => v,
            None => U256::zero(),
        }
    }

    fn value_of(&self, id: &U256) -> (r: U256)
        requires
            self.wf(),
        ensures
            r == self@.value_of(*id),
    {
        match self.current_values.get(id) {
            Some(v) => v,
            None => U256::zero(),
        }
    }

    /// Reports the current value of a registered metric; emits an anomaly
    /// event where the value is above the threshold.
    pub fn report_metric(&mut self, id: U256, value: U256) -> (r: Result<(), Error>)
        requires
            old(self).wf(),
        ensures
            final(self).wf(),
            applied(old(self)@, final(self)@, r, old(self)@.report_metric_outcome(id, value)),
    {
        let threshold = match self.thresholds.get(&id) {
            Some(t) => t,
            None => {
                return Err(Error::MetricNotFound { id });
            },
        };
        self.current_values.set(id, value);
        self.events.push(DetectionEngineEvent::MetricReported { id, value });
        if is_anomaly(value, threshold) {
            self.events.push(DetectionEngineEvent::AnomalyDetected { id, current: value, threshold });
        }
        proof {
            assert(self@ =~= old(self)@.report_metric_outcome(id, value)->Ok_0);
        }
        Ok(())
    }

    /// Whether a metric's current value is above its threshold.
    pub fn check_anomaly(&self, id: U256) -> (r: Result<bool, Error>)
        requires
            self.wf(),
        ensures
            r == self@.anomaly_of(id),
    {
        let threshold = match self.thresholds.get(&id) {
            Some(t) => t,
            None => {
                return Err(Error::MetricNotFound { id });
            },
        };
        let current = self.value_of(&id);
        Ok(is_anomaly(current, threshold))
    }

    /// The threshold of a metric (0 where none).
    pub fn get_threshold(&self, id: U256) -> (r: U256)
        requires
            self.wf(),
        ensures
            r == self@.threshold_of(id),
    {
        self.threshold_of(&id)
    }

    /// The current value of a metric (0 where none).
    pub fn get_current_value(&self, id: U256) -> (r: U256)
        requires
            self.wf(),
        ensures
            r == self@.value_of(id),
    {
        self.value_of(&id)
    }

    /// The number of metric registrations.
    pub fn get_metric_count(&self) -> (r: U256)
        ensures
            r == self@.metric_count,
    {
        self.metric_count
    }

    /// The owner.
    pub fn owner(&self) -> (r: Address)
        ensures
            r == self@.owner,
    {
        self.owner
    }

    /// Hands the contract to a new, non-zero owner (owner only).
    pub fn transfer_ownership(&mut self, caller: &Address, new_owner: Address) -> (r: Result<(), Error>)
        requires
            old(self).wf(),
        ensures
            final(self).wf(),
            applied(
                old(self)@,
                final(self)@,
                r,
                old(self)@.transfer_ownership_outcome(*caller, new_owner),
            ),
    {
        if !caller.same(&self.owner) {
            return Err(Error::UnauthorizedCaller(*caller));
        }
        if new_owner.is_zero() {
            return Err(Error::InvalidOwner(new_owner));
        }
        let previous_owner = self.owner;
        self.owner = new_owner;
        self.events.push(DetectionEngineEvent::OwnershipTransferred { previous_owner, new_owner });
        proof {
            assert(self@ =~= old(self)@.transfer_ownership_outcome(*caller, new_owner)->Ok_0);
        }
        Ok(())
    }
}


impl Error {
    /// The Solidity signature of the error.
    pub open spec fn signature(self) -> Seq<char> {
        match self {
            Error::UnauthorizedCaller(a) => "UnauthorizedCaller(address)"@,
            Error::MetricNotFound { id } => "MetricNotFound(uint256)"@,
            Error::InvalidThreshold { value } => "InvalidThreshold(uint256)"@,
            Error::ThresholdExceeded { current, threshold } => {
                "ThresholdExceeded(uint256,uint256)"@
            },
            Error::InvalidOwner(a) => "InvalidOwner(address)"@,
            Error::InsufficientRole { caller, required_role } => "InsufficientRole(address,uint8)"@,
            Error::InvalidRole(r) => "InvalidRole(uint8)"@,
            Error::CannotRevokeOwnRole(a) => "CannotRevokeOwnRole(address)"@,
            Error::PatternNotFound { id } => "PatternNotFound(uint256)"@,
            Error::PatternAlreadyExists { id } => "PatternAlreadyExists(uint256)"@,
            Error::InvalidPatternType { pattern_type } => "InvalidPatternType(uint256)"@,
            Error::InvalidSeverity { severity } => "InvalidSeverity(uint256)"@,
            Error::PatternInactive { id } => "PatternInactive(uint256)"@,
            Error::AnalysisNotFound { id } => "AnalysisNotFound(uint256)"@,
            Error::InvalidAnalysisInput => "InvalidAnalysisInput()"@,
            Error::AddressAlreadyWhitelisted(a) => "AddressAlreadyWhitelisted(address)"@,
            Error::AddressNotWhitelisted(a) => "AddressNotWhitelisted(address)"@,
            Error::InvalidAddress(a) => "InvalidAddress(address)"@,
            Error::InvalidThresholdValue { value } => "InvalidThresholdValue(uint256)"@,
            Error::BatchSizeTooLarge { size, max } => "BatchSizeTooLarge(uint256,uint256)"@,
            Error::UnsupportedInterface(b) => "UnsupportedInterface(bytes4)"@,
        }
    }

    /// The ABI parameters of the error, in declaration order.
    pub open spec fn abi_params(self) -> Seq<AbiParam> {
        match self {
            Error::UnauthorizedCaller(a) => seq![AbiParam::Address(a)],
            Error::MetricNotFound { id } => seq![AbiParam::Uint256(id)],
            Error::InvalidThreshold { value } => seq![AbiParam::Uint256(value)],
            Error::ThresholdExceeded { current, threshold } => seq![
                AbiParam::Uint256(current),
                AbiParam::Uint256(threshold),
            ],
            Error::InvalidOwner(a) => seq![AbiParam::Address(a)],
            Error::InsufficientRole { caller, required_role } => seq![
                AbiParam::Address(caller),
                AbiParam::Uint8(required_role),
            ],
            Error::InvalidRole(r) => seq![AbiParam::Uint8(r)],
            Error::CannotRevokeOwnRole(a) => seq![AbiParam::Address(a)],
            Error::PatternNotFound { id } => seq![AbiParam::Uint256(id)],
            Error::PatternAlreadyExists { id } => seq![AbiParam::Uint256(id)],
            Error::InvalidPatternType { pattern_type } => seq![AbiParam::Uint256(pattern_type)],
            Error::InvalidSeverity { severity } => seq![AbiParam::Uint256(severity)],
            Error::PatternInactive { id } => seq![AbiParam::Uint256(id)],
            Error::AnalysisNotFound { id } => seq![AbiParam::Uint256(id)],
            Error::InvalidAnalysisInput => seq![],
            Error::AddressAlreadyWhitelisted(a) => seq![AbiParam::Address(a)],
            Error::AddressNotWhitelisted(a) => seq![AbiParam::Address(a)],
            Error::InvalidAddress(a) => seq![AbiParam::Address(a)],
            Error::InvalidThresholdValue { value } => seq![AbiParam::Uint256(value)],
            Error::BatchSizeTooLarge { size, max } => seq![
                AbiParam::Uint256(size),
                AbiParam::Uint256(max),
            ],
            Error::UnsupportedInterface(b) => seq![AbiParam::Bytes4(b)],
        }
    }

    fn abi_parts(&self) -> (r: (&'static str, Vec<AbiParam>))
        ensures
            r.0@ == self.signature(),
            r.1@ == self.abi_params(),
    {
        match self {
            Error::UnauthorizedCaller(a) => (
                "UnauthorizedCaller(address)",
                vec![
                    AbiParam::Address(*a),
                ],
            ),
            Error::MetricNotFound { id } => (
                "MetricNotFound(uint256)",
                vec![
                    AbiParam::Uint256(*id),
                ],
            ),
            Error::InvalidThreshold { value } => (
                "InvalidThreshold(uint256)",
                vec![
                    AbiParam::Uint256(*value),
                ],
            ),
            Error::ThresholdExceeded { current, threshold } => (
                "ThresholdExceeded(uint256,uint256)",
                vec![
                    AbiParam::Uint256(*current),
                    AbiParam::Uint256(*threshold),
                ],
            ),
            Error::InvalidOwner(a) => ("InvalidOwner(address)", vec![AbiParam::Address(*a)]),
            Error::InsufficientRole { caller, required_role } => (
                "InsufficientRole(address,uint8)",
                vec![
                    AbiParam::Address(*caller),
                    AbiParam::Uint8(*required_role),
                ],
            ),
            Error::InvalidRole(r) => ("InvalidRole(uint8)", vec![AbiParam::Uint8(*r)]),
            Error::CannotRevokeOwnRole(a) => (
                "CannotRevokeOwnRole(address)",
                vec![
                    AbiParam::Address(*a),
                ],
            ),
            Error::PatternNotFound { id } => (
                "PatternNotFound(uint256)",
                vec![
                    AbiParam::Uint256(*id),
                ],
            ),
            Error::PatternAlreadyExists { id } => (
                "PatternAlreadyExists(uint256)",
                vec![
                    AbiParam::Uint256(*id),
                ],
            ),
            Error::InvalidPatternType { pattern_type } => (
                "InvalidPatternType(uint256)",
                vec![
                    AbiParam::Uint256(*pattern_type),
                ],
            ),
            Error::InvalidSeverity { severity } => (
                "InvalidSeverity(uint256)",
                vec![
                    AbiParam::Uint256(*severity),
                ],
            ),
            Error::PatternInactive { id } => (
                "PatternInactive(uint256)",
                vec![
                    AbiParam::Uint256(*id),
                ],
            ),
            Error::AnalysisNotFound { id } => (
                "AnalysisNotFound(uint256)",
                vec![
                    AbiParam::Uint256(*id),
                ],
            ),
            Error::InvalidAnalysisInput => ("InvalidAnalysisInput()", Vec::new()),
            Error::AddressAlreadyWhitelisted(a) => (
                "AddressAlreadyWhitelisted(address)",
                vec![
                    AbiParam::Address(*a),
                ],
            ),
            Error::AddressNotWhitelisted(a) => (
                "AddressNotWhitelisted(address)",
                vec![
                    AbiParam::Address(*a),
                ],
            ),
            Error::InvalidAddress(a) => ("InvalidAddress(address)", vec![AbiParam::Address(*a)]),
            Error::InvalidThresholdValue { value } => (
                "InvalidThresholdValue(uint256)",
                vec![
                    AbiParam::Uint256(*value),
                ],
            ),
            Error::BatchSizeTooLarge { size, max } => (
                "BatchSizeTooLarge(uint256,uint256)",
                vec![
                    AbiParam::Uint256(*size),
                    AbiParam::Uint256(*max),
                ],
            ),
            Error::UnsupportedInterface(b) => (
                "UnsupportedInterface(bytes4)",
                vec![
                    AbiParam::Bytes4(*b),
                ],
            ),
        }
    }

    /// The ABI encoding of the error: the selector of its signature, then one
    /// 32-byte word per parameter.
    pub fn abi_encode(&self) -> (r: Vec<u8>)
        ensures
            r@ == error_encoding(self.signature(), self.abi_params()),
            r@.len() == 4 + 32 * self.abi_params().len(),
            r@.take(4) == selector(self.signature()),
            r@.skip(4) == params_bytes(self.abi_params()),
    {
        let (signature, params) = self.abi_parts();
        encode_error(signature, &params)
    }
}

} // verus!
