//! How a request to the gateway can fail, and what the commands of the
//! desktop shell report when they fail.

use crate::format::WireFormat;
use crate::rules::template::{CompileFault, RuleCompileError, RuleExecutionError, RunFault};
use vstd::prelude::*;

verus! {

#[derive(Clone, Copy, Debug, PartialEq, Eq, Structural)]
pub enum IpcErrorKind {
    /// The caller's input is not acceptable.
    Validation,
    /// Something the caller asked for does not exist.
    NotFound,
    /// Anything else that went wrong on the way.
    Internal,
}

#[derive(Debug, PartialEq, Eq)]
pub struct IpcError {
    pub kind: IpcErrorKind,
    pub message: String,
}

impl IpcError {
    pub fn validation(message: &str) -> (e: IpcError)
        ensures
            e.kind == IpcErrorKind::Validation,
            e.message@ == message@,
    {
        IpcError { kind: IpcErrorKind::Validation, message: message.to_owned() }
    }

    pub fn not_found(message: &str) -> (e: IpcError)
        ensures
            e.kind == IpcErrorKind::NotFound,
            e.message@ == message@,
    {
        IpcError { kind: IpcErrorKind::NotFound, message: message.to_owned() }
    }

    pub fn internal(message: &str) -> (e: IpcError)
        ensures
            e.kind == IpcErrorKind::Internal,
            e.message@ == message@,
    {
        IpcError { kind: IpcErrorKind::Internal, message: message.to_owned() }
    }
}

/// How a request to the gateway can fail.
#[derive(Debug, PartialEq, Eq)]
pub enum GatewayError {
    /// No credential, or none that an enabled token has.
    Unauthorized,
    /// The token has used what it may use.
    QuotaExceeded,
    /// No mapping serves the model asked for; the name is empty where the
    /// body names no model.
    UnknownModel(String),
    /// The channel is not there or has no enabled key.
    NoEnabledKey(String),
    /// The channel is held back after failures.
    CircuitOpen(String),
    /// No rule in force turns the one format into the other.
    NoConversionRule { source: WireFormat, target: WireFormat },
    /// A template is refused.
    RuleCompile(RuleCompileError),
    /// A template could not reshape a body.
    RuleExecution(RuleExecutionError),
    /// The upstream could not be reached, or answered with this status.
    Upstream { status: Option<u16>, message: String },
    /// The store failed.
    Store(String),
}

pub ghost enum GatewayFault {
    Unauthorized,
    QuotaExceeded,
    UnknownModel(Seq<char>),
    NoEnabledKey(Seq<char>),
    CircuitOpen(Seq<char>),
    NoConversionRule { source: WireFormat, target: WireFormat },
    RuleCompile(CompileFault),
    RuleExecution(RunFault),
    Upstream { status: Option<u16>, message: Seq<char> },
    Store(Seq<char>),
}

impl View for GatewayError {
    type V = GatewayFault;

    open spec fn view(&self) -> GatewayFault {
        match self {
            GatewayError::Unauthorized => GatewayFault::Unauthorized,
            GatewayError::QuotaExceeded => GatewayFault::QuotaExceeded,
            GatewayError::UnknownModel(m) => GatewayFault::UnknownModel(m@),
            GatewayError::NoEnabledKey(c) => GatewayFault::NoEnabledKey(c@),
            GatewayError::CircuitOpen(c) => GatewayFault::CircuitOpen(c@),
            GatewayError::NoConversionRule { source, target } => GatewayFault::NoConversionRule {
                source: *source,
                target: *target,
            },
            GatewayError::RuleCompile(e) => GatewayFault::RuleCompile(e@),
            GatewayError::RuleExecution(e) => GatewayFault::RuleExecution(e@),
            GatewayError::Upstream { status, message } => GatewayFault::Upstream {
                status: *status,
                message: message@,
            },
            GatewayError::Store(m) => GatewayFault::Store(m@),
        }
    }
}

/// Whether a failure tells of the upstream's health: only a failure of the
/// upstream itself does.
pub open spec fn is_upstream_fault(fault: GatewayFault) -> bool {
    fault is Upstream
}

/// Whether a failure ends a request before any upstream is called.
pub open spec fn is_early_fault(fault: GatewayFault) -> bool {
    fault is Unauthorized || fault is QuotaExceeded || fault is UnknownModel || fault is NoEnabledKey
        || fault is CircuitOpen || fault is NoConversionRule
}

/// The name of a kind of failure.
pub open spec fn fault_name(fault: GatewayFault) -> Seq<char> {
    match fault {
        GatewayFault::Unauthorized => "Unauthorized"@,
        GatewayFault::QuotaExceeded => "QuotaExceeded"@,
        GatewayFault::UnknownModel(_) => "UnknownModel"@,
        GatewayFault::NoEnabledKey(_) => "NoEnabledKey"@,
        GatewayFault::CircuitOpen(_) => "CircuitOpen"@,
        GatewayFault::NoConversionRule { .. } => "NoConversionRule"@,
        GatewayFault::RuleCompile(_) => "RuleCompileError"@,
        GatewayFault::RuleExecution(_) => "RuleExecutionError"@,
        GatewayFault::Upstream { .. } => "UpstreamError"@,
        GatewayFault::Store(_) => "StoreError"@,
    }
}

/// The HTTP status that goes with a kind of failure.
pub open spec fn fault_status(fault: GatewayFault) -> u16 {
    match fault {
        GatewayFault::Unauthorized => 401,
        GatewayFault::QuotaExceeded => 429,
        GatewayFault::UnknownModel(_) => 404,
        GatewayFault::NoEnabledKey(_) => 503,
        GatewayFault::CircuitOpen(_) => 503,
        GatewayFault::NoConversionRule { .. } => 501,
        GatewayFault::RuleCompile(_) => 500,
        GatewayFault::RuleExecution(_) => 500,
        GatewayFault::Upstream { .. } => 502,
        GatewayFault::Store(_) => 500,
    }
}

impl GatewayError {
    /// The name of this kind of failure.
    pub fn name(&self) -> (r: &'static str)
        ensures
            r@ == fault_name(self@),
    {
        match self {
            GatewayError::Unauthorized => "Unauthorized",
            GatewayError::QuotaExceeded => "QuotaExceeded",
            GatewayError::UnknownModel(_) => "UnknownModel",
            GatewayError::NoEnabledKey(_) => "NoEnabledKey",
            GatewayError::CircuitOpen(_) => "CircuitOpen",
            GatewayError::NoConversionRule { .. } => "NoConversionRule",
            GatewayError::RuleCompile(_) => "RuleCompileError",
            GatewayError::RuleExecution(_) => "RuleExecutionError",
            GatewayError::Upstream { .. } => "UpstreamError",
            GatewayError::Store(_) => "StoreError",
        }
    }

    /// The HTTP status that goes with this kind of failure.
    pub fn status(&self) -> (r: u16)
        ensures
            r == fault_status(self@),
    {
        match self {
            GatewayError::Unauthorized => 401,
            GatewayError::QuotaExceeded => 429,
            GatewayError::UnknownModel(_) => 404,
            GatewayError::NoEnabledKey(_) => 503,
            GatewayError::CircuitOpen(_) => 503,
            GatewayError::NoConversionRule { .. } => 501,
            GatewayError::RuleCompile(_) => 500,
            GatewayError::RuleExecution(_) => 500,
            GatewayError::Upstream { .. } => 502,
            GatewayError::Store(_) => 500,
        }
    }

    /// Whether this failure counts against the channel's breaker.
    pub fn counts_against_breaker(&self) -> (r: bool)
        ensures
            r == is_upstream_fault(self@),
    {
        match self {
            GatewayError::Upstream { .. } => true,
            _ => false,
        }
    }
}

} // verus!
