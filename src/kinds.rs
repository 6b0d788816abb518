use vstd::prelude::*;

verus! {

/// Leader trade signal (encrypted).
pub const KIND_TRADE_SIGNAL: u16 = 30931;

/// Follower copy-trade intent (encrypted).
pub const KIND_COPYTRADE_INTENT: u16 = 30932;

/// Bot liveness beacon (plaintext).
pub const KIND_HEARTBEAT: u16 = 30933;

/// Post-execution settlement report (encrypted).
pub const KIND_EXECUTION_REPORT: u16 = 30934;

/// Bot registration (plaintext JSON).
pub const KIND_AGENT_REGISTER: u16 = 30935;

/// Platform key rotation notice.
pub const KIND_PLATFORM_KEY_ROTATION: u16 = 39990;

/// The closed set of message kinds the relayer understands.
#[derive(Clone, Copy, Debug, PartialEq, Eq, Structural)]
pub enum MessageKind {
    TradeSignal,
    CopyTradeIntent,
    Heartbeat,
    ExecutionReport,
    AgentRegister,
    PlatformKeyRotation,
    Unknown,
}

pub open spec fn kind_of(k: u16) -> MessageKind {
    if k == KIND_TRADE_SIGNAL {
        MessageKind::TradeSignal
    } else if k == KIND_COPYTRADE_INTENT {
        MessageKind::CopyTradeIntent
    } else if k == KIND_HEARTBEAT {
        MessageKind::Heartbeat
    } else if k == KIND_EXECUTION_REPORT {
        MessageKind::ExecutionReport
    } else if k == KIND_AGENT_REGISTER {
        MessageKind::AgentRegister
    } else if k == KIND_PLATFORM_KEY_ROTATION {
        MessageKind::PlatformKeyRotation
    } else {
        MessageKind::Unknown
    }
}

/// Maps a numeric kind onto the closed set of message kinds.
pub fn classify_kind(k: u16) -> (r: MessageKind)
    ensures
        r == kind_of(k),
{
    if k == KIND_TRADE_SIGNAL {
        MessageKind::TradeSignal
    } else if k == KIND_COPYTRADE_INTENT {
        MessageKind::CopyTradeIntent
    } else if k == KIND_HEARTBEAT {
        MessageKind::Heartbeat
    } else if k == KIND_EXECUTION_REPORT {
        MessageKind::ExecutionReport
    } else if k == KIND_AGENT_REGISTER {
        MessageKind::AgentRegister
    } else if k == KIND_PLATFORM_KEY_ROTATION {
        MessageKind::PlatformKeyRotation
    } else {
        MessageKind::Unknown
    }
}

} // verus!
