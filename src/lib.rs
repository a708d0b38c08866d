//! Control core for TCP alarm-input / relay-output devices that speak a
//! line-oriented AT dialect: frame parsing, reply correlation, input-change
//! detection and subscriber fan-out, all as a verified state machine that
//! leaves sockets and timers to its host.
pub mod text;
pub mod protocol;
pub mod frame;
pub mod pending;
pub mod subscribers;
pub mod inputs;
pub mod relay;

pub use protocol::{SystemTime, DailyEvent, CustomEvent, ReplyKey, Reply};
pub use frame::{Frame, parse_frame};
pub use pending::PendingTable;
pub use subscribers::SubscriberRegistry;
pub use inputs::{MAX_INPUTS, compute_mask};
pub use relay::{
    RelayActor, RelayStatus, RelayError, Phase, Action, Request, InputsSnapshot, GetSystemTime,
    SetSystemTime, GetInputs, GetOutput, SetOutput, GetOutputDailySchedule,
    SetOutputDailySchedule, ClearOutputDailySchedule, GetOutputCustomSchedule,
    SetOutputCustomSchedule, ClearOutputCustomSchedule, UnregisterForStatus, settle,
    optocoupler_level,
};
