//! Connection lifecycle states and their user-facing presentation.

use vstd::prelude::*;
use vstd::string::StringExecFns;

verus! {

/// Status indicator colors (0xRRGGBB), shared with the rendering layer.
pub const COLOR_DIM: u32 = 0x5c5855;
pub const COLOR_YELLOW: u32 = 0xc47a10;
pub const COLOR_GREEN: u32 = 0x1f9d55;
pub const COLOR_RED: u32 = 0xd93050;

/// The authoritative connection state, owned and mutated only by the
/// session controller.
#[derive(Clone, Debug)]
pub enum ConnectionState {
    Disconnected,
    Connecting,
    Connected,
    Disconnecting,
    Error(String),
}

impl ConnectionState {
    /// Short human-readable state label.
    pub fn label(&self) -> (r: String)
        ensures
            r@ == match self {
                ConnectionState::Disconnected => "Disconnected"@,
                ConnectionState::Connecting => "Connecting..."@,
                ConnectionState::Connected => "Connected"@,
                ConnectionState::Disconnecting => "Disconnecting..."@,
                ConnectionState::Error(message) => "Error: "@ + message@,
            },
    {
        match self {
            ConnectionState::Disconnected => String::from_str("Disconnected"),
            ConnectionState::Connecting => String::from_str("Connecting..."),
            ConnectionState::Connected => String::from_str("Connected"),
            ConnectionState::Disconnecting => String::from_str("Disconnecting..."),
            ConnectionState::Error(message) => {
                String::from_str("Error: ").concat(message.as_str())
            },
        }
    }

    /// Status indicator color for this state.
    pub fn color(&self) -> (r: u32)
        ensures
            r == match self {
                ConnectionState::Disconnected => COLOR_DIM,
                ConnectionState::Connecting => COLOR_YELLOW,
                ConnectionState::Connected => COLOR_GREEN,
                ConnectionState::Disconnecting => COLOR_YELLOW,
                ConnectionState::Error(_) => COLOR_RED,
            },
    {
        match self {
            ConnectionState::Disconnected => COLOR_DIM,
            ConnectionState::Connecting => COLOR_YELLOW,
            ConnectionState::Connected => COLOR_GREEN,
            ConnectionState::Disconnecting => COLOR_YELLOW,
            ConnectionState::Error(_) => COLOR_RED,
        }
    }

    pub fn is_connected(&self) -> (r: bool)
        ensures
            r == (self is Connected),
    {
        matches!(self, ConnectionState::Connected)
    }

    /// Busy states: a connect or disconnect is in flight.
    pub fn is_busy(&self) -> (r: bool)
        ensures
            r == (self is Connecting || self is Disconnecting),
    {
        matches!(self, ConnectionState::Connecting | ConnectionState::Disconnecting)
    }

    /// Active states: a session exists (or is being torn down).
    pub fn is_active(&self) -> (r: bool)
        ensures
            r == (self is Connecting || self is Connected || self is Disconnecting),
    {
        matches!(
            self,
            ConnectionState::Connecting | ConnectionState::Connected
                | ConnectionState::Disconnecting
        )
    }
}

} // verus!
