//! The actions that the command line selects, as plain values.
use vstd::prelude::*;

verus! {

/// How command output is printed.
pub enum OutputFormat {
    /// Pretty-printed JSON.
    Json,
    /// Human-readable text.
    Text,
}

/// Coin actions.
pub enum CoinAction {
    /// Get current coin count
    Get,
    /// Set coin count
    SetAmount { amount: u32 },
    /// Insert coins (one unless told otherwise)
    Insert { amount: u32 },
}

/// Screenshot capture actions.
pub enum CaptureAction {
    /// List available screen indices
    GetScreens,
    /// Capture a JPEG screenshot
    GetJpg {
        /// Screen index
        screen: u32,
        /// JPEG quality (1-100)
        quality: u32,
        /// Image size divisor
        divide: u32,
        /// Output file path (auto-generated if omitted)
        output_path: Option<String>,
        /// Output folder (file is auto-named with timestamp)
        output_folder: Option<String>,
        /// Output base64 to stdout instead of saving to file
        base64: bool,
    },
}

/// System information queries.
pub enum InfoAction {
    /// AVS system info
    Avs,
    /// Launcher info
    Launcher,
    /// Memory usage info
    Memory,
}

/// Card actions.
pub enum CardAction {
    /// Insert a virtual card
    Insert { unit: u32, card_id: String },
}

/// Keypad actions.
pub enum KeypadsAction {
    /// Get keypad state
    Get { keypad: u32 },
    /// Write input to keypad
    Write { keypad: u32, input: String },
    /// Set individual key values
    SetKeys { keypad: u32, keys: Vec<String> },
}

/// Light actions.
pub enum LightsAction {
    /// Read light states (all if no names are given)
    Read { names: Vec<String> },
}

/// Process lifecycle actions.
pub enum ControlAction {
    /// Raise a signal
    Raise { signal: String },
    /// Exit the process with a code
    Exit { code: i32 },
    /// Restart the process
    Restart,
    /// Shut down the machine
    Shutdown,
    /// Reboot the machine
    Reboot,
}

} // verus!
