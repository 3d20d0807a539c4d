//! Error codes, device constants and registry paths of the driver.

use vstd::prelude::*;

verus! {

// ---------------------------------------------------------------------------
// ASIO error codes
// ---------------------------------------------------------------------------

/// Operation completed successfully.
pub const ASE_OK: i32 = 0;

/// Hardware is malfunctioning.
pub const ASE_HW_FAILURE: i32 = -1000;

/// Not enough memory or system resources for the request.
pub const ASE_NO_MEMORY: i32 = -1001;

/// Invalid parameter.
pub const ASE_INVALID_PARAMETER: i32 = -1002;

/// The hardware does not take the parameter.
pub const ASE_HW_BAD_PARAMETER: i32 = -1003;

/// No clock sources available.
pub const ASE_NO_CLOCK_SOURCES: i32 = -1005;

/// What was asked for is not present.
pub const ASE_NOT_PRESENT: i32 = -1006;

// ---------------------------------------------------------------------------
// Device constants
// ---------------------------------------------------------------------------

/// USB Vendor ID for IK Multimedia.
pub const IRIG_VID: u32 = 0x1963;

/// USB Product ID for the iRig USB.
pub const IRIG_PID: u32 = 0x00C2;

/// Human-readable device name shown in DAWs.
pub const DRIVER_NAME: &'static str = "iRig USB ASIO (Rust)";

/// ASIO driver version reported to host applications.
pub const DRIVER_VERSION: i32 = 1;

// ---------------------------------------------------------------------------
// Audio format defaults
// ---------------------------------------------------------------------------

/// Default sample rate in Hz.
pub const DEFAULT_SAMPLE_RATE: u32 = 48_000;

/// The other sample rate, 44.1 kHz.
pub const SAMPLE_RATE_44100: u32 = 44_100;

/// Number of input channels (stereo).
pub const NUM_INPUT_CHANNELS: i32 = 2;

/// Number of output channels (stereo).
pub const NUM_OUTPUT_CHANNELS: i32 = 2;

/// Minimum ASIO buffer size in frames.
pub const BUFFER_SIZE_MIN: i32 = 64;

/// Preferred ASIO buffer size in frames (~5 ms @ 48 kHz).
pub const BUFFER_SIZE_PREFERRED: i32 = 256;

/// Maximum ASIO buffer size in frames.
pub const BUFFER_SIZE_MAX: i32 = 1024;

/// Granularity reported to the host; -1 stands for powers of two.
pub const BUFFER_SIZE_GRANULARITY: i32 = -1;

/// Sample format reported to the host: 32-bit IEEE float, ASIOSTFloat32LSB.
pub const ASIO_SAMPLE_TYPE: i32 = 19;

// ---------------------------------------------------------------------------
// HRESULT values
// ---------------------------------------------------------------------------

/// `S_OK`
pub const S_OK: i32 = 0;

/// `S_FALSE`
pub const S_FALSE: i32 = 1;

/// `E_NOTIMPL` (0x80004001)
pub const E_NOTIMPL: i32 = -0x7FFF_BFFF;

/// `E_NOINTERFACE` (0x80004002)
pub const E_NOINTERFACE: i32 = -0x7FFF_BFFE;

/// `E_UNEXPECTED` (0x8000FFFF)
pub const E_UNEXPECTED: i32 = -0x7FFF_0001;

/// `CLASS_E_NOAGGREGATION` (0x80040110)
pub const CLASS_E_NOAGGREGATION: i32 = -0x7FFB_FEF0;

/// `E_OUTOFMEMORY` (0x8007000E)
pub const E_OUTOFMEMORY: i32 = -0x7FF8_FFF2;

/// `HRESULT_FROM_WIN32(ERROR_IO_PENDING)` (0x800703E5)
pub const HRESULT_IO_PENDING: i32 = -0x7FF8_FC1B;

/// `ERROR_FILE_NOT_FOUND`
pub const ERROR_FILE_NOT_FOUND: u32 = 2;

/// `ERROR_IO_PENDING`
pub const ERROR_IO_PENDING: u32 = 997;

// ---------------------------------------------------------------------------
// Registry paths
// ---------------------------------------------------------------------------

/// Root key for all ASIO driver registrations.
pub const ASIO_REGISTRY_ROOT: &'static str = "SOFTWARE\\ASIO";

/// Subkey name for this specific driver.
pub const ASIO_REGISTRY_SUBKEY: &'static str = "SOFTWARE\\ASIO\\iRig USB ASIO (Rust)";

/// COM CLSID for the iRig ASIO driver. DAW projects refer to it, so it stays.
pub const DRIVER_CLSID_STR: &'static str = "{8F3D4A2B-E1C7-4F89-A0D3-6B2E9C1F5847}";

} // verus!
