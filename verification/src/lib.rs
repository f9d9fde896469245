//! Verified core of a remote desktop (RDP / VNC) client: keyboard mapping,
//! input event construction, session bookkeeping, pixel blitting, DER
//! parsing and connection-file handling.

pub mod callback;
pub mod config;
pub mod der;
pub mod desktop;
pub mod keys;
pub mod numbers;
pub mod pixels;
pub mod text;
pub mod frame;
pub mod input;
pub mod server_key;
pub mod session;
pub mod remote_input;
pub mod capture;
pub mod tabs;
pub mod connection;
pub mod bitmap_codec;
pub mod round_trip;
pub mod session_file;
pub mod progressive;
pub mod debug_target;
