//! `irig_asio`: the verified core of a Windows ASIO driver for the IK
//! Multimedia iRig USB.
//!
//! The driver's decisions, tables, parsers and state machines live here, each
//! with a contract. Handles, threads, the registry and the floating-point
//! sample conversion are left to the surrounding program, which calls these
//! functions with plain values and carries out what they answer.

pub mod asio_com;
pub mod asio_driver;
pub mod buffer_manager;
pub mod com_server;
pub mod constants;
pub mod dll;
pub mod endpoint;
pub mod guid;
pub mod installer;
pub mod ks_device;
pub mod ks_engine;
pub mod ks_pin;
pub mod ks_property;
pub mod ks_stream;
pub mod le;
pub mod pcm;
pub mod probe;
pub mod registration;
pub mod sample_rate;
pub mod text;
pub mod utf16;
pub mod wasapi_backend;
