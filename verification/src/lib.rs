//! The logic of a controller for motorised sit-stand desks of the Idasen kind.
//!
//! Whatever talks to the outside is a state machine here: [`session`] carries out a
//! command, [`discover`] looks for a desk, [`connect`] connects to one and [`motion`]
//! talks to it. Each says what is to be done next and is told what came of it. The
//! laws in [`motion_laws`] and [`session_laws`], and those at the end of the other
//! modules, hold whatever the outside answers.
//!
//! Heights are doubles, but no machine arithmetic on doubles takes place: [`binary64`]
//! takes them apart and [`rounding`] does on integers what the hardware would do.
pub mod rounding;
pub mod binary64;
pub mod height;
pub mod error;
pub mod wire;
pub mod motion;
pub mod motion_laws;
pub mod connect;
pub mod discover;
pub mod config;
pub mod session;
pub mod session_laws;
pub mod words;
