//! Job orchestration and wire protocol for a media-encoding service.
//!
//! A job names a torrent, a preset and a subtitle. The coordinator admits it,
//! and three stage workers download the torrent, encode the video with the
//! subtitle burnt in, and upload the result. Each worker starts helper programs
//! and follows them by what they print: a handshake, then frames of escaped leaf
//! values under a negotiated key.
//!
//! The library holds the decisions and the texts; reading, writing and running
//! programs are left to its caller. The modules, leaves first:
//!
//! - `text`, `number`: characters, splitting and joining, decimal numerals;
//! - `codec`, `roundtrip`: escaping of leaf values, and that every value comes
//!   back from it;
//! - `frame`, `frame_laws`: trees of leaves on one line;
//! - `protocol`, `protocol_laws`, `driver`: sessions, handshakes, and the
//!   outcomes that frames report;
//! - `stage`, `job`, `store`, `messages`: the stage machine, jobs and their
//!   directories, rows, and what is shown to users;
//! - `worker`, `coordinator`, `coordinator_laws`: what the stage workers and the
//!   coordinator decide;
//! - `nyaaise`, `request`, `env`: torrent links, chat events, permissions;
//! - `p2p`, `curl`, `ffmpeg`, `probe`: the decisions of the helper programs.

pub mod codec;
pub mod coordinator;
pub mod coordinator_laws;
pub mod curl;
pub mod driver;
pub mod env;
pub mod ffmpeg;
pub mod frame;
pub mod frame_laws;
pub mod job;
pub mod messages;
pub mod number;
pub mod nyaaise;
pub mod p2p;
pub mod probe;
pub mod protocol;
pub mod protocol_laws;
pub mod request;
pub mod roundtrip;
pub mod stage;
pub mod store;
pub mod text;
pub mod worker;
