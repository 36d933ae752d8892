//! State and rules of a desktop chat client for the WeeChat relay.
use vstd::prelude::*;

pub mod ansi;
pub mod arrivals;
pub mod backend;
pub mod collections;
pub mod completion;
pub mod composer;
pub mod connection;
pub mod content;
pub mod dates;
pub mod editing;
pub mod encoding;
pub mod events;
pub mod fonts;
pub mod history;
pub mod identity;
pub mod isolation;
pub mod json;
pub mod keys;
pub mod kwallet;
pub mod laws;
pub mod limits;
pub mod lines;
pub mod markers;
pub mod media;
pub mod mentions;
pub mod models;
pub mod navigate;
pub mod notify;
pub mod order;
pub mod panels;
pub mod people;
pub mod preview;
pub mod relay_buffers;
pub mod relay_counts;
pub mod relay_details;
pub mod relay_lines;
pub mod rooms;
pub mod secure_storage;
pub mod seqs;
pub mod session;
pub mod share;
pub mod sidebar;
pub mod startup;
pub mod state;
pub mod tags;
pub mod text;
pub mod threads;
pub mod time;
pub mod timeline;
pub mod uploads;
pub mod urls;

verus! {

} // verus!
