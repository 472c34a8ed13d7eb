//! An AirPlay screen-mirroring sender: its protocols, ciphers and decisions.
pub mod audio;
pub mod bignum;
pub mod bits;
pub mod broadcast;
pub mod bytes;
pub mod capture;
pub mod cli;
pub mod config;
pub mod connect;
pub mod credentials;
pub mod crypto;
pub mod daemon;
pub mod daemonclient;
pub mod discovery;
pub mod fairplay;
pub mod fpemu;
pub mod info;
pub mod json;
pub mod latency;
pub mod mirror;
pub mod pairing;
pub mod paths;
pub mod playfair;
pub mod property_list;
pub mod protocol;
pub mod rtsp;
pub mod sorted;
pub mod srp;
pub mod text;
pub mod tlv8;
pub mod tray;
pub mod underscan;

pub use crate::broadcast::{
    joined_chunks, lemma_read_ends, lemma_read_everything, lemma_read_in_order, next_read,
    read_to_end, BroadcastCapture, BroadcastSink, BroadcastSinkView, BroadcastView, Offer,
    ReadOutcome, SINK_CHANNEL_CAP,
};
