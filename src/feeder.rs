//! The input feeder's decisions: what each read of local input becomes.
//!
//! The feeder reads local input on its own thread and publishes each chunk on
//! a channel to the connection loop. When input ends or fails it stops, and
//! the loop sees the channel disconnect.
use vstd::prelude::*;
use vstd::string::StrSliceExecFns;
use vstd::utf8::encode_utf8;

use crate::unicode::{trim_end_spec, trim_white_space_end};

verus! {

/// One read of local input.
#[derive(Debug)]
pub enum LocalRead {
    /// A raw read returned these bytes; none means input has ended.
    Bytes(Vec<u8>),
    /// A line read returned this text, newline included; an empty text means
    /// input has ended.
    Line(String),
    /// The read failed.
    Failed,
}

/// What the feeder does with a read.
#[derive(Debug)]
pub enum FeedAction {
    /// Publish this chunk to the connection loop.
    Publish(Vec<u8>),
    /// End the feeder.
    Stop,
}

/// A feeder action as values.
pub enum FeedModel {
    Publish(Seq<u8>),
    Stop,
}

impl View for FeedAction {
    type V = FeedModel;

    open spec fn view(&self) -> FeedModel {
        match self {
            FeedAction::Publish(c) => FeedModel::Publish(c@),
            FeedAction::Stop => FeedModel::Stop,
        }
    }
}

/// The bytes sent for a typed line: its text without trailing white space
/// (the newline among it), in UTF-8.
pub open spec fn line_chunk_spec(line: Seq<char>) -> Seq<u8> {
    encode_utf8(trim_end_spec(line))
}

/// The chunk sent for a typed line.
pub fn line_chunk(line: &str) -> (r: Vec<u8>)
    ensures
        r@ == line_chunk_spec(line@),
{
    let t = trim_white_space_end(line);
    t.as_bytes_vec()
}

/// What the feeder does with each read: publish what was read, stop when
/// input ends or fails.
pub open spec fn feed_spec(read: LocalRead) -> FeedModel {
    match read {
        LocalRead::Bytes(b) => if b@.len() == 0 {
            FeedModel::Stop
        } else {
            FeedModel::Publish(b@)
        },
        LocalRead::Line(l) => if l@.len() == 0 {
            FeedModel::Stop
        } else {
            FeedModel::Publish(line_chunk_spec(l@))
        },
        LocalRead::Failed => FeedModel::Stop,
    }
}

/// Decides what the feeder does with one read.
pub fn feed(read: LocalRead) -> (r: FeedAction)
    ensures
        r@ == feed_spec(read),
{
    match read {
        LocalRead::Bytes(b) => {
            if b.len() == 0 {
                FeedAction::Stop
            } else {
                FeedAction::Publish(b)
            }
        },
        LocalRead::Line(l) => {
            if l.as_str().is_empty() {
                FeedAction::Stop
            } else {
                FeedAction::Publish(line_chunk(l.as_str()))
            }
        },
        LocalRead::Failed => FeedAction::Stop,
    }
}

} // verus!
