//! The logging bridge: leveled records from the host, forwarded to the
//! core's sink.
use vstd::prelude::*;
use crate::text::{c_text, nul_free, string_callback};

verus! {

/// The level of a record, from the most to the least severe.
#[derive(Clone, Copy, Debug, PartialEq, Eq, Structural)]
pub enum Level {
    Error,
    Warn,
    Info,
    Debug,
    Trace,
}

/// A record as it goes to the sink.
#[derive(Debug, PartialEq, Eq)]
pub struct Record {
    pub level: Level,
    pub target: Vec<u8>,
    pub message: Vec<u8>,
}

/// Reports how setting up the sink went. Where it failed, also because a
/// sink was set up before, the cause goes to the error continuation in
/// boundary form; where it went well, no continuation is invoked.
pub fn endb_init_logger(outcome: Result<(), Vec<u8>>) -> (error: Option<Vec<u8>>)
    requires
        outcome matches Err(cause) ==> nul_free(cause@),
    ensures
        outcome is Ok ==> error is None,
        outcome matches Err(cause) ==> (error matches Some(text) && text@ == c_text(cause@)),
{
    match outcome {
        Ok(_) => None,
        Err(cause) => Some(string_callback(cause)),
    }
}

/// Makes the record that is forwarded for a message of the host. Every
/// message is forwarded, at every level: filtering is left to the sink.
pub fn do_log(level: Level, target: Vec<u8>, message: Vec<u8>) -> (record: Record)
    ensures
        record.level == level,
        record.target == target,
        record.message == message,
{
    Record { level, target, message }
}

/// The record for an error message.
pub fn endb_log_error(target: Vec<u8>, message: Vec<u8>) -> (record: Record)
    ensures
        record.level == Level::Error,
        record.target == target,
        record.message == message,
{
    do_log(Level::Error, target, message)
}

/// The record for a warning.
pub fn endb_log_warn(target: Vec<u8>, message: Vec<u8>) -> (record: Record)
    ensures
        record.level == Level::Warn,
        record.target == target,
        record.message == message,
{
    do_log(Level::Warn, target, message)
}

/// The record for an informational message.
pub fn endb_log_info(target: Vec<u8>, message: Vec<u8>) -> (record: Record)
    ensures
        record.level == Level::Info,
        record.target == target,
        record.message == message,
{
    do_log(Level::Info, target, message)
}

/// The record for a debugging message.
pub fn endb_log_debug(target: Vec<u8>, message: Vec<u8>) -> (record: Record)
    ensures
        record.level == Level::Debug,
        record.target == target,
        record.message == message,
{
    do_log(Level::Debug, target, message)
}

/// The record for a tracing message.
pub fn endb_log_trace(target: Vec<u8>, message: Vec<u8>) -> (record: Record)
    ensures
        record.level == Level::Trace,
        record.target == target,
        record.message == message,
{
    do_log(Level::Trace, target, message)
}

} // verus!
