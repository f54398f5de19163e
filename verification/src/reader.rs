//! The rules the server applies to what it reads from a connection: how a
//! line read from the stream is accepted, and how large a body may be.
use vstd::prelude::*;
use vstd::string::*;

use crate::text::{chars_of, crlf, decimal, decimal_string, ends_with};

verus! {

/// The largest body, in bytes, that the server reads.
pub const MAX_CONTENT_LENGTH: usize = 1024 * 1024;

/// The longest line, in bytes, that the server reads.
pub const MAX_LINE_LENGTH: u64 = 8192;

/// A failure of the connection itself, as the reading side reports it.
#[derive(Debug)]
pub struct IoFailure {
    /// The stream ended before what was asked for could be read.
    pub unexpected_eof: bool,
    /// What went wrong, in words.
    pub message: String,
}

/// Why reading a request failed.
#[derive(Debug)]
pub enum ReadError {
    PayloadTooLarge,
    UriTooLong,
    HeaderTooLong,
    IoError(IoFailure),
}

/// The message of a read error.
pub open spec fn read_error_message(e: ReadError) -> Seq<char> {
    match e {
        ReadError::PayloadTooLarge => "Payload too large"@,
        ReadError::UriTooLong => "URI length CANNOT exceed "@ + decimal(MAX_LINE_LENGTH as nat),
        ReadError::HeaderTooLong => "Header length CANNOT exceed "@ + decimal(MAX_LINE_LENGTH as nat),
        ReadError::IoError(f) => f.message@,
    }
}

/// The read error that a stream ending early gives.
pub open spec fn is_unexpected_eof(e: ReadError) -> bool {
    e matches ReadError::IoError(f) && f.unexpected_eof
}

impl ReadError {
    /// The message of this error.
    pub fn message(&self) -> (m: String)
        ensures
            m@ == read_error_message(*self),
    {
        match self {
            ReadError::PayloadTooLarge => String::from_str("Payload too large"),
            ReadError::UriTooLong => {
                let mut m = String::from_str("URI length CANNOT exceed ");
                let n = decimal_string(MAX_LINE_LENGTH as usize);
                m.append(n.as_str());
                m
            },
            ReadError::HeaderTooLong => {
                let mut m = String::from_str("Header length CANNOT exceed ");
                let n = decimal_string(MAX_LINE_LENGTH as usize);
                m.append(n.as_str());
                m
            },
            ReadError::IoError(f) => f.message.clone(),
        }
    }

    /// Whether this error is a stream that ended early.
    pub fn is_unexpected_eof(&self) -> (b: bool)
        ensures
            b == is_unexpected_eof(*self),
    {
        match self {
            ReadError::IoError(f) => f.unexpected_eof,
            _ => false,
        }
    }
}

/// What a line read from the stream gives: nothing read is an early end of
/// the stream; a line that does not end with CRLF (because it was cut at
/// `MAX_LINE_LENGTH` bytes, or the stream ended) is `too_long`; any other
/// line is accepted as it is.
pub fn finish_line(line: String, bytes_read: usize, too_long: ReadError) -> (r: Result<
    String,
    ReadError,
>)
    ensures
        bytes_read == 0 ==> (r matches Err(e) && e matches ReadError::IoError(f) && f.unexpected_eof
            && f.message@ == "Unexpected EOF."@),
        bytes_read != 0 && !crlf().is_suffix_of(line@) ==> (r matches Err(e) && e == too_long),
        bytes_read != 0 && crlf().is_suffix_of(line@) ==> (r matches Ok(l) && l@ == line@),
{
    if bytes_read == 0 {
        return Err(
            ReadError::IoError(
                IoFailure { unexpected_eof: true, message: String::from_str("Unexpected EOF.") },
            ),
        );
    }
    let chars = chars_of(line.as_str());
    let ending = vec!['\r', '\n'];
    assert(ending@ =~= crlf());
    if !ends_with(chars.as_slice(), ending.as_slice()) {
        return Err(too_long);
    }
    Ok(line)
}

/// A body of `length` bytes may be read only when it is at most
/// `MAX_CONTENT_LENGTH` bytes.
pub fn check_body_length(length: usize) -> (r: Result<(), ReadError>)
    ensures
        length > MAX_CONTENT_LENGTH ==> r matches Err(ReadError::PayloadTooLarge),
        length <= MAX_CONTENT_LENGTH ==> r is Ok,
{
    if length > MAX_CONTENT_LENGTH {
        return Err(ReadError::PayloadTooLarge);
    }
    Ok(())
}

} // verus!
