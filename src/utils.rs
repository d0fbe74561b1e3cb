//! Results of copies across the process boundary, and small conversions used
//! at the host interface.

use vstd::prelude::*;

verus! {

/// A C boolean as the instrumentation host returns it.
pub trait Boolean {
    fn as_bool(self) -> bool;
}

impl Boolean for i8 {
    fn as_bool(self) -> (r: bool) {
        self != 0
    }
}

impl Boolean for u8 {
    fn as_bool(self) -> (r: bool) {
        self != 0
    }
}

/// A value parsed from the raw bytes of a C structure.
pub trait FromBuf {
    fn from_buf(buf: Vec<u8>) -> Option<Self> where Self: Sized;
}

/// A read from foreign memory that copied fewer bytes than asked for.
#[derive(Debug)]
pub struct ReadError {
    pub n_bytes_tried: usize,
    pub n_bytes_read: usize,
    /// The destination buffer, holding whatever was copied.
    pub buf: Vec<u8>,
}

/// A write to foreign memory that copied fewer bytes than asked for.
#[derive(Debug)]
pub struct WriteError {
    pub data_tried: Vec<u8>,
    pub n_bytes_tried: usize,
    pub n_bytes_written: usize,
}

/// Why a module's name could not be had as UTF-8.
#[derive(Debug)]
pub enum Utf8NameError {
    NullPtr,
    Malformed(String),
}

/// The outcome of a safe read of `size` bytes into `buf`, given whether the
/// host reported a complete copy and how many bytes it copied.
pub fn read_result(size: usize, success: bool, n_bytes_read: usize, buf: Vec<u8>) -> (r: Result<Vec<u8>, ReadError>)
    ensures
        success ==> (r matches Ok(b) && b@ == buf@),
        !success ==> (r matches Err(e) && e.n_bytes_tried == size && e.n_bytes_read == n_bytes_read
            && e.buf@ == buf@),
{
    if success {
        Ok(buf)
    } else {
        Err(ReadError { n_bytes_tried: size, n_bytes_read, buf })
    }
}

/// The outcome of a safe write of `to_write`, given whether the host reported a
/// complete copy and how many bytes it copied.
pub fn write_result(to_write: Vec<u8>, success: bool, n_bytes_written: usize) -> (r: Result<(), WriteError>)
    ensures
        success ==> r is Ok,
        !success ==> (r matches Err(e) && e.n_bytes_tried == to_write@.len() && e.n_bytes_written
            == n_bytes_written && e.data_tried@ == to_write@),
{
    if success {
        Ok(())
    } else {
        let n_bytes_tried = to_write.len();
        Err(WriteError { n_bytes_tried, data_tried: to_write, n_bytes_written })
    }
}

} // verus!
