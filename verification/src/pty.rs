//! The embedded terminal.

use vstd::prelude::*;
use vstd::slice::{slice_subrange, slice_to_vec};

verus! {

/// How a terminal session is started.
#[derive(Debug, Clone)]
pub struct PtyConfig {
    pub shell: String,
    pub args: Vec<String>,
    pub cwd: String,
    pub rows: u16,
    pub cols: u16,
    /// Environment variables to set, such as `TERM`.
    pub extra_env: Vec<(String, String)>,
}

/// What a read from the terminal leads to.
#[derive(Debug, PartialEq, Eq)]
pub enum PtyRead {
    /// Output to hand on.
    Output(Vec<u8>),
    /// The session has ended.
    Closed,
}

/// Decides on a read into `buffer`: `count` bytes came, or the read failed.
///
/// A read that brings nothing, like one that fails, ends the session.
pub fn read_step(buffer: &[u8], count: Option<usize>) -> (r: PtyRead)
    requires
        count matches Some(n) ==> n <= buffer@.len(),
    ensures
        r is Output <==> count is Some && count->0 > 0,
        r matches PtyRead::Output(bytes) ==> bytes@ == buffer@.take(count->0 as int),
{
    match count {
        None => PtyRead::Closed,
        Some(n) => if n == 0 {
            PtyRead::Closed
        } else {
            PtyRead::Output(slice_to_vec(slice_subrange(buffer, 0, n)))
        },
    }
}

} // verus!
