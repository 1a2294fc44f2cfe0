//! Global run options shared by the client and server commands.

use vstd::prelude::*;

verus! {

/// Worker-count and socket-option settings.
#[derive(Clone, Copy, Debug)]
pub struct Opts {
    /// Fixed worker count; when absent, one worker per available CPU.
    pub threads: Option<u8>,
    /// Set TCP_NODELAY on accepted and dialed connections.
    pub nodelay: bool,
}

impl Default for Opts {
    fn default() -> (r: Opts)
        ensures
            r.threads is None,
            !r.nodelay,
    {
        Opts { threads: None, nodelay: false }
    }
}

impl Opts {
    /// How many workers to run: the fixed count when one was given, else
    /// the machine's available parallelism, else one.
    pub fn parallelism(&self, available: Option<usize>) -> (r: usize)
        ensures
            r == match self.threads {
                Some(t) => t as usize,
                None => match available {
                    Some(n) => n,
                    None => 1usize,
                },
            },
    {
        match self.threads {
            Some(t) => t as usize,
            None => match available {
                Some(n) => n,
                None => 1,
            },
        }
    }
}

} // verus!
