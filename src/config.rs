//! Startup configuration that the probing roles decide on.
use crate::probe::ProbeError;
use vstd::prelude::*;
use vstd::string::StrSliceExecFns;

verus! {

/// How a process joins the messaging substrate.
#[derive(Debug, Clone, Copy, PartialEq, Eq, Structural)]
pub enum Mode {
    Peer,
    Client,
}

/// Whether two texts hold the same characters.
pub fn same_text(a: &str, b: &str) -> (r: bool)
    ensures
        r == (a@ == b@),
{
    let n = a.unicode_len();
    if n != b.unicode_len() {
        return false;
    }
    let mut i: usize = 0;
    while i < n
        invariant
            n == a@.len(),
            n == b@.len(),
            i <= n,
            a@.subrange(0, i as int) == b@.subrange(0, i as int),
        decreases n - i,
    {
        if a.get_char(i) != b.get_char(i) {
            return false;
        }
        assert(a@.subrange(0, i + 1) =~= a@.subrange(0, i as int).push(a@[i as int]));
        assert(b@.subrange(0, i + 1) =~= b@.subrange(0, i as int).push(b@[i as int]));
        i = i + 1;
    }
    assert(a@ =~= a@.subrange(0, n as int));
    assert(b@ =~= b@.subrange(0, n as int));
    true
}

/// The mode that a mode name stands for: `peer` or `client`.
pub open spec fn mode_named(s: Seq<char>) -> Option<Mode> {
    if s == "peer"@ {
        Some(Mode::Peer)
    } else if s == "client"@ {
        Some(Mode::Client)
    } else {
        None
    }
}

/// Reads a mode name; any other name is a configuration error.
pub fn parse_mode(s: &str) -> (r: Result<Mode, ProbeError>)
    ensures
        r is Ok <==> mode_named(s@) is Some,
        r is Ok ==> r->Ok_0 == mode_named(s@)->Some_0,
        r is Err ==> r->Err_0 == ProbeError::UnsupportedMode,
{
    if same_text(s, "peer") {
        Ok(Mode::Peer)
    } else if same_text(s, "client") {
        Ok(Mode::Client)
    } else {
        Err(ProbeError::UnsupportedMode)
    }
}

} // verus!
