//! Latency samples and the comma-separated line that reports each one.
use vstd::prelude::*;
use vstd::string::StringExecFns;

verus! {

/// One correlated probe: its sequence number, the size of the reply that
/// closed it, and the time between publishing and observing the reply.
#[derive(Debug, Clone, Copy, PartialEq, Eq, Structural)]
pub struct LatencySample {
    pub sequence: u64,
    pub payload_len: usize,
    pub elapsed_us: u64,
}

/// The labels of a run that every reported line repeats.
#[derive(Debug)]
pub struct RunLabels {
    pub scenario: String,
    pub name: String,
    /// The configured interval between probes, in seconds, as written out.
    pub interval: String,
}

/// Time from `issued` to `now`, never negative.
pub open spec fn elapsed_between(issued: u64, now: u64) -> u64 {
    if now >= issued {
        (now - issued) as u64
    } else {
        0
    }
}

/// Computes `elapsed_between(issued, now)`.
pub fn elapsed_since(issued: u64, now: u64) -> (r: u64)
    ensures
        r == elapsed_between(issued, now),
{
    if now >= issued {
        now - issued
    } else {
        0
    }
}

pub open spec fn digit_char(d: nat) -> char {
    if d == 0 {
        '0'
    } else if d == 1 {
        '1'
    } else if d == 2 {
        '2'
    } else if d == 3 {
        '3'
    } else if d == 4 {
        '4'
    } else if d == 5 {
        '5'
    } else if d == 6 {
        '6'
    } else if d == 7 {
        '7'
    } else if d == 8 {
        '8'
    } else {
        '9'
    }
}

/// The decimal digits of `n`, most significant first, without leading zeros.
pub open spec fn decimal(n: nat) -> Seq<char>
    decreases n,
{
    if n < 10 {
        seq![digit_char(n)]
    } else {
        decimal(n / 10) + seq![digit_char(n % 10)]
    }
}

fn digit_text(d: u64) -> (r: &'static str)
    requires
        d < 10,
    ensures
        r@ == seq![digit_char(d as nat)],
{
    if d == 0 {
        proof { reveal_strlit("0"); }
        assert("0"@ =~= seq!['0']);
        "0"
    } else if d == 1 {
        proof { reveal_strlit("1"); }
        assert("1"@ =~= seq!['1']);
        "1"
    } else if d == 2 {
        proof { reveal_strlit("2"); }
        assert("2"@ =~= seq!['2']);
        "2"
    } else if d == 3 {
        proof { reveal_strlit("3"); }
        assert("3"@ =~= seq!['3']);
        "3"
    } else if d == 4 {
        proof { reveal_strlit("4"); }
        assert("4"@ =~= seq!['4']);
        "4"
    } else if d == 5 {
        proof { reveal_strlit("5"); }
        assert("5"@ =~= seq!['5']);
        "5"
    } else if d == 6 {
        proof { reveal_strlit("6"); }
        assert("6"@ =~= seq!['6']);
        "6"
    } else if d == 7 {
        proof { reveal_strlit("7"); }
        assert("7"@ =~= seq!['7']);
        "7"
    } else if d == 8 {
        proof { reveal_strlit("8"); }
        assert("8"@ =~= seq!['8']);
        "8"
    } else {
        proof { reveal_strlit("9"); }
        assert("9"@ =~= seq!['9']);
        "9"
    }
}

/// Appends the decimal digits of `n` to `out`.
pub fn push_decimal(out: &mut String, n: u64)
    ensures
        final(out)@ == old(out)@ + decimal(n as nat),
    decreases n,
{
    if n >= 10 {
        push_decimal(out, n / 10);
    }
    out.append(digit_text(n % 10));
    assert(final(out)@ =~= old(out)@ + decimal(n as nat));
}

/// Writes `n` in decimal.
pub fn decimal_text(n: u64) -> (r: String)
    ensures
        r@ == decimal(n as nat),
{
    let mut s = String::new();
    push_decimal(&mut s, n);
    assert(s@ =~= decimal(n as nat));
    s
}

/// The name of a probing discipline as it appears in a reported line.
pub open spec fn mode_label(parallel: bool) -> Seq<char> {
    if parallel {
        "parallel"@
    } else {
        "sequential"@
    }
}

/// The reported line of one sample:
/// `zenoh,<scenario>,latency.<mode>,<name>,<payload_len>,<interval>,<sequence>,<elapsed_us>`.
pub open spec fn record_line(labels: RunLabels, parallel: bool, s: LatencySample) -> Seq<char> {
    "zenoh,"@ + labels.scenario@ + ",latency."@ + mode_label(parallel) + ","@ + labels.name@
        + ","@ + decimal(s.payload_len as nat) + ","@ + labels.interval@ + ","@ + decimal(
        s.sequence as nat,
    ) + ","@ + decimal(s.elapsed_us as nat)
}

/// Builds the reported line of one sample.
pub fn format_record(labels: &RunLabels, parallel: bool, s: &LatencySample) -> (r: String)
    ensures
        r@ == record_line(*labels, parallel, *s),
{
    let mut out = String::from_str("zenoh,");
    out.append(labels.scenario.as_str());
    out.append(",latency.");
    if parallel {
        out.append("parallel");
    } else {
        out.append("sequential");
    }
    out.append(",");
    out.append(labels.name.as_str());
    out.append(",");
    push_decimal(&mut out, s.payload_len as u64);
    out.append(",");
    out.append(labels.interval.as_str());
    out.append(",");
    push_decimal(&mut out, s.sequence);
    out.append(",");
    push_decimal(&mut out, s.elapsed_us);
    assert(out@ =~= record_line(*labels, parallel, *s));
    out
}

} // verus!
