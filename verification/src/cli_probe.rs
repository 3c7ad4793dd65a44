//! Bounded command-line probes: what a finished probe process's output means.

use vstd::prelude::*;
use crate::text::{chars_to_string, str_chars, sub_vec, trim, trim_range};

verus! {

/// What a probe process gave when it finished within its deadline.
pub struct ProbeOutput {
    /// The process exited successfully.
    pub success: bool,
    /// Its standard output.
    pub stdout: Vec<u8>,
}

/// Name for `String::from_utf8_lossy` of some bytes: the text, with each invalid sequence
/// replaced by U+FFFD.
pub uninterp spec fn lossy_utf8(b: Seq<u8>) -> Seq<char>;

/// Calls `String::from_utf8_lossy`. As std documents, valid UTF-8 decodes as itself; for
/// invalid input only the name is given.
#[verifier::external_body]
fn utf8_lossy(bytes: &[u8]) -> (r: String)
    ensures
        r@ == lossy_utf8(bytes@),
        vstd::utf8::valid_utf8(bytes@) ==> r@ == vstd::utf8::decode_utf8(bytes@),
{
    String::from_utf8_lossy(bytes).into_owned()
}

/// The probe's answer: the trimmed standard output of a successful run, when it is not
/// empty.
pub open spec fn probe_answer(out: Option<ProbeOutput>) -> Option<Seq<char>> {
    match out {
        Some(o) => if o.success && trim(lossy_utf8(o.stdout@)).len() > 0 {
            Some(trim(lossy_utf8(o.stdout@)))
        } else {
            None
        },
        None => None,
    }
}

/// The trimmed standard output of a probe, on success only: `None` when the process could
/// not be run or did not finish in time (`output` is `None`), exited unsuccessfully, or
/// printed only whitespace.
pub fn probe_stdout(output: Option<ProbeOutput>) -> (r: Option<String>)
    ensures
        match r {
            Some(s) => probe_answer(output) == Some(s@),
            None => probe_answer(output) is None,
        },
{
    let o = match output {
        Some(o) => o,
        None => return None,
    };
    if !o.success {
        return None;
    }
    let s = utf8_lossy(o.stdout.as_slice());
    let c = str_chars(s.as_str());
    let (a, b) = trim_range(c.as_slice(), 0, c.len());
    assert(c@.subrange(0, c@.len() as int) =~= c@);
    if a == b {
        return None;
    }
    let t = sub_vec(c.as_slice(), a, b);
    Some(chars_to_string(t.as_slice()))
}

} // verus!
