//! The uniform error carried by every probe: a human-readable message that
//! the aggregator folds into the snapshot's error list.

use vstd::prelude::*;
use vstd::string::*;

verus! {

/// Why one probe's read or parse failed. The message is the only content;
/// the aggregator never inspects it beyond prefixing the probe's name.
#[derive(Debug, Clone, PartialEq, Eq)]
pub struct ProbeError {
    pub message: String,
}

impl ProbeError {
    /// An error with a fixed message.
    pub fn msg(text: &str) -> (r: ProbeError)
        ensures
            r.message@ == text@,
    {
        ProbeError { message: String::from_str(text) }
    }

    /// An error whose message is a fixed prefix followed by a detail, as in
    /// a field name followed by the record it came from.
    pub fn with_detail(prefix: &str, detail: &str) -> (r: ProbeError)
        ensures
            r.message@ == prefix@ + detail@,
    {
        let mut m = String::from_str(prefix);
        m.append(detail);
        ProbeError { message: m }
    }
}

} // verus!
