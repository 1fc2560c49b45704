//! Line format of the append-only diagnostic log.

use vstd::prelude::*;

use crate::text::{decimal, push_decimal, push_str, string_of};

verus! {

pub open spec fn log_line_spec(ts: u64, message: Seq<char>) -> Seq<char> {
    "["@ + decimal(ts as nat) + "] "@ + message
}

/// One log line: `[<unix seconds>] <message>` (without the newline).
pub fn log_line(ts: u64, message: &str) -> (l: String)
    ensures
        l@ == log_line_spec(ts, message@),
{
    let mut v: Vec<char> = Vec::new();
    push_str(&mut v, "[");
    push_decimal(&mut v, ts);
    push_str(&mut v, "] ");
    push_str(&mut v, message);
    assert(v@ =~= log_line_spec(ts, message@));
    string_of(&v)
}

} // verus!
