//! Text report of the processes holding files.

use vstd::prelude::*;
use super::handle_info::ProcessResult;
use crate::text::{decimal, push_str, u64_to_decimal};

verus! {

/// The report lines of one process: `[pid] name (User: user)` and one
/// indented line per file.
pub open spec fn process_lines(p: ProcessResult) -> Seq<char> {
    "["@ + decimal(p.pid as nat) + "] "@ + p.name@ + " (User: "@ + p.user@ + ")\n"@ + file_lines(p.files@)
}

pub open spec fn file_lines(files: Seq<String>) -> Seq<char>
    decreases files.len(),
{
    if files.len() == 0 {
        Seq::empty()
    } else {
        file_lines(files.drop_last()) + "  "@ + files.last()@ + "\n"@
    }
}

pub open spec fn report_of(results: Seq<ProcessResult>) -> Seq<char>
    decreases results.len(),
{
    if results.len() == 0 {
        Seq::empty()
    } else {
        report_of(results.drop_last()) + process_lines(results.last())
    }
}

/// The text report: a notice when nothing was found, else the lines of each process.
pub open spec fn text_report(results: Seq<ProcessResult>) -> Seq<char> {
    if results.len() == 0 {
        "No processes found locking the specified file(s).\n"@
    } else {
        report_of(results)
    }
}

/// Formats the results as human-readable text.
pub fn format_text(results: &[ProcessResult]) -> (s: String)
    ensures
        s@ == text_report(results@),
{
    if results.len() == 0 {
        return String::from_str("No processes found locking the specified file(s).\n");
    }
    let mut out = String::new();
    let mut i: usize = 0;
    while i < results.len()
        invariant
            i <= results@.len(),
            out@ == report_of(results@.take(i as int)),
        decreases results@.len() - i,
    {
        let pr = &results[i];
        let ghost before = out@;
        push_str(&mut out, "[");
        let pid = u64_to_decimal(pr.pid as u64);
        push_str(&mut out, pid.as_str());
        push_str(&mut out, "] ");
        push_str(&mut out, pr.name.as_str());
        push_str(&mut out, " (User: ");
        push_str(&mut out, pr.user.as_str());
        push_str(&mut out, ")\n");
        let ghost head = out@;
        let mut j: usize = 0;
        while j < pr.files.len()
            invariant
                j <= pr.files@.len(),
                out@ == head + file_lines(pr.files@.take(j as int)),
            decreases pr.files@.len() - j,
        {
            let ghost mid = out@;
            push_str(&mut out, "  ");
            push_str(&mut out, pr.files[j].as_str());
            push_str(&mut out, "\n");
            proof {
                assert(pr.files@.take(j + 1).drop_last() =~= pr.files@.take(j as int));
                assert(out@ =~= head + file_lines(pr.files@.take(j + 1)));
            }
            j = j + 1;
        }
        proof {
            assert(pr.files@.take(pr.files@.len() as int) =~= pr.files@);
            assert(results@.take(i + 1).drop_last() =~= results@.take(i as int));
            assert(out@ =~= report_of(results@.take(i + 1)));
        }
        i = i + 1;
    }
    proof {
        assert(results@.take(results@.len() as int) =~= results@);
    }
    out
}

} // verus!
