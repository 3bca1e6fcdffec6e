//! The text of the failure log: one line per failed path, `<label><path>`.

use vstd::prelude::*;

verus! {

/// The label that starts every line of the log ("deletion failed: ").
pub open spec fn failure_label() -> Seq<char> {
    seq!['삭', '제', ' ', '실', '패', ':', ' ']
}

/// The log line for one failed path.
pub open spec fn log_line_spec(path: Seq<char>) -> Seq<char> {
    failure_label() + path
}

/// The log line for one failed path.
pub fn log_line(path: &str) -> (r: String)
    ensures
        r@ == log_line_spec(path@),
{
    proof {
        reveal_strlit("삭제 실패: ");
    }
    let mut line = String::from_str("삭제 실패: ");
    assert(line@ =~= failure_label());
    line.append(path);
    line
}

/// The lines of the log for these failed paths: exactly one per path, in order.
pub fn log_lines(paths: &Vec<String>) -> (r: Vec<String>)
    ensures
        r@.len() == paths@.len(),
        forall|i: int| 0 <= i < r@.len() ==> #[trigger] r@[i]@ == log_line_spec(paths@[i]@),
{
    let mut r: Vec<String> = Vec::new();
    let mut i: usize = 0;
    while i < paths.len()
        invariant
            i <= paths@.len(),
            r@.len() == i,
            forall|j: int| 0 <= j < i ==> #[trigger] r@[j]@ == log_line_spec(paths@[j]@),
        decreases paths@.len() - i,
    {
        let line = log_line(paths[i].as_str());
        r.push(line);
        i = i + 1;
    }
    r
}

} // verus!
