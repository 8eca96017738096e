//! Progress reporting: an `[i/N]` indicator that overwrites itself in
//! place on a text console by first emitting one backspace per character
//! of the previous indicator, and that ends in a terminal `done` line
//! after the last chunk. The reporter is a small state machine whose
//! transitions advance by exactly one completed chunk at a time.

use vstd::prelude::*;
use crate::namer::dec_digits;
use crate::namer::decimal_string;
use crate::namer::make_sample_number_string;
use crate::namer::sample_number;
use crate::namer::decimal_width;

verus! {

/// Where the progress display stands: nothing reported yet, the chunk
/// with the given index reported last, or the terminal done state.
#[derive(Clone, Copy, Debug, PartialEq, Eq, Structural)]
pub enum ProgressState {
    NotStarted,
    InProgress(u32),
    Done,
}

/// A run of `k` backspace characters.
pub open spec fn backspaces(k: nat) -> Seq<char> {
    Seq::new(k, |i: int| '\u{8}')
}

/// The visible indicator after chunk `i` of `n` completes:
/// `[{display number}/{n}]`. Its character length is twice the digit
/// width of `n`, plus three.
pub open spec fn indicator(i: nat, n: nat) -> Seq<char> {
    seq!['['] + sample_number(i, n) + seq!['/'] + dec_digits(n) + seq![']']
}

/// Everything one report emits: after the first report, enough
/// backspaces to erase the previous indicator, then either the terminal
/// done line or the next indicator.
pub open spec fn report_output(i: nat, n: nat) -> Seq<char> {
    (if i > 0 {
        backspaces(2 * dec_digits(n).len() + 3)
    } else {
        Seq::<char>::empty()
    }) + (if i + 1 == n {
        seq!['d', 'o', 'n', 'e', '\n']
    } else {
        indicator(i, n)
    })
}

/// Renders the updating `[i/N]` console indicator for a run of `total`
/// chunks, one report per completed chunk, in order.
pub struct ProgressReporter {
    pub total: u32,
    pub state: ProgressState,
}

impl ProgressReporter {
    /// A reporter is well formed for a positive chunk count, and an
    /// in-progress reporter never stands past the chunk before the last
    /// (completing the last chunk is the terminal state).
    pub open spec fn wf(self) -> bool {
        &&& self.total > 0
        &&& match self.state {
            ProgressState::InProgress(i) => i + 1 < self.total,
            _ => true,
        }
    }

    /// A fresh reporter for `total` chunks, with nothing reported yet.
    pub fn new(total: u32) -> (r: Self)
        requires
            total > 0,
        ensures
            r.total == total,
            r.state == ProgressState::NotStarted,
            r.wf(),
    {
        ProgressReporter { total, state: ProgressState::NotStarted }
    }

    /// Records that the chunk at `completed` finished and returns exactly
    /// what the console must print. Reports advance strictly one chunk at
    /// a time from the start; completing the final chunk enters the
    /// terminal done state, which permits no further report.
    pub fn report(&mut self, completed: u32) -> (out: String)
        requires
            old(self).wf(),
            completed < old(self).total,
            match old(self).state {
                ProgressState::NotStarted => completed == 0,
                ProgressState::InProgress(i) => completed == i + 1,
                ProgressState::Done => false,
            },
        ensures
            final(self).total == old(self).total,
            final(self).wf(),
            final(self).state == (if completed + 1 == old(self).total {
                ProgressState::Done
            } else {
                ProgressState::InProgress(completed)
            }),
            out@ == report_output(completed as nat, old(self).total as nat),
    {
        let total = self.total;
        let mut out = String::new();
        if completed != 0 {
            let width = decimal_width(total);
            let count = 2 * width + 3;
            let mut k: usize = 0;
            while k < count
                invariant
                    k <= count,
                    count == 2 * dec_digits(total as nat).len() + 3,
                    out@ =~= backspaces(k as nat),
                decreases count - k,
            {
                out.append("\u{8}");
                k = k + 1;
                proof {
                    reveal_strlit("\u{8}");
                    assert(out@ =~= backspaces(k as nat));
                }
            }
        }
        if completed + 1 == total {
            out.append("done\n");
            self.state = ProgressState::Done;
            proof {
                reveal_strlit("done\n");
                assert(out@ =~= report_output(completed as nat, total as nat));
            }
        } else {
            out.append("[");
            let num = make_sample_number_string(completed, total);
            out.append(num.as_str());
            out.append("/");
            let total_str = decimal_string(total);
            out.append(total_str.as_str());
            out.append("]");
            self.state = ProgressState::InProgress(completed);
            proof {
                reveal_strlit("[");
                reveal_strlit("/");
                reveal_strlit("]");
                assert(out@ =~= report_output(completed as nat, total as nat));
            }
        }
        out
    }
}

} // verus!
