//! The deterministic textual rendering of the list: one line per task, in
//! order, as `<index> - [<marker>] - <name>`.

use crate::digits::{dec_rep, push_dec};
use crate::list::{TaskSpec, TodoList};
use crate::storage::marker_char;
use crate::strutil::push_char;
use vstd::prelude::*;
use vstd::string::StringExecFns;

verus! {

/// One rendered line: the index, the completion marker in brackets, and the
/// name, separated by dashes and closed by a newline.
pub open spec fn render_line(i: nat, t: TaskSpec) -> Seq<char> {
    dec_rep(i) + " - ["@ + seq![marker_char(t.completed)] + "] - "@ + t.name + seq!['\n']
}

/// The rendered lines of the tasks from position `i` on.
pub open spec fn render_from(ts: Seq<TaskSpec>, i: int) -> Seq<char>
    decreases ts.len() - i,
{
    if i < 0 || i >= ts.len() {
        Seq::empty()
    } else {
        render_line(i as nat, ts[i]) + render_from(ts, i + 1)
    }
}

/// The full rendering: every task on its own line, in list order.  An empty
/// list renders as empty output.
pub open spec fn render_tasks(ts: Seq<TaskSpec>) -> Seq<char> {
    render_from(ts, 0)
}

impl TodoList {
    /// Renders the list for display.
    pub fn render(&self) -> (r: String)
        ensures
            r@ == render_tasks(self@),
    {
        let mut out = String::new();
        let n = self.len();
        let mut i: usize = 0;
        proof {
            assert(out@ + render_from(self@, 0) =~= render_from(self@, 0));
        }
        while i < n
            invariant
                i <= n,
                n == self@.len(),
                render_tasks(self@) == out@ + render_from(self@, i as int),
            decreases n - i,
        {
            let ghost pre = out@;
            let ghost t = self@[i as int];
            push_dec(&mut out, i);
            out.append(" - [");
            let marker = if self.completed_at(i) {
                'x'
            } else {
                ' '
            };
            push_char(&mut out, marker);
            out.append("] - ");
            out.append(self.name_at(i).as_str());
            push_char(&mut out, '\n');
            proof {
                assert(out@ =~= pre + render_line(i as nat, t));
                assert(render_from(self@, i as int) == render_line(i as nat, t) + render_from(
                    self@,
                    i + 1,
                ));
                assert(out@ + render_from(self@, i + 1) =~= pre + render_from(self@, i as int));
            }
            i += 1;
        }
        out
    }
}

} // verus!
