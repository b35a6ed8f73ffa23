//! The text listing of a user's tasks.
use vstd::prelude::*;

use crate::model::{tasks_view, Task, TaskModel};
use crate::store::{AppData, StoreModel};

verus! {

/// The decimal digit `d`.
pub open spec fn digit_char(d: nat) -> char {
    if d == 0 {
        '0'
    } else if d == 1 {
        '1'
    } else if d == 2 {
        '2'
    } else if d == 3 {
        '3'
    } else if d == 4 {
        '4'
    } else if d == 5 {
        '5'
    } else if d == 6 {
        '6'
    } else if d == 7 {
        '7'
    } else if d == 8 {
        '8'
    } else {
        '9'
    }
}

/// `n` written in decimal, without leading zeros.
pub open spec fn decimal(n: nat) -> Seq<char>
    decreases n,
{
    if n < 10 {
        seq![digit_char(n)]
    } else {
        decimal(n / 10).push(digit_char(n % 10))
    }
}

/// The status word of a task.
pub open spec fn status_text(completed: bool) -> Seq<char> {
    if completed {
        seq!['C', 'o', 'm', 'p', 'l', 'e', 't', 'e', 'd']
    } else {
        seq!['P', 'e', 'n', 'd', 'i', 'n', 'g']
    }
}

/// One line of the listing: `ID: <id>, Description: <text>, Status: <status>`.
pub open spec fn task_line(t: TaskModel) -> Seq<char> {
    seq!['I', 'D', ':', ' '] + decimal(t.id as nat) + seq![
        ',',
        ' ',
        'D',
        'e',
        's',
        'c',
        'r',
        'i',
        'p',
        't',
        'i',
        'o',
        'n',
        ':',
        ' ',
    ] + t.description + seq![',', ' ', 'S', 't', 'a', 't', 'u', 's', ':', ' '] + status_text(
        t.completed,
    ) + seq!['\n']
}

/// The lines of all of `ts`, in order.
pub open spec fn task_lines(ts: Seq<TaskModel>) -> Seq<char>
    decreases ts.len(),
{
    if ts.len() == 0 {
        Seq::empty()
    } else {
        task_lines(ts.drop_last()) + task_line(ts.last())
    }
}

/// The listing of `u`'s tasks: a heading `Tasks for <u>:` and one line per
/// task, or `No tasks found for <u>` when `u` has no list.
pub open spec fn report(m: StoreModel, u: Seq<char>) -> Seq<char> {
    let i = m.list_index(u);
    if i < 0 {
        seq!['N', 'o', ' ', 't', 'a', 's', 'k', 's', ' ', 'f', 'o', 'u', 'n', 'd', ' ', 'f', 'o', 'r', ' ']
            + u + seq!['\n']
    } else {
        seq!['T', 'a', 's', 'k', 's', ' ', 'f', 'o', 'r', ' '] + u + seq![':', '\n'] + task_lines(
            m.task_lists[i].tasks,
        )
    }
}

fn digit_str(d: u32) -> (r: &'static str)
    requires
        d < 10,
    ensures
        r@ == seq![digit_char(d as nat)],
{
    proof {
        reveal_strlit("0");
        reveal_strlit("1");
        reveal_strlit("2");
        reveal_strlit("3");
        reveal_strlit("4");
        reveal_strlit("5");
        reveal_strlit("6");
        reveal_strlit("7");
        reveal_strlit("8");
        reveal_strlit("9");
    }
    if d == 0 {
        "0"
    } else if d == 1 {
        "1"
    } else if d == 2 {
        "2"
    } else if d == 3 {
        "3"
    } else if d == 4 {
        "4"
    } else if d == 5 {
        "5"
    } else if d == 6 {
        "6"
    } else if d == 7 {
        "7"
    } else if d == 8 {
        "8"
    } else {
        "9"
    }
}

/// Appends `n` in decimal to `out`.
pub fn push_decimal(out: &mut String, n: u32)
    ensures
        final(out)@ == old(out)@ + decimal(n as nat),
    decreases n,
{
    if n >= 10 {
        push_decimal(out, n / 10);
    }
    out.append(digit_str(n % 10));
    assert(final(out)@ =~= old(out)@ + decimal(n as nat));
}

/// Appends the listing line of `t` to `out`.
fn push_task_line(out: &mut String, t: &Task)
    ensures
        final(out)@ == old(out)@ + task_line(t@),
{
    proof {
        reveal_strlit("ID: ");
        reveal_strlit(", Description: ");
        reveal_strlit(", Status: ");
        reveal_strlit("Completed");
        reveal_strlit("Pending");
        reveal_strlit("\n");
    }
    out.append("ID: ");
    push_decimal(out, t.id);
    out.append(", Description: ");
    out.append(t.description.as_str());
    out.append(", Status: ");
    if t.completed {
        out.append("Completed");
    } else {
        out.append("Pending");
    }
    out.append("\n");
    assert(final(out)@ =~= old(out)@ + task_line(t@));
}

impl AppData {
    /// The listing of the tasks of `username`, one line per task with its id,
    /// description and status, or a line saying that there are none.
    pub fn display_tasks(&self, username: &str) -> (r: String)
        ensures
            r@ == report(self@, username@),
    {
        proof {
            reveal_strlit("No tasks found for ");
            reveal_strlit("Tasks for ");
            reveal_strlit(":\n");
            reveal_strlit("\n");
        }
        let u = username.to_owned();
        let mut out = String::new();
        match crate::store::find_list(&self.task_lists, &u) {
            None => {
                out.append("No tasks found for ");
                out.append(username);
                out.append("\n");
            },
            Some(i) => {
                out.append("Tasks for ");
                out.append(username);
                out.append(":\n");
                let ghost head = out@;
                let tasks = &self.task_lists[i].tasks;
                let ghost ts = tasks_view(tasks@);
                let mut k: usize = 0;
                while k < tasks.len()
                    invariant
                        k <= tasks.len(),
                        ts == tasks_view(tasks@),
                        out@ == head + task_lines(ts.take(k as int)),
                    decreases tasks.len() - k,
                {
                    assert(ts.take(k + 1).drop_last() =~= ts.take(k as int));
                    push_task_line(&mut out, &tasks[k]);
                    assert(out@ =~= head + task_lines(ts.take(k + 1)));
                    k += 1;
                }
                assert(ts.take(ts.len() as int) =~= ts);
            },
        }
        assert(out@ =~= report(self@, username@));
        out
    }
}

} // verus!
