//! The command line's subcommands, and the work that each one asks for.
use crate::display::push_char;
use vstd::prelude::*;

verus! {

/// Shows the layout and the header of each archive.
#[derive(Debug, Clone)]
pub struct Info {
    pub input: Vec<String>,
}

/// Converts each archive to one of mean and deviation over its raw bodies.
#[derive(Debug, Clone)]
pub struct Convert {
    pub input: Vec<String>,
    pub output: String,
    pub fixedpoint: usize,
}

/// Runs a script over each archive (not available yet).
#[derive(Debug, Clone)]
pub struct Accumulate {
    pub input: Vec<String>,
    pub script: String,
}

#[derive(Debug, Clone)]
pub enum SubCommands {
    Info(Info),
    Convert(Convert),
    Accumulate(Accumulate),
}

#[derive(Debug, Clone)]
pub struct Args {
    pub command: SubCommands,
}

/// One piece of work, on one archive.
#[derive(Debug, Clone)]
pub enum Task {
    Info { path: String },
    Convert { path: String, output: String, fixedpoint: usize },
    /// The subcommand has no implementation; the user is told so.
    Unimplemented,
}

/// The work a task stands for, by its inputs.
pub open spec fn task_matches(t: Task, args: Args, i: int) -> bool {
    match args.command {
        SubCommands::Info(n) => t matches Task::Info { path } && path@ == n.input[i]@,
        SubCommands::Convert(n) => t matches Task::Convert { path, output, fixedpoint } && path@
            == n.input[i]@ && output@ == n.output@ && fixedpoint == n.fixedpoint,
        SubCommands::Accumulate(_) => t is Unimplemented,
    }
}

/// The archive a task works on, if it works on one.
pub open spec fn task_path(t: Task) -> Option<Seq<char>> {
    match t {
        Task::Info { path } => Some(path@),
        Task::Convert { path, .. } => Some(path@),
        Task::Unimplemented => None,
    }
}

/// The input archives of the command, in order.
pub open spec fn input_paths(args: Args) -> Seq<Seq<char>> {
    match args.command {
        SubCommands::Info(n) => n.input@.map_values(|s: String| s@),
        SubCommands::Convert(n) => n.input@.map_values(|s: String| s@),
        SubCommands::Accumulate(n) => n.input@.map_values(|s: String| s@),
    }
}

/// Tasks that carry out the command's work: one for each input, in order.
pub open spec fn tasks_for(tasks: Seq<Task>, args: Args) -> bool {
    &&& tasks.len() == input_len(args)
    &&& forall|i: int| 0 <= i < tasks.len() ==> task_matches(#[trigger] tasks[i], args, i)
}

/// Planning an info or convert command gives one task on each input archive,
/// in the order given: the archives the tasks work on are exactly the inputs.
/// So no input is skipped or worked on twice, and the tasks of distinct
/// inputs are distinct.
pub proof fn law_tasks_follow_inputs(args: Args, tasks: Seq<Task>)
    requires
        !(args.command is Accumulate),
        tasks_for(tasks, args),
    ensures
        tasks.map_values(|t: Task| task_path(t)) == input_paths(args).map_values(|p: Seq<char>| Some(p)),
        forall|i: int, j: int|
            0 <= i < tasks.len() && 0 <= j < tasks.len() && input_paths(args)[i] != input_paths(args)[j]
                ==> #[trigger] tasks[i] != #[trigger] tasks[j],
{
    let a = tasks.map_values(|t: Task| task_path(t));
    let b = input_paths(args).map_values(|p: Seq<char>| Some(p));
    assert(input_paths(args).len() == tasks.len());
    assert forall|i: int| 0 <= i < tasks.len() implies a[i] == b[i] && task_path(tasks[i]) == Some(
        input_paths(args)[i],
    ) by {
        assert(task_matches(tasks[i], args, i));
    }
    assert(a =~= b);
    assert forall|i: int, j: int|
        0 <= i < tasks.len() && 0 <= j < tasks.len() && input_paths(args)[i] != input_paths(args)[j]
            implies #[trigger] tasks[i] != #[trigger] tasks[j] by {
        assert(task_path(tasks[i]) == Some(input_paths(args)[i]));
        assert(task_path(tasks[j]) == Some(input_paths(args)[j]));
    }
}

pub open spec fn input_len(args: Args) -> nat {
    match args.command {
        SubCommands::Info(n) => n.input.len() as nat,
        SubCommands::Convert(n) => n.input.len() as nat,
        SubCommands::Accumulate(n) => n.input.len() as nat,
    }
}

/// The tasks of the command, one for each input, in order; they are carried
/// out one after another, and the first that fails ends the run.
pub fn run(args: &Args) -> (r: Vec<Task>)
    ensures
        r.len() == input_len(*args),
        forall|i: int| 0 <= i < r.len() ==> task_matches(#[trigger] r[i], *args, i),
        !(args.command is Accumulate) ==> r@.map_values(|t: Task| task_path(t)) == input_paths(
            *args,
        ).map_values(|p: Seq<char>| Some(p)),
{
    let mut tasks: Vec<Task> = Vec::new();
    match &args.command {
        SubCommands::Info(n) => {
            let mut i: usize = 0;
            while i < n.input.len()
                invariant
                    args.command == SubCommands::Info(*n),
                    i <= n.input.len(),
                    tasks.len() == i,
                    forall|j: int| 0 <= j < i ==> task_matches(#[trigger] tasks[j], *args, j),
                decreases n.input.len() - i,
            {
                tasks.push(Task::Info { path: n.input[i].clone() });
                i = i + 1;
            }
        },
        SubCommands::Convert(n) => {
            let mut i: usize = 0;
            while i < n.input.len()
                invariant
                    args.command == SubCommands::Convert(*n),
                    i <= n.input.len(),
                    tasks.len() == i,
                    forall|j: int| 0 <= j < i ==> task_matches(#[trigger] tasks[j], *args, j),
                decreases n.input.len() - i,
            {
                tasks.push(
                    Task::Convert {
                        path: n.input[i].clone(),
                        output: n.output.clone(),
                        fixedpoint: n.fixedpoint,
                    },
                );
                i = i + 1;
            }
        },
        SubCommands::Accumulate(n) => {
            let mut i: usize = 0;
            while i < n.input.len()
                invariant
                    args.command == SubCommands::Accumulate(*n),
                    i <= n.input.len(),
                    tasks.len() == i,
                    forall|j: int| 0 <= j < i ==> task_matches(#[trigger] tasks[j], *args, j),
                decreases n.input.len() - i,
            {
                tasks.push(Task::Unimplemented);
                i = i + 1;
            }
        },
    }
    proof {
        if !(args.command is Accumulate) {
            law_tasks_follow_inputs(*args, tasks@);
        }
    }
    tasks
}

/// The character of a decimal digit.
pub open spec fn digit_char(d: nat) -> char {
    if d == 0 {
        '0'
    } else if d == 1 {
        '1'
    } else if d == 2 {
        '2'
    } else if d == 3 {
        '3'
    } else if d == 4 {
        '4'
    } else if d == 5 {
        '5'
    } else if d == 6 {
        '6'
    } else if d == 7 {
        '7'
    } else if d == 8 {
        '8'
    } else {
        '9'
    }
}

/// `n` written in decimal, without leading zeros.
pub open spec fn decimal(n: nat) -> Seq<char>
    decreases n,
{
    if n < 10 {
        seq![digit_char(n)]
    } else {
        decimal(n / 10).push(digit_char(n % 10))
    }
}

/// The number that a text of decimal digits stands for.
pub open spec fn decimal_value(s: Seq<char>) -> int
    decreases s.len(),
{
    if s.len() == 0 {
        0
    } else {
        decimal_value(s.drop_last()) * 10 + (s.last() as int - '0' as int)
    }
}

/// The digit `d` is written as the character `d` places after `'0'`.
pub proof fn law_digit_char_code(d: nat)
    requires
        d < 10,
    ensures
        digit_char(d) as int == '0' as int + d,
{
}

/// `decimal(n)` is the ordinary base-10 text of `n`: it holds only the
/// characters `'0'` to `'9'`, it begins with `'0'` only for `n == 0`, and it
/// reads back as `n`.
pub proof fn law_decimal_reads_back(n: nat)
    ensures
        decimal(n).len() >= 1,
        forall|i: int| 0 <= i < decimal(n).len() ==> '0' <= #[trigger] decimal(n)[i] <= '9',
        decimal(n)[0] == '0' <==> n == 0,
        decimal_value(decimal(n)) == n,
    decreases n,
{
    if n < 10 {
        law_digit_char_code(n);
        assert(decimal(n).drop_last() =~= Seq::<char>::empty());
        assert(decimal_value(Seq::<char>::empty()) == 0);
        assert(decimal_value(decimal(n)) == decimal_value(decimal(n).drop_last()) * 10 + (decimal(n).last() as int - '0' as int));
    } else {
        law_decimal_reads_back(n / 10);
        law_digit_char_code(n % 10);
        let s = decimal(n);
        let t = decimal((n / 10) as nat);
        assert(s == t.push(digit_char(n % 10)));
        assert(s.drop_last() =~= t);
        assert(s.last() == digit_char(n % 10));
        assert(decimal_value(s) == decimal_value(t) * 10 + (s.last() as int - '0' as int));
        assert((n / 10) * 10 + n % 10 == n);
        assert forall|i: int| 0 <= i < s.len() implies '0' <= #[trigger] s[i] <= '9' by {
            if i < t.len() {
                assert(s[i] == t[i]);
            }
        }
        assert(s[0] == t[0]);
    }
}

fn digit(d: usize) -> (c: char)
    requires
        d < 10,
    ensures
        c == digit_char(d as nat),
{
    if d == 0 {
        '0'
    } else if d == 1 {
        '1'
    } else if d == 2 {
        '2'
    } else if d == 3 {
        '3'
    } else if d == 4 {
        '4'
    } else if d == 5 {
        '5'
    } else if d == 6 {
        '6'
    } else if d == 7 {
        '7'
    } else if d == 8 {
        '8'
    } else {
        '9'
    }
}

/// Appends `n` in decimal to `out`.
fn push_decimal(out: &mut String, n: usize)
    ensures
        final(out)@ == old(out)@ + decimal(n as nat),
    decreases n,
{
    if n < 10 {
        push_char(out, digit(n));
        proof {
            assert(old(out)@ + decimal(n as nat) =~= old(out)@.push(digit_char(n as nat)));
        }
    } else {
        push_decimal(out, n / 10);
        push_char(out, digit(n % 10));
        proof {
            assert(old(out)@ + decimal(n as nat) =~= (old(out)@ + decimal((n / 10) as nat)).push(
                digit_char((n % 10) as nat),
            ));
        }
    }
}

/// The header of a converted archive: the size, a single frame, the mean and
/// the deviation as `le_f32` bodies, and a Lua decoder whose entry `main`
/// reads them back scaled by `fixedpoint`.
pub open spec fn spec_converted_header(width: nat, height: nat, fixedpoint: nat) -> Seq<char> {
    "width : "@ + decimal(width) + "\nheight : "@ + decimal(height)
        + "\nbitfield : unknown # le_f32\ndata :\n  - single_float.raw\n  - ave_float.raw\n  - dev_float.raw\ndecoder :\n  lang : lua\n  code : |\n    function main(index)\n      local i = index * 4\n      local buf = buffer.create(4)\n      buffer.writeu8(buf, 0, rawbytes[i + 0])\n      buffer.writeu8(buf, 1, rawbytes[i + 1])\n      buffer.writeu8(buf, 2, rawbytes[i + 2])\n      buffer.writeu8(buf, 3, rawbytes[i + 3])\n      return buffer.readf32(buf, 0) * "@
        + decimal(fixedpoint) + "\n    end\n"@
}

/// The header text of a converted archive.
pub fn converted_header(width: usize, height: usize, fixedpoint: usize) -> (r: String)
    ensures
        r@ == spec_converted_header(width as nat, height as nat, fixedpoint as nat),
{
    let mut out = String::from_str("width : ");
    push_decimal(&mut out, width);
    out.append("\nheight : ");
    push_decimal(&mut out, height);
    out.append(
        "\nbitfield : unknown # le_f32\ndata :\n  - single_float.raw\n  - ave_float.raw\n  - dev_float.raw\ndecoder :\n  lang : lua\n  code : |\n    function main(index)\n      local i = index * 4\n      local buf = buffer.create(4)\n      buffer.writeu8(buf, 0, rawbytes[i + 0])\n      buffer.writeu8(buf, 1, rawbytes[i + 1])\n      buffer.writeu8(buf, 2, rawbytes[i + 2])\n      buffer.writeu8(buf, 3, rawbytes[i + 3])\n      return buffer.readf32(buf, 0) * ",
    );
    push_decimal(&mut out, fixedpoint);
    out.append("\n    end\n");
    out
}

} // verus!
