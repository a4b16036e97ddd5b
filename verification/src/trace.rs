//! An indented trace of nested calls.

use vstd::prelude::*;
use vstd::string::*;

verus! {

/// The character of a digit.
pub open spec fn digit(d: int) -> char {
    if d == 0 {
        '0'
    } else if d == 1 {
        '1'
    } else if d == 2 {
        '2'
    } else if d == 3 {
        '3'
    } else if d == 4 {
        '4'
    } else if d == 5 {
        '5'
    } else if d == 6 {
        '6'
    } else if d == 7 {
        '7'
    } else if d == 8 {
        '8'
    } else {
        '9'
    }
}

/// The digits of a natural number, the highest first.
pub open spec fn digits(n: nat) -> Seq<char>
    decreases n,
{
    if n < 10 {
        seq![digit(n as int)]
    } else {
        digits(n / 10).push(digit((n % 10) as int))
    }
}

/// A whole number as it is written in decimal.
pub open spec fn decimal(n: int) -> Seq<char> {
    if n < 0 {
        seq!['-'] + digits((-n) as nat)
    } else {
        digits(n as nat)
    }
}

fn digit_char(d: u64) -> (c: char)
    requires
        d < 10,
    ensures
        c == digit(d as int),
{
    if d == 0 {
        '0'
    } else if d == 1 {
        '1'
    } else if d == 2 {
        '2'
    } else if d == 3 {
        '3'
    } else if d == 4 {
        '4'
    } else if d == 5 {
        '5'
    } else if d == 6 {
        '6'
    } else if d == 7 {
        '7'
    } else if d == 8 {
        '8'
    } else {
        '9'
    }
}

/// Writes a whole number in decimal at the end of `out`.
pub fn push_decimal(out: &mut String, n: i32)
    ensures
        final(out)@ == old(out)@ + decimal(n as int),
{
    let mut rest: u64 = if n < 0 {
        out.push('-');
        (-(n as i64)) as u64
    } else {
        n as u64
    };
    let ghost head = out@;
    let ghost size = rest as nat;
    let mut low: Vec<char> = Vec::new();
    while rest >= 10
        invariant
            forall|front: Seq<char>| #[trigger]
                (front + digits(size)) == front + digits(rest as nat) + low@.reverse(),
        decreases rest,
    {
        let ghost before = low@;
        let ghost whole = rest as nat;
        low.push(digit_char(rest % 10));
        rest = rest / 10;
        proof {
            assert forall|front: Seq<char>| #[trigger]
                (front + digits(size)) == front + digits(rest as nat) + low@.reverse() by {
                assert(front + digits(size) == front + digits(whole) + before.reverse());
                assert(low@.reverse() =~= seq![digit((whole % 10) as int)] + before.reverse());
                assert(digits(whole) =~= digits(rest as nat) + seq![digit((whole % 10) as int)]);
                assert(front + digits(whole) + before.reverse() =~= front + digits(rest as nat)
                    + low@.reverse());
            }
        }
    }
    out.push(digit_char(rest));
    let ghost top = seq![digit(rest as int)];
    assert(digits(rest as nat) =~= top);
    let mut i: usize = low.len();
    while i > 0
        invariant
            i <= low.len(),
            out@ == head + top + low@.reverse().take(low.len() - i),
        decreases i,
    {
        i -= 1;
        out.push(low[i]);
        assert(out@ =~= head + top + low@.reverse().take(low.len() - i));
    }
    assert(low@.reverse().take(low.len() as int) =~= low@.reverse());
    assert(out@ == head + digits(size));
    assert(out@ =~= old(out)@ + decimal(n as int));
}

/// A call to trace, with its two arguments.
#[derive(Debug, Clone)]
pub enum Command {
    Run(i32, i32),
    PrintResultSum(i32, i32),
    Sum(i32, i32),
    Add(i32, i32),
}

/// Four spaces for each level of depth.
pub open spec fn indent(depth: nat) -> Seq<char> {
    Seq::new(4 * depth, |i: int| ' ')
}

/// A call as the trace shows it: the name and the two arguments.
pub open spec fn call_text(name: Seq<char>, a: int, b: int) -> Seq<char> {
    name + "("@ + decimal(a) + ", "@ + decimal(b) + ")"@
}

/// A call with the sum that it gives.
pub open spec fn result_text(name: Seq<char>, a: int, b: int) -> Seq<char> {
    call_text(name, a, b) + " -> "@ + decimal(a + b)
}

/// The lines that the trace of a command holds, from the depth `depth` on.
pub open spec fn trace_of(depth: nat, command: Command) -> Seq<Seq<char>> {
    match command {
        Command::Run(a, b) => seq![
            indent(depth) + call_text("run"@, a as int, b as int),
            indent(depth + 1) + call_text("print_result_sum"@, a as int, b as int),
            indent(depth + 1) + result_text("sum"@, a as int, b as int),
        ],
        Command::PrintResultSum(a, b) => seq![
            indent(depth) + call_text("print_sum"@, a as int, b as int),
            indent(depth + 1) + result_text("sum"@, a as int, b as int),
        ],
        Command::Sum(a, b) => seq![
            indent(depth) + call_text("sum"@, a as int, b as int),
            indent(depth + 1) + result_text("add"@, a as int, b as int),
        ],
        Command::Add(a, b) => seq![indent(depth) + result_text("add"@, a as int, b as int)],
    }
}

/// The views of the lines of a log.
pub open spec fn lines(log: Seq<String>) -> Seq<Seq<char>> {
    log.map_values(|line: String| line@)
}

/// Whether a sum fits the type of its summands.
pub open spec fn sum_fits(a: i32, b: i32) -> bool {
    i32::MIN <= a + b <= i32::MAX
}

/// The two arguments of a command.
pub open spec fn arguments(command: Command) -> (i32, i32) {
    match command {
        Command::Run(a, b) => (a, b),
        Command::PrintResultSum(a, b) => (a, b),
        Command::Sum(a, b) => (a, b),
        Command::Add(a, b) => (a, b),
    }
}

fn call_line(name: &str, a: i32, b: i32) -> (r: String)
    ensures
        r@ == call_text(name@, a as int, b as int),
{
    let mut text = String::from_str(name);
    text.append("(");
    push_decimal(&mut text, a);
    text.append(", ");
    push_decimal(&mut text, b);
    text.append(")");
    text
}

fn result_line(name: &str, a: i32, b: i32) -> (r: String)
    requires
        sum_fits(a, b),
    ensures
        r@ == result_text(name@, a as int, b as int),
{
    let mut text = call_line(name, a, b);
    text.append(" -> ");
    push_decimal(&mut text, a + b);
    text
}

/// Traces calls into a log, each line indented by the depth of its call.
pub struct StateMachine {
    pub depth: usize,
}

impl StateMachine {
    /// A machine at depth 0.
    pub fn new() -> (r: Self)
        ensures
            r.depth == 0,
    {
        StateMachine { depth: 0 }
    }

    /// Puts `msg` at the end of the log, behind four spaces for each level
    /// of depth.
    pub fn log(&self, msg: &str, out: &mut Vec<String>)
        ensures
            lines(final(out)@) == lines(old(out)@).push(indent(self.depth as nat) + msg@),
    {
        let mut line = String::new();
        let mut level: usize = 0;
        while level < self.depth
            invariant
                level <= self.depth,
                line@ == indent(level as nat),
            decreases self.depth - level,
        {
            line.append("    ");
            proof {
                reveal_strlit("    ");
                assert(line@ =~= indent((level + 1) as nat));
            }
            level += 1;
        }
        line.append(msg);
        let ghost wanted = line@;
        out.push(line);
        assert(lines(out@) =~= lines(old(out)@).push(wanted));
    }

    /// Traces a command from depth 0.
    pub fn execute(&mut self, command: Command, out: &mut Vec<String>)
        requires
            sum_fits(arguments(command).0, arguments(command).1),
        ensures
            final(self).depth == 0,
            lines(final(out)@) == lines(old(out)@) + trace_of(0, command),
    {
        self.depth = 0;
        self.run_command(command, out)
    }

    /// Traces a command from the depth that the machine is at.
    pub fn run_command(&mut self, command: Command, out: &mut Vec<String>)
        requires
            old(self).depth < usize::MAX,
            sum_fits(arguments(command).0, arguments(command).1),
        ensures
            final(self).depth == old(self).depth,
            lines(final(out)@) == lines(old(out)@) + trace_of(old(self).depth as nat, command),
    {
        let ghost before = lines(out@);
        match command {
            Command::Run(a, b) => {
                self.log(call_line("run", a, b).as_str(), out);
                self.depth += 1;
                self.print_result_sum(a, b, out);
                self.depth -= 1;
            },
            Command::PrintResultSum(a, b) => {
                self.log(call_line("print_sum", a, b).as_str(), out);
                self.depth += 1;
                self.sum(a, b, out);
                self.depth -= 1;
            },
            Command::Sum(a, b) => {
                self.log(call_line("sum", a, b).as_str(), out);
                self.depth += 1;
                self.add(a, b, out);
                self.depth -= 1;
            },
            Command::Add(a, b) => {
                self.log(result_line("add", a, b).as_str(), out);
            },
        }
        assert(lines(out@) =~= before + trace_of(self.depth as nat, command));
    }

    /// Traces the call that prints a sum, and the sum itself, at the depth
    /// that the machine is at.
    pub fn print_result_sum(&self, a: i32, b: i32, out: &mut Vec<String>)
        requires
            sum_fits(a, b),
        ensures
            lines(final(out)@) == lines(old(out)@).push(
                indent(self.depth as nat) + call_text("print_result_sum"@, a as int, b as int),
            ).push(indent(self.depth as nat) + result_text("sum"@, a as int, b as int)),
    {
        self.log(call_line("print_result_sum", a, b).as_str(), out);
        self.sum(a, b, out);
    }

    /// Traces a sum with its result.
    pub fn sum(&self, a: i32, b: i32, out: &mut Vec<String>)
        requires
            sum_fits(a, b),
        ensures
            lines(final(out)@) == lines(old(out)@).push(
                indent(self.depth as nat) + result_text("sum"@, a as int, b as int),
            ),
    {
        self.log(result_line("sum", a, b).as_str(), out);
    }

    /// Traces an addition with its result.
    pub fn add(&self, a: i32, b: i32, out: &mut Vec<String>)
        requires
            sum_fits(a, b),
        ensures
            lines(final(out)@) == lines(old(out)@).push(
                indent(self.depth as nat) + result_text("add"@, a as int, b as int),
            ),
    {
        self.log(result_line("add", a, b).as_str(), out);
    }
}

} // verus!
