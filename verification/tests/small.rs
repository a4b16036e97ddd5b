use sto::data::Data;
use sto::dot::Dot;
use sto::echo::{after_read, EchoStep, ReadOutcome};
use sto::ports::{get_random_port, DYNAMIC_PORTS_END, DYNAMIC_PORTS_START};
use sto::trace::{push_decimal, Command, StateMachine};

#[test]
fn random_ports_lie_in_the_dynamic_range() {
    assert_eq!(DYNAMIC_PORTS_START, 49152);
    assert_eq!(DYNAMIC_PORTS_END, 65535);
    let mut low = 0;
    for _ in 0..2000 {
        let port = get_random_port();
        assert!(port >= 49152);
        assert!(port < 65535);
        if port < 57343 {
            low += 1;
        }
    }
    assert!(low > 0);
    assert!(low < 2000);
}

#[test]
fn data_holds_its_value() {
    assert_eq!(Data::new(7).value, 7);
    assert_eq!(Data::default().value, 0);
}

#[test]
fn dot_keeps_its_three_counters() {
    assert_eq!(Dot::new(1, 2, 3).tup(), (1, 2, 3));
    assert_eq!(Dot::default().tup(), (0, 0, 0));
}

#[test]
fn dot_inc_ripples_into_one_counter() {
    let mut dot = Dot::new(1, 2, 3);
    assert_eq!(dot.inc(0, 2), 3);
    assert_eq!(dot.tup(), (1, 2, 3));
    assert_eq!(dot.inc(0, 1), 2);
    assert_eq!(dot.tup(), (2, 2, 3));
    assert_eq!(dot.inc(0, 3), 5);
    assert_eq!(dot.tup(), (4, 2, 3));
    assert_eq!(dot.inc(1, 2), 4);
    assert_eq!(dot.tup(), (4, 4, 3));
    assert_eq!(dot.inc(2, 3), 6);
    assert_eq!(dot.tup(), (4, 4, 6));
    let mut top = Dot::new(0x80, 0, 0);
    assert_eq!(top.inc(0, 0x80), 0);
    assert_eq!(top.tup(), (0, 0, 0));
    assert_eq!(top.inc(0, 0xFF), 0xFF);
    assert_eq!(top.tup(), (0, 0, 0));
}

#[test]
fn echo_sends_back_what_came_and_ends_on_an_empty_read() {
    assert_eq!(after_read(ReadOutcome::Bytes(5)), EchoStep::Echo(5));
    assert_eq!(after_read(ReadOutcome::Bytes(1)), EchoStep::Echo(1));
    assert_eq!(after_read(ReadOutcome::Bytes(0)), EchoStep::Done);
    assert_eq!(after_read(ReadOutcome::Failed), EchoStep::FailWithReadError);
    assert_eq!(after_read(ReadOutcome::TimedOut), EchoStep::FailTimedOut);
}

fn decimal(n: i32) -> String {
    let mut out = String::from("n=");
    push_decimal(&mut out, n);
    out
}

#[test]
fn numbers_are_written_in_decimal() {
    assert_eq!(decimal(0), "n=0");
    assert_eq!(decimal(7), "n=7");
    assert_eq!(decimal(10), "n=10");
    assert_eq!(decimal(-1), "n=-1");
    assert_eq!(decimal(1203), "n=1203");
    assert_eq!(decimal(i32::MAX), "n=2147483647");
    assert_eq!(decimal(i32::MIN), "n=-2147483648");
}

#[test]
fn a_run_is_traced_with_its_nested_calls() {
    let mut machine = StateMachine::new();
    let mut log = vec!["kept".to_string()];
    machine.execute(Command::Run(1, 1), &mut log);
    assert_eq!(
        log,
        vec![
            "kept",
            "run(1, 1)",
            "    print_result_sum(1, 1)",
            "    sum(1, 1) -> 2",
        ]
    );
    assert_eq!(machine.depth, 0);
}

#[test]
fn each_command_has_its_trace() {
    let mut machine = StateMachine::new();
    let mut log = Vec::new();
    machine.execute(Command::PrintResultSum(2, -5), &mut log);
    machine.execute(Command::Sum(10, 20), &mut log);
    machine.execute(Command::Add(-3, 3), &mut log);
    assert_eq!(
        log,
        vec![
            "print_sum(2, -5)",
            "    sum(2, -5) -> -3",
            "sum(10, 20)",
            "    add(10, 20) -> 30",
            "add(-3, 3) -> 0",
        ]
    );
}

#[test]
fn a_trace_starts_at_the_depth_of_the_machine() {
    let mut machine = StateMachine { depth: 2 };
    let mut log = Vec::new();
    machine.run_command(Command::Sum(1, 2), &mut log);
    machine.log("done", &mut log);
    machine.print_result_sum(4, 5, &mut log);
    machine.sum(1, 1, &mut log);
    machine.add(2, 2, &mut log);
    assert_eq!(
        log,
        vec![
            "        sum(1, 2)",
            "            add(1, 2) -> 3",
            "        done",
            "        print_result_sum(4, 5)",
            "        sum(4, 5) -> 9",
            "        sum(1, 1) -> 2",
            "        add(2, 2) -> 4",
        ]
    );
    assert_eq!(machine.depth, 2);
    machine.execute(Command::Add(0, 0), &mut log);
    assert_eq!(machine.depth, 0);
    assert_eq!(log.last().unwrap(), "add(0, 0) -> 0");
}
