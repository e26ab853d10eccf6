use libp9cpu::client::copy::{
    copy_stream, input_step, InputAction, InputEvent, OutputAction, OutputEvent,
};
use libp9cpu::client::error::{P9cpuClientError, WaitError};
use libp9cpu::client::reader::StreamReader;
use libp9cpu::client::session::{
    plan_wait, P9cpuClient, Reply, Stage, StepOutcome, WaitStep, Waiting,
};
use libp9cpu::client::writer::{PipeError, SenderWriter, WriteReserved, WriteStart};
use libp9cpu::cmd::Command;
use libp9cpu::poll::Polled;

type Client = P9cpuClient<(), char, u8>;

#[test]
fn reader_gives_what_there_is_room_for() {
    let mut r = StreamReader::new(());
    assert_eq!(r.poll_buffered(4), None);
    assert_eq!(r.poll_item(2, Polled::Ready(Some(vec![1, 2, 3, 4, 5]))), Polled::Ready(vec![1, 2]));
    assert_eq!(r.poll_buffered(0), Some(vec![]));
    assert_eq!(r.poll_buffered(2), Some(vec![3, 4]));
    assert_eq!(r.poll_buffered(2), Some(vec![5]));
    assert_eq!(r.poll_buffered(2), None);
    assert_eq!(r.poll_item(2, Polled::Pending), Polled::Pending);
    assert_eq!(r.poll_item(2, Polled::Ready(Some(vec![]))), Polled::Ready(vec![]));
    assert_eq!(r.poll_buffered(2), None);
    assert_eq!(r.poll_item(2, Polled::Ready(None)), Polled::Ready(vec![]));
}

#[test]
fn reader_loses_no_byte() {
    let items: Vec<Vec<u8>> = vec![vec![1, 2, 3], vec![], vec![4], vec![5, 6, 7, 8, 9]];
    for room in 1..7 {
        let mut r = StreamReader::new(items.clone().into_iter());
        let mut out: Vec<u8> = vec![];
        for _ in 0..20 {
            match r.poll_buffered(room) {
                Some(bytes) => out.extend(bytes),
                None => {
                    let item = r.inner_mut().next();
                    match r.poll_item(room, Polled::Ready(item)) {
                        Polled::Ready(bytes) => out.extend(bytes),
                        Polled::Pending => unreachable!(),
                    }
                }
            }
        }
        assert_eq!(out, vec![1, 2, 3, 4, 5, 6, 7, 8, 9]);
    }
}

#[test]
fn writer_sends_bytes() {
    let w = SenderWriter::new('s');
    assert_eq!(w.poll_write(&[]), WriteStart::Done(0));
    assert_eq!(w.poll_write(&[1]), WriteStart::Reserve);
    assert_eq!(w.poll_reserved(Polled::Pending, &[1]), WriteReserved::Pending);
    assert_eq!(
        w.poll_reserved(Polled::Ready(false), &[1]),
        WriteReserved::Fail(PipeError::ChannelClosed)
    );
    assert_eq!(w.poll_reserved(Polled::Ready(true), &[1, 2]), WriteReserved::Send(vec![1, 2]));
    assert_eq!(w.write_sent(true, 2), Ok(2));
    assert_eq!(w.write_sent(false, 2), Err(PipeError::ChannelClosed));
    assert_eq!(w.poll_flush(), Ok(()));
}

#[test]
fn writer_that_is_shut_down_stays_so() {
    let mut w = SenderWriter::new('s');
    assert_eq!(w.poll_shutdown(), Ok('s'));
    assert_eq!(w.poll_shutdown(), Err(PipeError::SenderDown));
    assert_eq!(w.poll_write(&[1]), WriteStart::Fail(PipeError::SenderDown));
    assert_eq!(w.poll_write(&[]), WriteStart::Done(0));
    assert_eq!(w.poll_flush(), Err(PipeError::SenderDown));
    assert_eq!(PipeError::SenderDown.message(), "Sender is down.");
    assert_eq!(PipeError::ChannelClosed.message(), "Channel is closed.");
}

fn command(ninep: bool, tty: bool) -> Command {
    let mut c = Command::new("sh".to_string());
    c.req.ninep = ninep;
    c.req.tty = tty;
    c
}

#[test]
fn command_is_started_in_order() {
    for (ninep, tty) in [(false, false), (false, true), (true, false), (true, true)] {
        let mut client = Client::new(());
        let mut s = client.start(command(ninep, tty)).unwrap();
        let mut stages = vec![];
        let mut tasks = vec!['a', 'b', 'c'].into_iter();
        let mut handed = vec![];
        while s.stage() != Stage::Running {
            stages.push(s.stage());
            let reply = match s.stage() {
                Stage::Dial => Reply::Session(42),
                Stage::Forward => Reply::Done,
                Stage::Start => {
                    assert_eq!(s.take_command(), Some(command(ninep, tty).req));
                    assert_eq!(s.take_command(), None);
                    Reply::Done
                }
                _ => {
                    let t = tasks.next().unwrap();
                    handed.push(t);
                    Reply::Task(t)
                }
            };
            s = s.step(Ok(reply)).unwrap();
            assert_eq!(s.sid(), 42);
        }
        let mut expected = vec![Stage::Dial];
        if ninep {
            expected.push(Stage::Forward);
        }
        expected.push(Stage::Start);
        expected.push(Stage::Stdout);
        if !tty {
            expected.push(Stage::Stderr);
        }
        expected.push(Stage::Stdin);
        assert_eq!(stages, expected);
        client.started(s, 9);
        assert_eq!(
            client.start(command(ninep, tty)).unwrap_err(),
            P9cpuClientError::AlreadyStarted
        );
        let info = client.wait().unwrap();
        assert_eq!((info.sid, info.stop_tx, info.tty), (42, 9, tty));
        assert_eq!(info.handles, handed);
        assert_eq!(client.wait().unwrap_err(), P9cpuClientError::NotStarted);
        assert!(client.start(command(ninep, tty)).is_ok());
    }
}

#[test]
fn failed_step_ends_the_start() {
    let client = Client::new(());
    let s = client.start(command(false, false)).unwrap();
    assert_eq!(
        s.step(Err("RPC error: x".to_string())).unwrap_err(),
        P9cpuClientError::Inner("RPC error: x".to_string())
    );
}

#[test]
fn exit_code_other_than_zero_is_an_error() {
    let client = Client::new(());
    assert_eq!(client.wait_inner(Ok(0)), Ok(()));
    for code in [3, -1] {
        assert_eq!(
            client.wait_inner(Ok(code)),
            Err(WaitError::Client(P9cpuClientError::NonZeroExitCode(code)))
        );
    }
    assert_eq!(client.wait_inner(Ok(3)).unwrap_err().message(), "Command exits with 3");
}

#[test]
fn failed_connection_is_reported_in_its_own_words() {
    let client = Client::new(());
    let error = client.wait_inner(Err("x".to_string())).unwrap_err();
    assert_eq!(error, WaitError::Connection("x".to_string()));
    assert_eq!(error.message(), "x");
}

fn failed() -> StepOutcome {
    StepOutcome::Failed("x".to_string())
}

#[test]
fn failing_tasks_do_not_change_the_result() {
    for tty in [false, true] {
        let mut w = Waiting::new(tty, 2);
        let mut codes = 0;
        while let Some(step) = w.next() {
            let outcome = match step {
                WaitStep::RawTerminal => StepOutcome::Done,
                WaitStep::ExitCode => {
                    codes += 1;
                    StepOutcome::Exit(Err(WaitError::Connection("gone".to_string())))
                }
                _ => failed(),
            };
            w = w.step(outcome).unwrap();
        }
        assert_eq!(codes, 1);
        assert_eq!(w.finish(), Err(WaitError::Connection("gone".to_string())));
    }
}

#[test]
fn terminal_that_stays_as_it_is_ends_the_wait() {
    let w = Waiting::new(true, 2);
    assert_eq!(w.next(), Some(WaitStep::RawTerminal));
    assert_eq!(w.step(failed()).unwrap_err(), "x");
    assert!(WaitStep::RawTerminal.failure_ends_wait());
    for step in [WaitStep::StopInput, WaitStep::Join(0), WaitStep::RestoreTerminal] {
        assert!(!step.failure_ends_wait());
    }
}

#[test]
fn wait_cleans_up() {
    assert_eq!(
        plan_wait(false, 3),
        vec![
            WaitStep::ExitCode,
            WaitStep::StopInput,
            WaitStep::Join(0),
            WaitStep::Join(1),
            WaitStep::Join(2),
        ]
    );
    assert_eq!(
        plan_wait(true, 1),
        vec![
            WaitStep::RawTerminal,
            WaitStep::ExitCode,
            WaitStep::StopInput,
            WaitStep::Join(0),
            WaitStep::RestoreTerminal,
        ]
    );
}

#[test]
fn input_is_copied_until_its_end() {
    assert_eq!(input_step(InputEvent::Read(vec![1, 2], 1)), InputAction::Send(vec![1]));
    assert_eq!(input_step(InputEvent::Read(vec![1, 2], 0)), InputAction::Finish);
    assert_eq!(input_step(InputEvent::Stopped), InputAction::Finish);
    assert_eq!(
        input_step(InputEvent::ReadFailed("x".to_string())),
        InputAction::Fail(P9cpuClientError::IoErr("x".to_string()))
    );
    assert_eq!(
        input_step(InputEvent::SendFailed),
        InputAction::Fail(P9cpuClientError::ChannelClosed)
    );
    assert_eq!(input_step(InputEvent::Taken(Ok(()))), InputAction::Done);
    assert_eq!(
        input_step(InputEvent::Taken(Err("x".to_string()))),
        InputAction::Fail(P9cpuClientError::Inner("x".to_string()))
    );
}

fn copy_input(
    events: Vec<InputEvent>,
    taken: Result<(), String>,
) -> (Vec<u8>, Result<(), P9cpuClientError>) {
    let mut sent = vec![];
    for event in events {
        let mut action = input_step(event);
        if action == InputAction::Finish {
            action = input_step(InputEvent::Taken(taken.clone()));
        }
        match action {
            InputAction::Send(bytes) => sent.extend(bytes),
            InputAction::Done => return (sent, Ok(())),
            InputAction::Fail(e) => return (sent, Err(e)),
            InputAction::Finish => panic!("the input is closed once"),
        }
    }
    panic!("the input has no end")
}

#[test]
fn input_is_copied_whole() {
    let read = |len| InputEvent::Read(vec![1, 2, 3], len);
    assert_eq!(
        copy_input(vec![read(2), read(3), read(0), read(1)], Ok(())),
        (vec![1, 2, 1, 2, 3], Ok(()))
    );
    assert_eq!(copy_input(vec![read(1), InputEvent::Stopped], Ok(())), (vec![1], Ok(())));
    assert_eq!(
        copy_input(vec![read(1), read(0)], Err("x".to_string())),
        (vec![1], Err(P9cpuClientError::Inner("x".to_string())))
    );
    assert_eq!(
        copy_input(vec![read(3), InputEvent::ReadFailed("y".to_string())], Ok(())),
        (vec![1, 2, 3], Err(P9cpuClientError::IoErr("y".to_string())))
    );
}

#[test]
fn output_is_copied_whole() {
    let mut written: Vec<u8> = vec![];
    let mut ends = 0;
    for item in [Some(vec![1, 2]), Some(vec![]), Some(vec![3]), None] {
        match copy_stream(OutputEvent::Item(item), true) {
            OutputAction::Write(bytes, flush) => {
                assert!(flush);
                written.extend(bytes);
            }
            OutputAction::Finish => ends += 1,
            OutputAction::Fail(_) => panic!("all was written"),
        }
    }
    assert_eq!((written, ends), (vec![1, 2, 3], 1));
}

#[test]
fn output_is_written_and_flushed() {
    assert_eq!(
        copy_stream(OutputEvent::Item(Some(vec![1])), true),
        OutputAction::Write(vec![1], true)
    );
    assert_eq!(
        copy_stream(OutputEvent::Item(Some(vec![1])), false),
        OutputAction::Write(vec![1], false)
    );
    assert_eq!(copy_stream(OutputEvent::Item(None), true), OutputAction::Finish);
    assert_eq!(
        copy_stream(OutputEvent::WriteFailed("x".to_string()), true),
        OutputAction::Fail(P9cpuClientError::IoErr("x".to_string()))
    );
}

#[test]
fn client_errors_have_their_words() {
    let cases = vec![
        (P9cpuClientError::NotStarted, "Command not started"),
        (P9cpuClientError::NonZeroExitCode(-2), "Command exits with -2"),
        (P9cpuClientError::AlreadyStarted, "Command already started"),
        (P9cpuClientError::IoErr("x".to_string()), "IO Error x"),
        (P9cpuClientError::Inner("x".to_string()), "Inner x"),
        (P9cpuClientError::ChannelClosed, "Channel closed."),
    ];
    for (error, words) in cases {
        assert_eq!(error.message(), words);
    }
}
