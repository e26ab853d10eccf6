use libp9cpu::client::error::P9cpuClientError;
use libp9cpu::cmd::{Command, CommandReq};
use libp9cpu::poll::Polled;
use libp9cpu::rpc::message::{
    first_ninep_request, ninep_bytes, open_ninep, open_stdin, stdin_bytes, vec_to_uuid,
    NinepForwardRequest, P9cpuBytes, P9cpuSessionId, P9cpuStdinRequest, P9cpuWaitResponse,
    PrependedStream, StartRequest, StdinFrames,
};
use libp9cpu::rpc::rpc_client::{ByteStream, ByteVecStream, RpcClient, RpcError, TryOrErrInto};
use libp9cpu::rpc::rpc_server::P9cpuService;
use libp9cpu::rpc::status::{Status, StatusCode};
use libp9cpu::server::error::P9cpuServerError;
use libp9cpu::server::session::{ChildStdio, Session};
use libp9cpu::session_id::{id_from_bytes, id_to_bytes};
use libp9cpu::ssh::channel::{code_from_status, status_from_code, ChannelMsg};
use libp9cpu::ssh::ssh_client;
use libp9cpu::ssh::ssh_client::{
    loop_fn, wait_result, ChannelAction, ChannelEvent, ChannelInfo, Handler, SshClient,
};
use libp9cpu::ssh::ssh_server;
use libp9cpu::ssh::ssh_server::{end_message, error_message, output_message, ServerHandler};

type Service = P9cpuService<u32, &'static str, char>;

fn end(
    service: &mut Service,
    sid: u128,
    status: Result<Option<i32>, String>,
) -> Result<P9cpuWaitResponse, Status> {
    service.exited(sid)?;
    while service.inner.next_task(sid).is_some() {
        service.inner.joined(sid);
    }
    service.wait_done(sid, status)
}

fn request() -> CommandReq {
    Command::new("sh".to_string()).req
}

fn id(sid: u128) -> P9cpuSessionId {
    P9cpuSessionId { id: sid.to_be_bytes().to_vec() }
}

fn invalid(message: &str) -> Status {
    Status { code: StatusCode::InvalidArgument, message: message.to_string() }
}

fn internal(message: &str) -> Status {
    Status { code: StatusCode::Internal, message: message.to_string() }
}

#[test]
fn ids_are_sixteen_bytes() {
    let sid = 0x0102_0304_0506_0708_090a_0b0c_0d0e_0f10u128;
    assert_eq!(id_to_bytes(sid), (1..=16).collect::<Vec<u8>>());
    assert_eq!(id_from_bytes(&id_to_bytes(sid)), Ok(sid));
    assert_eq!(
        id_from_bytes(&[1, 2, 3]),
        Err("invalid length: expected 16 bytes, found 3".to_string())
    );
    assert_eq!(
        vec_to_uuid(&vec![]),
        Err(invalid("invalid length: expected 16 bytes, found 0"))
    );
}

#[test]
fn new_sessions_have_random_ids() {
    let mut service = Service::new();
    let a = service.dial().unwrap();
    let b = service.dial().unwrap();
    assert_ne!(a, b);
    for reply in [a, b] {
        assert_eq!(reply.id.len(), 16);
        assert_eq!(reply.id[6] >> 4, 4);
        assert_eq!(reply.id[8] >> 6, 2);
        let sid = RpcClient::new(()).dial(Ok(reply)).unwrap();
        assert_eq!(service.inner.dial(sid), Err(P9cpuServerError::DuplicateId));
    }
}

#[test]
fn dial_of_a_taken_id_is_refused() {
    let mut service = Service::new();
    assert_eq!(service.dial_as(5), Ok(id(5)));
    assert_eq!(service.dial_as(5), Err(internal("Duplicate session id")));
}

#[test]
fn start_call_is_answered() {
    let mut service = Service::new();
    assert_eq!(service.dial_as(5), Ok(id(5)));
    let no_cmd = StartRequest { id: vec![], cmd: None };
    assert_eq!(service.start(no_cmd).unwrap_err(), invalid("No cmd provided."));
    let bad_id = StartRequest { id: vec![1], cmd: Some(request()) };
    assert_eq!(
        service.start(bad_id).unwrap_err(),
        invalid("invalid length: expected 16 bytes, found 1")
    );
    let plan = service.start(RpcClient::new(()).start(5, request())).unwrap();
    assert_eq!(plan.plan.program, "sh");
    assert_eq!(
        service.start(RpcClient::new(()).start(5, request())).unwrap_err(),
        internal("Session does not exist")
    );
}

#[test]
fn calls_for_a_session_are_answered() {
    let mut service = Service::new();
    let client = RpcClient::new(());
    assert_eq!(service.stdout(&id(6)), Err(internal("Session does not exist")));
    service.inner.started(6, Session::new(ChildStdio::Piped(1, 2, 3), "child", vec![]));
    assert_eq!(service.stdout(&client.session_request(6)), Ok(&2));
    assert_eq!(service.stderr(&client.session_request(6)), Ok(Some(&3)));
    assert_eq!(service.wait(&client.session_request(6)), Ok(&"child"));
    assert_eq!(end(&mut service, 6, Ok(Some(4))), Ok(P9cpuWaitResponse { code: 4 }));
    assert_eq!(service.wait(&id(6)), Err(internal("Session does not exist")));
    assert_eq!(
        end(&mut service, 6, Ok(Some(4))),
        Err(internal("Session does not exist"))
    );
    service.inner.started(6, Session::new(ChildStdio::Piped(1, 2, 3), "child", vec!['a']));
    assert_eq!(
        end(&mut service, 6, Ok(None)),
        Err(internal("Command exited without return code."))
    );
    assert_eq!(
        service.stderr(&P9cpuSessionId { id: vec![] }),
        Err(invalid("invalid length: expected 16 bytes, found 0"))
    );
}

#[test]
fn input_without_items_makes_no_call() {
    let client = RpcClient::new(());
    assert!(client.stdin(7, None).is_none());
    assert_eq!(client.stdin_done(None), Ok(()));
    let (first, mut frames) = client.stdin(7, Some(vec![1])).unwrap();
    assert_eq!(first, P9cpuStdinRequest { id: Some(id(7).id), data: vec![1] });
    assert_eq!(frames.frame(vec![2]), P9cpuStdinRequest { id: None, data: vec![2] });
    assert_eq!(client.stdin_done(Some(Ok(()))), Ok(()));
    assert_eq!(
        client.stdin_done(Some(Err("x".to_string()))),
        Err(RpcError::Rpc("x".to_string()))
    );
}

#[test]
fn failed_calls_are_errors() {
    let client = RpcClient::new(());
    let x = || "x".to_string();
    assert_eq!(client.dial(Err(x())), Err(RpcError::Rpc(x())));
    assert_eq!(client.wait(Err(x())), Err(RpcError::Rpc(x())));
    assert_eq!(client.wait(Ok(P9cpuWaitResponse { code: 3 })), Ok(3));
    assert_eq!(client.answered(Ok(1)), Ok(1));
    assert_eq!(client.answered::<u8>(Err(x())), Err(RpcError::Rpc(x())));
}

#[test]
fn input_arrives() {
    let items: Vec<Vec<u8>> = vec![vec![1, 2], vec![], vec![3]];
    let mut frames = StdinFrames::new(7);
    let sent: Vec<P9cpuStdinRequest> = items.iter().map(|i| frames.frame(i.clone())).collect();
    assert_eq!(sent[0].id, Some(id(7).id));
    assert_eq!(sent[1].id, None);
    let mut service = Service::new();
    service.inner.started(7, Session::new(ChildStdio::Pty(8, 9), "child", vec![]));
    let mut arrived = sent.into_iter();
    let (sid, first, f) = service.stdin(arrived.next().map(Ok)).unwrap();
    assert_eq!((sid, f), (7, &8));
    let mut got = vec![first];
    for frame in arrived {
        got.push(stdin_bytes(Ok(frame)).unwrap());
    }
    assert_eq!(got, items);
    assert_eq!(stdin_bytes(Err(internal("x"))), None);
}

#[test]
fn stream_without_session_is_refused() {
    let service = Service::new();
    let no_id = || Some(Ok(P9cpuStdinRequest { id: None, data: vec![1] }));
    assert_eq!(service.stdin(None), Err(invalid("no session id.")));
    assert_eq!(service.stdin(Some(Err(internal("x")))), Err(invalid("no session id.")));
    assert_eq!(service.stdin(no_id()), Err(invalid("no session id.")));
    assert_eq!(open_stdin(no_id()), Err(invalid("no session id.")));
    let short = P9cpuStdinRequest { id: Some(vec![0; 15]), data: vec![] };
    assert_eq!(
        service.stdin(Some(Ok(short))),
        Err(invalid("invalid length: expected 16 bytes, found 15"))
    );
    let unknown = P9cpuStdinRequest { id: Some(id(1).id), data: vec![] };
    assert_eq!(service.stdin(Some(Ok(unknown))), Err(internal("Session does not exist")));
    assert_eq!(open_ninep(None), Err(invalid("no session id.")));
}

#[test]
fn file_system_stream_is_opened() {
    let mut service = Service::new();
    let first = || Some(Ok(first_ninep_request(3)));
    assert_eq!(first_ninep_request(3).data, vec![]);
    assert_eq!(service.ninep_forward(first()), Err(internal("Session does not exist")));
    assert_eq!(service.dial_as(3), Ok(id(3)));
    assert_eq!(service.ninep_forward(first()), Ok(3));
    assert_eq!(ninep_bytes(Ok(NinepForwardRequest::from(vec![5]))), Some(vec![5]));
    assert_eq!(ninep_bytes(Err(internal("x"))), None);
}

#[test]
fn item_is_given_before_the_stream() {
    let mut s = PrependedStream::new('i', "stream");
    assert_eq!(s.poll_next(), Some('i'));
    assert_eq!(s.poll_next(), None);
    assert_eq!(s.stream, "stream");
}

#[test]
fn messages_are_made_of_bytes() {
    assert_eq!(Vec::<u8>::from(P9cpuBytes { data: vec![1] }), vec![1]);
    assert_eq!(
        P9cpuStdinRequest::from(vec![2]),
        P9cpuStdinRequest { id: None, data: vec![2] }
    );
    assert_eq!(
        NinepForwardRequest::from(vec![3]),
        NinepForwardRequest { id: None, data: vec![3] }
    );
}

#[test]
fn task_gives_its_own_result() {
    let t = TryOrErrInto { future: () };
    let pending: Polled<Result<Result<u8, String>, &str>> = Polled::Pending;
    assert_eq!(t.poll(pending), Polled::Pending);
    let done: Polled<Result<Result<u8, String>, &str>> = Polled::Ready(Ok(Ok(1)));
    assert_eq!(t.poll(done), Polled::Ready(Ok(1)));
    let failed: Polled<Result<Result<u8, String>, &str>> =
        Polled::Ready(Ok(Err("inner".to_string())));
    assert_eq!(t.poll(failed), Polled::Ready(Err("inner".to_string())));
    let lost: Polled<Result<Result<u8, String>, &str>> = Polled::Ready(Err("outer"));
    assert_eq!(t.poll(lost), Polled::Ready(Err("outer".to_string())));
}

#[test]
fn streams_of_a_call_are_polled() {
    let b = ByteStream { inner: () };
    assert_eq!(b.poll_next(Polled::Pending), Polled::Pending);
    assert_eq!(b.poll_next(Polled::Ready(None)), Polled::Ready(None));
    assert_eq!(b.poll_next(Polled::Ready(Some(Ok(1)))), Polled::Ready(Some(Ok(1))));
    assert_eq!(
        b.poll_next(Polled::Ready(Some(Err("x".to_string())))),
        Polled::Ready(Some(Err(RpcError::Rpc("x".to_string()))))
    );
    let v = ByteVecStream { inner: (), session: 1, name: "stdout" };
    assert_eq!(v.poll_next(Polled::Pending), Polled::Pending);
    assert_eq!(v.poll_next(Polled::Ready(None)), Polled::Ready(None));
    assert_eq!(
        v.poll_next(Polled::Ready(Some(Ok(P9cpuBytes { data: vec![1] })))),
        Polled::Ready(Some(vec![1]))
    );
    assert_eq!(v.poll_next(Polled::Ready(Some(Err("x".to_string())))), Polled::Ready(None));
}

#[test]
fn bad_session_of_a_server_is_an_error() {
    let e = RpcClient::new(()).dial(Ok(P9cpuSessionId { id: vec![0; 17] })).unwrap_err();
    assert_eq!(
        e,
        RpcError::InvalidUuid("invalid length: expected 16 bytes, found 17".to_string())
    );
    assert_eq!(e.message(), "Invalid UUID: invalid length: expected 16 bytes, found 17");
    assert_eq!(RpcError::Rpc("x".to_string()).message(), "RPC error: x");
    assert_eq!(RpcError::JoinError("x".to_string()).message(), "Task join error: x");
    assert_eq!(
        P9cpuClientError::from(RpcError::Rpc("x".to_string())),
        P9cpuClientError::Inner("RPC error: x".to_string())
    );
}

#[test]
fn exit_status_keeps_its_bits() {
    for code in [0i32, 1, -1, i32::MAX, i32::MIN] {
        assert_eq!(status_from_code(code), code as u32);
        assert_eq!(code_from_status(status_from_code(code)), code);
    }
}

#[test]
fn end_of_a_command_arrives() {
    for code in [0i32, 3, -1] {
        assert_eq!(
            loop_fn(ChannelEvent::Message(end_message(Ok(code)))),
            ChannelAction::Report(Ok(code))
        );
    }
    let m = end_message(Err(P9cpuServerError::CommandError("\u{e9}".to_string())));
    assert_eq!(
        loop_fn(ChannelEvent::Message(m)),
        ChannelAction::Report(Err(ssh_client::SshError::WaitError(
            "Command error: \u{e9}".to_string()
        )))
    );
}

#[test]
fn bytes_that_are_no_text_are_shown() {
    let m = ChannelMsg::ExtendedData(vec![b'a', 0xff], 2);
    assert_eq!(
        loop_fn(ChannelEvent::Message(m)),
        ChannelAction::Report(Err(ssh_client::SshError::WaitError("a\u{fffd}".to_string())))
    );
}

#[test]
fn output_arrives_over_the_channel() {
    assert_eq!(
        loop_fn(ChannelEvent::Message(output_message(vec![1]))),
        ChannelAction::Output(vec![1])
    );
    assert_eq!(
        loop_fn(ChannelEvent::Message(error_message(vec![2]))),
        ChannelAction::ErrorOutput(vec![2])
    );
    assert_eq!(error_message(vec![2]), ChannelMsg::ExtendedData(vec![2], 1));
}

#[test]
fn channel_task_goes_on_or_ends() {
    assert_eq!(
        loop_fn(ChannelEvent::Message(ChannelMsg::ExtendedData(vec![], 3))),
        ChannelAction::Ignore
    );
    assert_eq!(loop_fn(ChannelEvent::Message(ChannelMsg::Other)), ChannelAction::Ignore);
    assert_eq!(loop_fn(ChannelEvent::Input(vec![1])), ChannelAction::SendInput(vec![1]));
    assert_eq!(loop_fn(ChannelEvent::Command(request())), ChannelAction::Exec(request()));
    assert_eq!(loop_fn(ChannelEvent::AllClosed), ChannelAction::Stop);
    assert_eq!(
        loop_fn(ChannelEvent::SendFailed),
        ChannelAction::Report(Err(ssh_client::SshError::ChannelClosed))
    );
    assert_eq!(
        loop_fn(ChannelEvent::ConnectionFailed("x".to_string())),
        ChannelAction::Report(Err(ssh_client::SshError::Russh("x".to_string())))
    );
}

#[test]
fn ends_of_a_channel_are_handed_out_once() {
    let mut client = SshClient::new("connection");
    assert_eq!(client.handle(), &"connection");
    assert!(client.channel(1).is_none());
    client.dial(1, ChannelInfo::new("out", "err", 'i', 5u8, 6u16));
    assert_eq!(client.start(1), 6);
    assert_eq!(client.stdout(1), "out");
    assert_eq!(client.stderr(1), "err");
    assert_eq!(client.stdin(1), 'i');
    let left = client.channel(1).unwrap();
    assert!(left.cmd_tx.is_none() && left.stdout_rx.is_none() && left.stderr_rx.is_none());
    assert!(left.stdin_tx.is_none());
    assert_eq!(left.code_rx, Some(5));
    assert_eq!(client.wait(1), 5);
    assert!(client.channel(1).unwrap().code_rx.is_none());
    assert_eq!(client.handle(), &"connection");
}

#[test]
fn lost_exit_code_is_an_error() {
    assert_eq!(wait_result(Some(Ok(1))), Ok(1));
    assert_eq!(wait_result(None), Err(ssh_client::SshError::SenderGone));
}

#[test]
fn every_server_key_is_taken() {
    assert!(Handler::new().check_server_key());
}

#[test]
fn channel_requests_are_answered() {
    let mut h: ServerHandler<u32, &'static str, char> = ServerHandler::new();
    assert_eq!(h.channel_open_session(1), Ok(true));
    assert_eq!(
        h.channel_open_session(1),
        Err(ssh_server::SshError::Cpud(P9cpuServerError::DuplicateId))
    );
    assert!(h.auth_publickey());
    assert_eq!(
        h.data(1),
        Err(ssh_server::SshError::Cpud(P9cpuServerError::SessionNotExist))
    );
    assert_eq!(h.exec_request(1, request()).unwrap().plan.program, "sh");
    assert_eq!(
        h.exec_request(1, request()).unwrap_err(),
        ssh_server::SshError::Cpud(P9cpuServerError::SessionNotExist)
    );
    h.inner.started(1, Session::new(ChildStdio::Pty(8, 9), "child", vec![]));
    assert_eq!(h.data(1), Ok(&8));
}

#[test]
fn secure_shell_errors_have_their_words() {
    let x = || "x".to_string();
    let cases = vec![
        (ssh_client::SshError::WaitError(x()), "Wait cmd error: x"),
        (ssh_client::SshError::Russh(x()), "russh lib error: x"),
        (ssh_client::SshError::JoinError(x()), "Task join error: x"),
        (ssh_client::SshError::ChannelClosed, "Channel closed"),
        (ssh_client::SshError::SenderGone, "Sender is gone"),
    ];
    for (error, words) in cases {
        assert_eq!(error.message(), words);
        assert_eq!(P9cpuClientError::from(error), P9cpuClientError::Inner(words.to_string()));
    }
    let cases = vec![
        (ssh_server::SshError::Russh(x()), "russh lib error: x"),
        (
            ssh_server::SshError::Cpud(P9cpuServerError::No9pPort),
            "cpud error: 9p forward not setup",
        ),
        (ssh_server::SshError::InvalidProto(x()), "Invalid data: x"),
        (ssh_server::SshError::Io(x()), "IO error: x"),
    ];
    for (error, words) in cases {
        assert_eq!(error.message(), words);
    }
}
