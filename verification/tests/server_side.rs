use libp9cpu::addr::{Addr, SocketAddr, Target, VsockAddr, Net};
use libp9cpu::addr::{client_target, server_target, DEFAULT_PORT};
use libp9cpu::chunk::{chunk, CHUNK_SIZE};
use libp9cpu::cmd::{CommandReq, EnvVar, FsTab};
use libp9cpu::ctext::{CText, NulError};
use libp9cpu::server::command::make_cmd;
use libp9cpu::server::error::P9cpuServerError;
use libp9cpu::server::forward::{copy_to, feed_stdin, forward_step, io_outcome};
use libp9cpu::server::forward::{
    CopyAction, CopyEvent, FeedAction, FeedEvent, ForwardAction, ForwardEvent, IoOutcome,
};
use libp9cpu::server::mount::{mount_table, parse_fstab_opt, MountParams};
use libp9cpu::server::pre_exec::{
    create_namespace_9p, create_private_root, mount_fstab, PreExecStep,
};
use libp9cpu::server::serve::{P9cpuServerT, Protocol, ServePlan};
use libp9cpu::server::session::{ChildStdio, Joining, P9cpuServerInner, Session};
use libp9cpu::server::{rpc_based, ssh_based};

type Inner = P9cpuServerInner<u32, &'static str, char>;

fn end(
    inner: &mut Inner,
    sid: u128,
    status: Result<Option<i32>, String>,
) -> Result<i32, P9cpuServerError> {
    inner.exited(sid)?;
    while inner.next_task(sid).is_some() {
        inner.joined(sid);
    }
    inner.wait_done(sid, status)
}

fn c(s: &str) -> CText {
    CText::from_text(s).unwrap()
}

fn tab(spec: &str, file: &str, vfstype: &str, mntops: &str) -> FsTab {
    FsTab {
        spec: spec.to_string(),
        file: file.to_string(),
        vfstype: vfstype.to_string(),
        mntops: mntops.to_string(),
        freq: 0,
        passno: 0,
    }
}

fn env(key: &str, val: &[u8]) -> EnvVar {
    EnvVar { key: key.as_bytes().to_vec(), val: val.to_vec() }
}

fn request(program: &str) -> CommandReq {
    CommandReq {
        program: program.to_string(),
        args: vec![],
        envs: vec![],
        fstab: vec![],
        tty: false,
        ninep: false,
        tmp_mnt: String::new(),
    }
}

fn private_root() -> Vec<PreExecStep> {
    vec![
        PreExecStep::Unshare(libc::CLONE_NEWNS),
        PreExecStep::Mount(MountParams {
            source: None,
            target: c("/"),
            fstype: None,
            flags: libc::MS_REC | libc::MS_PRIVATE,
            data: None,
        }),
    ]
}

#[test]
fn options_become_flags_and_data() {
    let bind = nix::mount::MsFlags::MS_BIND.bits();
    assert_eq!(parse_fstab_opt("defaults,bind"), (bind, String::new()));
    assert_eq!(parse_fstab_opt("bind,bind"), (bind, String::new()));
    assert_eq!(parse_fstab_opt("defaults"), (0, String::new()));
    assert_eq!(parse_fstab_opt("rw,bind,size=1"), (bind, "rw,size=1".to_string()));
    assert_eq!(parse_fstab_opt("rbind"), (0, "rbind".to_string()));
}

#[test]
fn other_options_stay_as_they_are() {
    for opt in ["", ",", "rw,noatime", "a,,b"] {
        assert_eq!(parse_fstab_opt(opt), (0, opt.to_string()));
    }
}

#[test]
fn line_becomes_a_mount() {
    let m = MountParams::try_from(tab("tmp", "/tmp", "tmpfs", "bind,size=1m")).unwrap();
    assert_eq!(
        m,
        MountParams {
            source: Some(c("tmp")),
            target: c("/tmp"),
            fstype: Some(c("tmpfs")),
            flags: libc::MS_BIND,
            data: Some(c("size=1m")),
        }
    );
}

#[test]
fn line_with_a_nul_is_refused() {
    let nul = |position, bytes: &[u8]| {
        P9cpuServerError::StringContainsNull(NulError { position, bytes: bytes.to_vec() })
    };
    let r = MountParams::try_from(tab("a\0", "b\0", "c", "d"));
    assert_eq!(r, Err(nul(1, b"a\0")));
    let r = MountParams::try_from(tab("a", "\0b", "c\0", "d"));
    assert_eq!(r, Err(nul(0, b"\0b")));
    let r = MountParams::try_from(tab("a", "b", "c\0", "d\0"));
    assert_eq!(r, Err(nul(1, b"c\0")));
    let r = MountParams::try_from(tab("a", "b", "c", "bind,d\0"));
    assert_eq!(r, Err(nul(1, b"d\0")));
    let r = mount_table(vec![tab("a", "b", "c", "d"), tab("x\0", "b", "c", "d"), tab("\0", "", "", "")]);
    assert_eq!(r, Err(nul(1, b"x\0")));
}

#[test]
fn process_gets_mounts_of_its_own() {
    assert_eq!(create_private_root(), private_root());
}

#[test]
fn table_makes_directories_and_mounts() {
    let steps = mount_fstab(vec![tab("s", "/a", "t", ""), tab("s", "/b", "t", "")]).unwrap();
    let mount = |target: &str| MountParams {
        source: Some(c("s")),
        target: c(target),
        fstype: Some(c("t")),
        flags: 0,
        data: Some(c("")),
    };
    assert_eq!(
        steps,
        vec![
            PreExecStep::MakeDir { path: c("/a"), existing_ok: true },
            PreExecStep::Mount(mount("/a")),
            PreExecStep::MakeDir { path: c("/b"), existing_ok: true },
            PreExecStep::Mount(mount("/b")),
        ]
    );
}

fn exported(tmp_mnt: &str, options: &str) -> Vec<PreExecStep> {
    let root = format!("{}/mnt9p", tmp_mnt);
    vec![
        PreExecStep::MakeDir { path: c(tmp_mnt), existing_ok: false },
        PreExecStep::Mount(MountParams {
            source: Some(c("p9cpu")),
            target: c(tmp_mnt),
            fstype: Some(c("tmpfs")),
            flags: 0,
            data: None,
        }),
        PreExecStep::MakeDir { path: c(&root), existing_ok: false },
        PreExecStep::Mount(MountParams {
            source: Some(c("127.0.0.1")),
            target: c(&root),
            fstype: Some(c("9p")),
            flags: libc::MS_NODEV | libc::MS_NOSUID,
            data: Some(c(options)),
        }),
    ]
}

#[test]
fn export_is_mounted_and_shown() {
    let names = vec![
        ("/usr".to_string(), "/opt".to_string()),
        ("/lib".to_string(), String::new()),
    ];
    let steps = create_namespace_9p(&names, "/t", 1234, "glenda").unwrap();
    let mut expected = exported("/t", "version=9p2000.L,trans=tcp,port=1234,uname=glenda");
    for (target, source) in [("/usr", "/t/mnt9p/opt"), ("/lib", "/t/mnt9p/lib")] {
        expected.push(PreExecStep::MakeDir { path: c(target), existing_ok: false });
        expected.push(PreExecStep::Mount(MountParams {
            source: Some(c(source)),
            target: c(target),
            fstype: None,
            flags: libc::MS_BIND,
            data: None,
        }));
    }
    assert_eq!(steps, expected);
}

#[test]
fn export_with_a_nul_is_refused() {
    let r = create_namespace_9p(&vec![], "/t\0", 1, "u\0");
    assert_eq!(
        r,
        Err(P9cpuServerError::StringContainsNull(NulError { position: 2, bytes: b"/t\0".to_vec() }))
    );
    let r = create_namespace_9p(&vec![], "/t", 1, "u\0");
    assert!(matches!(r, Err(P9cpuServerError::StringContainsNull(e)) if e.position == 41));
}

#[test]
fn steps_succeed_or_not() {
    let made = PreExecStep::MakeDir { path: c("/a"), existing_ok: true };
    let fresh = PreExecStep::MakeDir { path: c("/a"), existing_ok: false };
    assert!(made.succeeded(0, false));
    assert!(made.succeeded(-1, true));
    assert!(!made.succeeded(-1, false));
    assert!(!fresh.succeeded(-1, true));
    assert!(fresh.succeeded(0, false));
    assert!(!PreExecStep::Unshare(0).succeeded(-1, true));
    assert!(PreExecStep::NewSession.succeeded(0, false));
}

#[test]
fn plain_command_is_planned() {
    let mut req = request("/bin/true");
    req.args = vec!["x".to_string()];
    let plan = make_cmd(req, None).unwrap();
    assert_eq!(plan.program, "/bin/true");
    assert_eq!(plan.args, vec!["x".to_string()]);
    assert!(!plan.tty);
    let mut steps = vec![PreExecStep::CloseOnExecFrom(3)];
    steps.extend(private_root());
    assert_eq!(plan.steps, steps);
}

#[test]
fn full_command_is_planned() {
    let mut req = request("sh");
    req.envs = vec![
        env("USER", b"first"),
        env("USER", b"second"),
        env("USER", &[0xff]),
        env("PWD", b"/one"),
        env("PWD", b"/two"),
        env("PWD", b"/bad\0"),
    ];
    req.fstab = vec![tab("s", "/f", "t", "")];
    req.tty = true;
    req.ninep = true;
    req.tmp_mnt = "/t".to_string();
    let envs = req.envs.clone();
    let plan = make_cmd(req, Some(77)).unwrap();
    let mut steps = vec![PreExecStep::CloseOnExecFrom(3)];
    steps.extend(private_root());
    steps.extend(exported("/t", "version=9p2000.L,trans=tcp,port=77,uname=second"));
    steps.extend(mount_fstab(vec![tab("s", "/f", "t", "")]).unwrap());
    steps.push(PreExecStep::ChangeDir(c("/two")));
    steps.push(PreExecStep::NewSession);
    steps.push(PreExecStep::ControllingTerminal(0));
    assert_eq!(plan.steps, steps);
    assert_eq!(plan.envs, envs);
    assert!(plan.tty);
}

#[test]
fn unknown_user_has_a_name() {
    let mut req = request("sh");
    req.ninep = true;
    req.tmp_mnt = "/t".to_string();
    let plan = make_cmd(req, Some(1)).unwrap();
    assert_eq!(plan.steps[3..], exported("/t", "version=9p2000.L,trans=tcp,port=1,uname=nouser")[..]);
}

#[test]
fn export_needs_a_port() {
    let mut req = request("sh");
    req.ninep = true;
    req.fstab = vec![tab("\0", "", "", "")];
    assert_eq!(make_cmd(req, None), Err(P9cpuServerError::No9pPort));
}

#[test]
fn port_without_export_is_not_used() {
    assert_eq!(make_cmd(request("sh"), Some(5)), make_cmd(request("sh"), None));
}

#[test]
fn session_lives_from_dial_to_end() {
    let mut inner = Inner::new();
    assert_eq!(inner.dial(1), Ok(()));
    assert_eq!(inner.dial(1), Err(P9cpuServerError::DuplicateId));
    assert_eq!(inner.ninep_forward(1), Ok(()));
    assert_eq!(inner.ninep_ready(1, 99, 'f'), Ok(()));
    let mut req = request("sh");
    req.ninep = true;
    let start = inner.start(req, 1).unwrap();
    assert_eq!(start.handles, vec!['f']);
    assert!(start.plan.steps.len() > 3);
    assert_eq!(inner.ninep_forward(1), Err(P9cpuServerError::SessionNotExist));
    assert!(inner.get_session(1).is_err());
    inner.started(1, Session::new(ChildStdio::Piped(10, 11, 12), "child", start.handles));
    assert_eq!(inner.stdin(1), Ok(&10));
    assert_eq!(inner.stdout_st(1), Ok(&11));
    assert_eq!(inner.stderr_st(1), Ok(Some(&12)));
    assert_eq!(inner.wait(1), Ok(&"child"));
    assert_eq!(inner.attach(1, 'o'), Ok(()));
    assert_eq!(inner.attach(1, 'e'), Ok(()));
    assert_eq!(inner.exited(1), Ok(()));
    for task in ['f', 'o', 'e'] {
        assert_eq!(inner.next_task(1), Some(&task));
        inner.joined(1);
    }
    assert_eq!(inner.next_task(1), None);
    assert_eq!(inner.wait(1), Ok(&"child"));
    assert_eq!(inner.wait_done(1, Ok(Some(7))), Ok(7));
    assert_eq!(inner.wait(1), Err(P9cpuServerError::SessionNotExist));
    assert_eq!(inner.dial(1), Ok(()));
    assert!(inner.start(request("sh"), 1).is_ok());
}

#[test]
fn late_task_is_not_waited_for() {
    let mut inner = Inner::new();
    inner.started(1, Session::new(ChildStdio::Pty(1, 2), "child", vec!['a']));
    assert_eq!(inner.exited(1), Ok(()));
    assert_eq!(inner.attach(1, 'l'), Ok(()));
    assert_eq!(inner.next_task(1), Some(&'a'));
    inner.joined(1);
    assert_eq!(inner.next_task(1), None);
    assert_eq!(inner.wait_done(1, Ok(Some(0))), Ok(0));
    assert_eq!(inner.attach(1, 'm'), Err(P9cpuServerError::SessionNotExist));
}

#[test]
fn one_wait_at_a_time() {
    let mut inner = Inner::new();
    inner.started(1, Session::new(ChildStdio::Pty(1, 2), "child", vec!['a', 'b']));
    assert_eq!(inner.joining(1), Ok(Joining::Ready));
    assert_eq!(inner.exited(1), Ok(()));
    assert_eq!(inner.joining(1), Ok(Joining::Busy));
    inner.joined(1);
    assert_eq!(inner.joining(1), Ok(Joining::Busy));
    inner.given_up(1);
    assert_eq!(inner.joining(1), Ok(Joining::Spent));
    assert_eq!(inner.joining(2), Err(P9cpuServerError::SessionNotExist));
}

#[test]
fn tasks_of_a_wait_that_was_given_up_are_waited_for() {
    let mut inner = Inner::new();
    inner.started(1, Session::new(ChildStdio::Pty(1, 2), "child", vec!['a']));
    assert_eq!(inner.exited(1), Ok(()));
    assert_eq!(inner.attach(1, 'b'), Ok(()));
    inner.given_up(1);
    assert_eq!(inner.joining(1), Ok(Joining::Ready));
    assert_eq!(inner.exited(1), Ok(()));
    for task in ['a', 'b'] {
        assert_eq!(inner.next_task(1), Some(&task));
        inner.joined(1);
    }
    assert_eq!(inner.next_task(1), None);
    assert_eq!(inner.wait_done(1, Ok(Some(3))), Ok(3));
    inner.given_up(1);
    assert_eq!(inner.wait(1), Err(P9cpuServerError::SessionNotExist));
}

#[test]
fn terminal_has_no_error_output() {
    let mut inner = Inner::default();
    inner.started(2, Session::new(ChildStdio::Pty(20, 21), "child", vec![]));
    assert_eq!(inner.stdin(2), Ok(&20));
    assert_eq!(inner.stdout_st(2), Ok(&21));
    assert_eq!(inner.stderr_st(2), Ok(None));
}

#[test]
fn start_uses_up_the_dial() {
    let mut inner = Inner::new();
    assert_eq!(inner.dial(3), Ok(()));
    let mut req = request("sh");
    req.ninep = true;
    assert!(matches!(inner.start(req, 3), Err(P9cpuServerError::No9pPort)));
    assert!(matches!(inner.start(request("sh"), 3), Err(P9cpuServerError::SessionNotExist)));
}

#[test]
fn running_id_is_not_started_again() {
    let mut inner = Inner::new();
    inner.started(4, Session::new(ChildStdio::Pty(1, 2), "child", vec![]));
    assert_eq!(inner.dial(4), Ok(()));
    assert!(matches!(inner.start(request("sh"), 4), Err(P9cpuServerError::DuplicateId)));
    assert_eq!(inner.stdin(4), Ok(&1));
}

#[test]
fn requests_for_no_session_are_refused() {
    let mut inner = Inner::new();
    assert_eq!(inner.ninep_forward(9), Err(P9cpuServerError::SessionNotExist));
    assert_eq!(inner.ninep_ready(9, 1, 'f'), Err(P9cpuServerError::SessionNotExist));
    assert_eq!(inner.stdin(9), Err(P9cpuServerError::SessionNotExist));
    assert_eq!(inner.stdout_st(9), Err(P9cpuServerError::SessionNotExist));
    assert_eq!(inner.stderr_st(9), Err(P9cpuServerError::SessionNotExist));
    assert_eq!(inner.attach(9, 'x'), Err(P9cpuServerError::SessionNotExist));
    assert_eq!(inner.exited(9), Err(P9cpuServerError::SessionNotExist));
}

#[test]
fn sessions_do_not_mix() {
    let mut inner = Inner::new();
    inner.started(1, Session::new(ChildStdio::Pty(1, 2), "one", vec!['a']));
    inner.started(2, Session::new(ChildStdio::Pty(3, 4), "two", vec!['b']));
    assert_eq!(inner.attach(1, 'c'), Ok(()));
    assert_eq!(end(&mut inner, 1, Ok(None)), Err(P9cpuServerError::NoReturnCode));
    assert_eq!(inner.wait(2), Ok(&"two"));
    assert_eq!(inner.exited(2), Ok(()));
    assert_eq!(inner.next_task(2), Some(&'b'));
}

#[test]
fn failed_wait_is_reported() {
    let mut inner = Inner::new();
    inner.started(1, Session::new(ChildStdio::Pty(1, 2), "one", vec!['a']));
    assert_eq!(
        end(&mut inner, 1, Err("no child".to_string())),
        Err(P9cpuServerError::CommandError("no child".to_string()))
    );
    assert_eq!(
        end(&mut inner, 1, Ok(Some(0))),
        Err(P9cpuServerError::SessionNotExist)
    );
}

#[test]
fn server_errors_have_their_words() {
    let e = || "x".to_string();
    let nul = NulError { position: 0, bytes: vec![0] };
    let cases = vec![
        (P9cpuServerError::SpawnFail(e()), "Failed to spawn: x"),
        (P9cpuServerError::SessionNotExist, "Session does not exist"),
        (P9cpuServerError::IoErr(e()), "IO Error: x"),
        (P9cpuServerError::DuplicateId, "Duplicate session id"),
        (P9cpuServerError::NoReturnCode, "Command exited without return code."),
        (P9cpuServerError::CommandError(e()), "Command error: x"),
        (P9cpuServerError::OpenPtyFail(e()), "Cannot open pty device"),
        (P9cpuServerError::FdCloneFail(e()), "Cannot clone file descriptor: x"),
        (P9cpuServerError::MkDir(e()), "Cannot create directory: x"),
        (P9cpuServerError::InvalidFsTab(e()), "Invalid FsTab: x"),
        (P9cpuServerError::BindFail(e()), "Cannot bind listener: x"),
        (P9cpuServerError::No9pPort, "9p forward not setup"),
        (P9cpuServerError::from(nul), "String contains null: NulError(0, [0])"),
        (P9cpuServerError::ChannelClosed, "Channel closed"),
    ];
    for (error, words) in cases {
        assert_eq!(error.message(), words);
    }
}

#[test]
fn bytes_move_on_in_pieces() {
    assert_eq!(CHUNK_SIZE, 128);
    assert_eq!(chunk(vec![1, 2, 3], 0), None);
    assert_eq!(chunk(vec![1, 2, 3], 2), Some(vec![1, 2]));
    assert_eq!(chunk(vec![1, 2, 3], 3), Some(vec![1, 2, 3]));
}

#[test]
fn output_is_copied() {
    assert_eq!(copy_to(CopyEvent::Read(vec![1, 2, 3], 2)), CopyAction::Send(vec![1, 2]));
    assert_eq!(copy_to(CopyEvent::Read(vec![1, 2, 3], 0)), CopyAction::Finish);
    assert_eq!(
        copy_to(CopyEvent::ReadFailed("x".to_string())),
        CopyAction::Fail(P9cpuServerError::IoErr("x".to_string()))
    );
    assert_eq!(
        copy_to(CopyEvent::SendFailed),
        CopyAction::Fail(P9cpuServerError::ChannelClosed)
    );
}

#[test]
fn input_is_written_until_it_ends_or_fails() {
    assert_eq!(
        feed_stdin(FeedEvent::Item(Some(vec![1, 2]))),
        FeedAction::Write(vec![1, 2])
    );
    assert_eq!(feed_stdin(FeedEvent::Item(None)), FeedAction::Finish);
    assert_eq!(
        feed_stdin(FeedEvent::WriteFailed("x".to_string())),
        FeedAction::Fail(P9cpuServerError::IoErr("x".to_string()))
    );
}

#[test]
fn file_system_is_forwarded() {
    assert_eq!(
        forward_step(ForwardEvent::ListenerGone),
        ForwardAction::Fail(P9cpuServerError::ChannelClosed)
    );
    assert_eq!(forward_step(ForwardEvent::AcceptFailed), ForwardAction::Finish);
    assert_eq!(forward_step(ForwardEvent::Connected), ForwardAction::Wait);
    assert_eq!(
        forward_step(ForwardEvent::IoFailed("x".to_string())),
        ForwardAction::Fail(P9cpuServerError::IoErr("x".to_string()))
    );
    assert_eq!(
        forward_step(ForwardEvent::FromKernel(vec![1, 2, 3], 1)),
        ForwardAction::ToClient(vec![1])
    );
    assert_eq!(forward_step(ForwardEvent::FromKernel(vec![1], 0)), ForwardAction::Finish);
    assert_eq!(
        forward_step(ForwardEvent::FromClient(Some(vec![4]))),
        ForwardAction::ToKernel(vec![4])
    );
    assert_eq!(forward_step(ForwardEvent::FromClient(None)), ForwardAction::Finish);
    assert_eq!(forward_step(ForwardEvent::Written(0)), ForwardAction::Finish);
    assert_eq!(forward_step(ForwardEvent::Written(2)), ForwardAction::Wait);
    assert_eq!(
        forward_step(ForwardEvent::SendFailed),
        ForwardAction::Fail(P9cpuServerError::ChannelClosed)
    );
}

#[test]
fn output_of_a_command_is_copied_whole() {
    let mut sent: Vec<u8> = vec![];
    let mut ends = 0;
    for len in [3, 1, 2, 0] {
        match copy_to(CopyEvent::Read(vec![1, 2, 3], len)) {
            CopyAction::Send(bytes) => sent.extend(bytes),
            CopyAction::Finish => ends += 1,
            CopyAction::Fail(_) => panic!("all was read"),
        }
    }
    assert_eq!((sent, ends), (vec![1, 2, 3, 1, 1, 2], 1));
}

#[test]
fn both_sides_are_forwarded() {
    let mut client: Vec<u8> = vec![];
    let mut kernel: Vec<u8> = vec![];
    let events = vec![
        ForwardEvent::FromKernel(vec![1, 2, 3], 2),
        ForwardEvent::FromClient(Some(vec![7])),
        ForwardEvent::FromKernel(vec![4], 1),
        ForwardEvent::FromClient(Some(vec![8, 9])),
        ForwardEvent::FromClient(None),
    ];
    let mut ends = 0;
    for event in events {
        match forward_step(event) {
            ForwardAction::ToClient(bytes) => client.extend(bytes),
            ForwardAction::ToKernel(bytes) => {
                assert_eq!(forward_step(ForwardEvent::Written(bytes.len())), ForwardAction::Wait);
                kernel.extend(bytes);
            }
            ForwardAction::Finish => ends += 1,
            other => panic!("{:?}", other),
        }
    }
    assert_eq!((client, kernel, ends), (vec![1, 2, 4], vec![7, 8, 9], 1));
}

#[test]
fn system_calls_end_in_three_ways() {
    assert_eq!(io_outcome(5, false), IoOutcome::Done(5));
    assert_eq!(io_outcome(0, true), IoOutcome::Done(0));
    assert_eq!(io_outcome(-1, true), IoOutcome::Retry);
    assert_eq!(io_outcome(-1, false), IoOutcome::Fail);
}

#[test]
fn server_listens_on_all_addresses() {
    assert_eq!(DEFAULT_PORT, 17010);
    assert_eq!(server_target(Net::Tcp, None, 17010), Target::Tcp("[::]:17010".to_string()));
    assert_eq!(
        server_target(Net::Vsock, None, 5),
        Target::Vsock(VsockAddr { cid: vsock::VMADDR_CID_ANY, port: 5 })
    );
    assert_eq!(
        server_target(Net::Unix, Some("/run/s".to_string()), 5),
        Target::Uds("/run/s".to_string())
    );
}

#[test]
fn client_connects_to_a_host() {
    assert_eq!(
        client_target(Net::Tcp, "127.0.0.1".to_string(), 80),
        Target::Tcp("127.0.0.1:80".to_string())
    );
    assert_eq!(
        client_target(Net::Vsock, "3".to_string(), 12346),
        Target::Vsock(VsockAddr { cid: 3, port: 12346 })
    );
    assert_eq!(client_target(Net::Unix, "/s".to_string(), 1), Target::Uds("/s".to_string()));
}

#[test]
fn addresses_have_endpoints() {
    let tcp = Addr::Tcp(SocketAddr { ip: "10.0.0.1".to_string(), port: 17010 });
    assert_eq!(tcp.endpoint(), "http://10.0.0.1:17010");
    assert_eq!(Addr::Vsock(VsockAddr { cid: 1, port: 2 }).endpoint(), "http://[::]:50051");
    assert_eq!(Addr::Uds("/s".to_string()).endpoint(), "http://[::]:50051");
}

#[test]
fn servers_serve_where_they_are_told() {
    let addr = || Addr::Vsock(VsockAddr { cid: 1, port: 2 });
    assert_eq!(
        rpc_based().serve(addr()),
        ServePlan { protocol: Protocol::Rpc, addr: addr() }
    );
    assert_eq!(
        ssh_based().serve(addr()),
        ServePlan { protocol: Protocol::Ssh, addr: addr() }
    );
    assert_eq!(
        rpc_based().serve(Addr::Uds("/s".to_string())),
        ServePlan { protocol: Protocol::Rpc, addr: Addr::Uds("/s".to_string()) }
    );
}

#[test]
fn namespace_is_shown_to_the_command() {
    let mut req = request("sh");
    req.ninep = true;
    req.tmp_mnt = "/t".to_string();
    req.fstab = libp9cpu::parse_namespace("/a:/b=/c", "/t");
    req.fstab.push(tab("s", "/f", "t", ""));
    let plan = make_cmd(req, Some(9)).unwrap();
    let bind = |source: &str, target: &str| MountParams {
        source: Some(c(source)),
        target: c(target),
        fstype: Some(c("none")),
        flags: libc::MS_BIND,
        data: Some(c("")),
    };
    assert_eq!(
        plan.steps[7..11],
        [
            PreExecStep::MakeDir { path: c("/a"), existing_ok: true },
            PreExecStep::Mount(bind("/t/mnt9p/a", "/a")),
            PreExecStep::MakeDir { path: c("/b"), existing_ok: true },
            PreExecStep::Mount(bind("/t/mnt9p/c", "/b")),
        ]
    );
    assert_eq!(plan.steps[11..], mount_fstab(vec![tab("s", "/f", "t", "")]).unwrap()[..]);
}
