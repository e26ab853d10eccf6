//! How a command is run.

use vstd::prelude::*;
use vstd::string::*;

use crate::cmd;
use crate::cmd::CommandReq;
use crate::cmd::EnvVar;
use crate::ctext;
use crate::ctext::CText;
use crate::namespace;
use crate::server::error;
use crate::server::error::P9cpuServerError;
use crate::server::mount;
use crate::server::pre_exec;
use crate::server::pre_exec::PreExecStep;
use crate::text;

verus! {

/// The first file descriptor that a command does not inherit.
pub const FIRST_CLOSED_FD: i32 = 3;

/// How a command is run: the program, and what its process does before.
#[derive(Debug, PartialEq, Eq)]
pub struct CommandPlan {
    pub program: String,
    pub args: Vec<String>,
    /// Added to the environment in this order: the last of one name counts.
    pub envs: Vec<EnvVar>,
    /// Done in this order. The first that fails ends the process.
    pub steps: Vec<PreExecStep>,
    /// Whether its input and output are a terminal, and not three pipes.
    pub tty: bool,
}

/// The value of a [`CommandPlan`].
#[verifier::ext_equal]
pub struct PlanView {
    pub program: Seq<char>,
    pub args: Seq<Seq<char>>,
    pub envs: Seq<cmd::EnvVarView>,
    pub steps: Seq<pre_exec::StepView>,
    pub tty: bool,
}

impl View for CommandPlan {
    type V = PlanView;

    open spec fn view(&self) -> PlanView {
        PlanView {
            program: self.program@,
            args: text::string_texts(self.args@),
            envs: cmd::env_views(self.envs@),
            steps: pre_exec::step_views(self.steps@),
            tty: self.tty,
        }
    }
}

/// The user for whom a command runs: the last `USER` of its environment that is UTF-8.
pub open spec fn user_of(envs: Seq<cmd::EnvVarView>) -> Seq<char>
    decreases envs.len(),
{
    if envs.len() == 0 {
        "nouser"@
    } else {
        let var = envs.last();
        if var.key == vstd::utf8::encode_utf8("USER"@) && text::utf8_text(var.val) is Some {
            text::utf8_text(var.val)->0
        } else {
            user_of(envs.drop_last())
        }
    }
}

/// The directory in which a command starts: the last `PWD` of its environment that
/// holds no NUL.
pub open spec fn start_dir(envs: Seq<cmd::EnvVarView>) -> Option<Seq<u8>>
    decreases envs.len(),
{
    if envs.len() == 0 {
        None
    } else {
        let var = envs.last();
        if var.key == vstd::utf8::encode_utf8("PWD"@) && ctext::c_bytes(var.val) is Ok {
            Some(var.val)
        } else {
            start_dir(envs.drop_last())
        }
    }
}

/// The steps that mount what the client exports, where the command asks for it.
pub open spec fn ninep_steps(command: cmd::CommandView, ninep_port: Option<u16>) -> Result<
    Seq<pre_exec::StepView>,
    error::ServerFault,
> {
    if !command.ninep {
        Ok(Seq::empty())
    } else {
        match ninep_port {
            None => Err(error::ServerFault::No9pPort),
            Some(port) => pre_exec::namespace_steps(
                Seq::empty(),
                command.tmp_mnt,
                port,
                user_of(command.envs),
            ),
        }
    }
}

/// The step into the directory in which a command starts.
pub open spec fn chdir_steps(dir: Option<Seq<u8>>) -> Seq<pre_exec::StepView> {
    match dir {
        None => Seq::empty(),
        Some(path) => seq![pre_exec::StepView::ChangeDir(path)],
    }
}

/// The steps that give a command its terminal.
pub open spec fn tty_steps(tty: bool) -> Seq<pre_exec::StepView> {
    if tty {
        seq![pre_exec::StepView::NewSession, pre_exec::StepView::ControllingTerminal(0)]
    } else {
        Seq::empty()
    }
}

/// How `command` is run, where what its client exports is forwarded on `ninep_port`.
pub open spec fn plan_of(command: cmd::CommandView, ninep_port: Option<u16>) -> Result<
    PlanView,
    error::ServerFault,
> {
    match ninep_steps(command, ninep_port) {
        Err(e) => Err(e),
        Ok(ninep) => match pre_exec::fstab_steps(command.fstab) {
            Err(e) => Err(e),
            Ok(fstab) => Ok(
                PlanView {
                    program: command.program,
                    args: command.args,
                    envs: command.envs,
                    steps: seq![pre_exec::StepView::CloseOnExecFrom(FIRST_CLOSED_FD)]
                        + pre_exec::private_root_steps() + ninep + fstab + chdir_steps(
                        start_dir(command.envs),
                    ) + tty_steps(command.tty),
                    tty: command.tty,
                },
            ),
        },
    }
}

fn append_steps(steps: &mut Vec<PreExecStep>, more: Vec<PreExecStep>)
    ensures
        pre_exec::step_views(final(steps)@) == pre_exec::step_views(old(steps)@)
            + pre_exec::step_views(more@),
{
    let mut more = more;
    let ghost a = steps@;
    let ghost b = more@;
    steps.append(&mut more);
    assert(pre_exec::step_views(a + b) =~= pre_exec::step_views(a) + pre_exec::step_views(b));
}

fn find_user(envs: &Vec<EnvVar>) -> (r: String)
    ensures
        r@ == user_of(cmd::env_views(envs@)),
{
    let ghost all = cmd::env_views(envs@);
    let mut user = "nouser".to_owned();
    let mut i: usize = 0;
    assert(all.take(0) =~= Seq::<cmd::EnvVarView>::empty());
    while i < envs.len()
        invariant
            i <= envs.len(),
            all == cmd::env_views(envs@),
            user@ == user_of(all.take(i as int)),
        decreases envs.len() - i,
    {
        proof {
            assert(all.take(i + 1).drop_last() =~= all.take(i as int));
            assert(all.take(i + 1).last() == envs@[i as int]@);
        }
        if text::same_bytes(envs[i].key.as_slice(), "USER".as_bytes()) {
            let val = envs[i].val.clone();
            assert(val@ =~= envs@[i as int].val@);
            if let Some(s) = text::read_utf8(val) {
                user = s;
            }
        }
        i += 1;
    }
    assert(all.take(i as int) =~= all);
    user
}

fn find_start_dir(envs: &Vec<EnvVar>) -> (r: Option<CText>)
    ensures
        mount::optional_bytes(r) == start_dir(cmd::env_views(envs@)),
{
    let ghost all = cmd::env_views(envs@);
    let mut dir: Option<CText> = None;
    let mut i: usize = 0;
    assert(all.take(0) =~= Seq::<cmd::EnvVarView>::empty());
    while i < envs.len()
        invariant
            i <= envs.len(),
            all == cmd::env_views(envs@),
            mount::optional_bytes(dir) == start_dir(all.take(i as int)),
        decreases envs.len() - i,
    {
        proof {
            assert(all.take(i + 1).drop_last() =~= all.take(i as int));
            assert(all.take(i + 1).last() == envs@[i as int]@);
        }
        if text::same_bytes(envs[i].key.as_slice(), "PWD".as_bytes()) {
            let val = envs[i].val.clone();
            assert(val@ =~= envs@[i as int].val@);
            if let Ok(c) = CText::new(val) {
                dir = Some(c);
            }
        }
        i += 1;
    }
    assert(all.take(i as int) =~= all);
    dir
}

/// Works out how `command` is run, where what its client exports is forwarded on
/// `ninep_port`.
pub fn make_cmd(command: CommandReq, ninep_port: Option<u16>) -> (r: Result<
    CommandPlan,
    P9cpuServerError,
>)
    ensures
        match r {
            Ok(plan) => plan_of(command@, ninep_port) == Ok::<PlanView, error::ServerFault>(plan@),
            Err(e) => plan_of(command@, ninep_port) == Err::<PlanView, error::ServerFault>(e@),
        },
        r matches Ok(plan) ==> {
            &&& plan.program == command.program
            &&& plan.args == command.args
            &&& plan.envs == command.envs
            &&& plan.tty == command.tty
        },
{
    let CommandReq { program, args, envs, fstab, tty, ninep, tmp_mnt } = command;
    let user = find_user(&envs);
    let dir = find_start_dir(&envs);
    let mut steps: Vec<PreExecStep> = Vec::new();
    steps.push(PreExecStep::CloseOnExecFrom(FIRST_CLOSED_FD));
    assert(pre_exec::step_views(steps@) =~= seq![
        pre_exec::StepView::CloseOnExecFrom(FIRST_CLOSED_FD),
    ]);
    append_steps(&mut steps, pre_exec::create_private_root());
    let ghost before_ninep = pre_exec::step_views(steps@);
    if ninep {
        let port = match ninep_port {
            Some(port) => port,
            None => return Err(P9cpuServerError::No9pPort),
        };
        let names: Vec<(String, String)> = Vec::new();
        assert(names@ =~= Seq::<(String, String)>::empty());
        match pre_exec::create_namespace_9p(&names, tmp_mnt.as_str(), port, user.as_str()) {
            Ok(more) => append_steps(&mut steps, more),
            Err(e) => return Err(e),
        }
    } else {
        assert(before_ninep + Seq::<pre_exec::StepView>::empty() =~= before_ninep);
    }
    match pre_exec::mount_fstab(fstab) {
        Ok(more) => append_steps(&mut steps, more),
        Err(e) => return Err(e),
    }
    let ghost before_dir = pre_exec::step_views(steps@);
    match dir {
        Some(path) => {
            let ghost p = path@;
            steps.push(PreExecStep::ChangeDir(path));
            assert(pre_exec::step_views(steps@) =~= before_dir + chdir_steps(Some(p)));
        },
        None => {
            assert(before_dir =~= before_dir + chdir_steps(None));
        },
    }
    let ghost before_tty = pre_exec::step_views(steps@);
    if tty {
        steps.push(PreExecStep::NewSession);
        steps.push(PreExecStep::ControllingTerminal(0));
    }
    assert(pre_exec::step_views(steps@) =~= before_tty + tty_steps(tty));
    Ok(CommandPlan { program, args, envs, steps, tty })
}

/// Every process closes what it must not inherit, and has mounts of its own,
/// before it mounts anything else.
pub proof fn mounts_are_private_first(command: cmd::CommandView, ninep_port: Option<u16>)
    ensures
        plan_of(command, ninep_port) matches Ok(plan) ==> (seq![
            pre_exec::StepView::CloseOnExecFrom(FIRST_CLOSED_FD),
        ] + pre_exec::private_root_steps()).is_prefix_of(plan.steps),
{
    if let Ok(plan) = plan_of(command, ninep_port) {
        let first = seq![pre_exec::StepView::CloseOnExecFrom(FIRST_CLOSED_FD)]
            + pre_exec::private_root_steps();
        assert(first =~= plan.steps.take(first.len() as int));
    }
}

/// A command that needs the file system of its client runs only where that is
/// forwarded, and mounts it before the lines of its table.
pub proof fn export_is_mounted_before_table(command: cmd::CommandView, ninep_port: Option<u16>)
    requires
        command.ninep,
    ensures
        ninep_port is None ==> plan_of(command, ninep_port) == Err::<PlanView, error::ServerFault>(
            error::ServerFault::No9pPort,
        ),
        plan_of(command, ninep_port) matches Ok(plan) ==> {
            &&& ninep_port matches Some(port)
            &&& plan.steps.len() >= 7
            &&& plan.steps[6] == pre_exec::StepView::Mount(
                pre_exec::exported_mount(command.tmp_mnt, port, user_of(command.envs)),
            )
            &&& pre_exec::fstab_steps(command.fstab) matches Ok(table)
            &&& plan.steps.len() >= 7 + table.len()
            &&& plan.steps.subrange(7, 7 + table.len() as int) == table
        },
{
    if let Ok(plan) = plan_of(command, ninep_port) {
        let port = ninep_port->0;
        let user = user_of(command.envs);
        let mounts = seq![
            pre_exec::tmp_mount(command.tmp_mnt),
            pre_exec::exported_mount(command.tmp_mnt, port, user),
        ];
        assert(mounts + pre_exec::shown_mounts(Seq::empty(), command.tmp_mnt) =~= mounts);
        let ninep = ninep_steps(command, ninep_port)->Ok_0;
        assert(ninep == pre_exec::mount_steps(mounts, false));
        assert(mounts.drop_last().drop_last() =~= Seq::<mount::MountView>::empty());
        assert(mounts.drop_last().last() == mounts[0]);
        reveal_with_fuel(pre_exec::mount_steps, 3);
        assert(ninep.len() == 4);
        assert(ninep[3] == pre_exec::StepView::Mount(mounts[1]));
        let table = pre_exec::fstab_steps(command.fstab)->Ok_0;
        assert(plan.steps.subrange(7, 7 + table.len() as int) =~= table);
    }
}

/// Whether no name of a namespace holds a NUL.
pub open spec fn bindings_nul_free(bindings: Seq<namespace::Binding>) -> bool {
    forall|i: int|
        0 <= i < bindings.len() ==> ctext::nul_free(
            vstd::utf8::encode_utf8((#[trigger] bindings[i]).target),
        ) && ctext::nul_free(vstd::utf8::encode_utf8(bindings[i].source))
}

/// What a namespace stands for is shown to the command: once the file system of the
/// client is mounted, the process makes the directory of each binding, in their order,
/// and mounts the directory of the client on it. What a table asks for comes after them.
pub proof fn namespace_is_shown(
    command: cmd::CommandView,
    bindings: Seq<namespace::Binding>,
    table: Seq<cmd::FsTabView>,
    port: u16,
)
    requires
        command.ninep,
        command.fstab == namespace::binding_lines(bindings, command.tmp_mnt) + table,
        pre_exec::fstab_steps(table) is Ok,
        bindings_nul_free(bindings),
        ctext::nul_free(vstd::utf8::encode_utf8(command.tmp_mnt)),
        ctext::nul_free(vstd::utf8::encode_utf8(user_of(command.envs))),
    ensures
        plan_of(command, Some(port)) matches Ok(plan) && {
            &&& plan.steps.len() >= 7 + 2 * bindings.len()
            &&& plan.steps[6] == pre_exec::StepView::Mount(
                pre_exec::exported_mount(command.tmp_mnt, port, user_of(command.envs)),
            )
            &&& forall|i: int|
                0 <= i < bindings.len() ==> {
                    let m = pre_exec::bind_mount(#[trigger] bindings[i], command.tmp_mnt);
                    &&& plan.steps[7 + 2 * i] == (pre_exec::StepView::MakeDir {
                        path: m.target,
                        existing_ok: true,
                    })
                    &&& plan.steps[8 + 2 * i] == pre_exec::StepView::Mount(m)
                }
        },
{
    let tmp_mnt = command.tmp_mnt;
    let user = user_of(command.envs);
    let lines = namespace::binding_lines(bindings, tmp_mnt);
    let binds = bindings.map_values(|b: namespace::Binding| pre_exec::bind_mount(b, tmp_mnt));
    pre_exec::export_can_be_mounted(tmp_mnt, port, user);
    assert forall|i: int| 0 <= i < lines.len() implies mount::mount_of_line(#[trigger] lines[i])
        == Ok::<mount::MountView, error::ServerFault>(binds[i]) by {
        assert(lines[i] == namespace::binding_line(bindings[i], tmp_mnt));
        pre_exec::namespace_lines_are_bind_mounts(bindings[i], tmp_mnt);
    }
    mount::lemma_mounts_of_good_lines(lines, binds);
    mount::mounts_of_tables_in_a_row(lines, table);
    let more = mount::mounts_of_lines(table)->Ok_0;
    let all = binds + more;
    assert(pre_exec::fstab_steps(command.fstab) == Ok::<Seq<pre_exec::StepView>, error::ServerFault>(
        pre_exec::mount_steps(all, true),
    ));
    export_is_mounted_before_table(command, Some(port));
    pre_exec::each_mount_takes_two_steps(all, true);
    let plan = plan_of(command, Some(port))->Ok_0;
    let steps = pre_exec::mount_steps(all, true);
    assert(plan.steps.subrange(7, 7 + steps.len() as int) == steps);
    assert forall|i: int| 0 <= i < bindings.len() implies {
        let m = pre_exec::bind_mount(#[trigger] bindings[i], tmp_mnt);
        &&& plan.steps[7 + 2 * i] == (pre_exec::StepView::MakeDir {
            path: m.target,
            existing_ok: true,
        })
        &&& plan.steps[8 + 2 * i] == pre_exec::StepView::Mount(m)
    } by {
        assert(all[i] == binds[i]);
        assert(steps[2 * i] == plan.steps.subrange(7, 7 + steps.len() as int)[2 * i]);
        assert(steps[2 * i + 1] == plan.steps.subrange(7, 7 + steps.len() as int)[2 * i + 1]);
    }
}

/// A command without the file system of its client mounts nothing for it.
pub proof fn no_export_no_mount(command: cmd::CommandView, ninep_port: Option<u16>)
    requires
        !command.ninep,
    ensures
        plan_of(command, ninep_port) == plan_of(command, None),
{
}

/// The program, its arguments, all of them and in their order, its environment and whether
/// it runs on a terminal are those of the request, whatever else the request asks for.
pub proof fn plan_keeps_the_request(command: cmd::CommandView, ninep_port: Option<u16>)
    ensures
        plan_of(command, ninep_port) matches Ok(plan) ==> {
            &&& plan.program == command.program
            &&& plan.args.len() == command.args.len()
            &&& forall|i: int| 0 <= i < command.args.len() ==> #[trigger] plan.args[i]
                == command.args[i]
            &&& plan.envs.len() == command.envs.len()
            &&& forall|i: int| 0 <= i < command.envs.len() ==> #[trigger] plan.envs[i]
                == command.envs[i]
            &&& plan.tty == command.tty
        },
{
}

/// Whether a variable names a user: it is called `USER`, and its value is a text.
pub open spec fn names_user(var: cmd::EnvVarView) -> bool {
    var.key == seq![0x55u8, 0x53u8, 0x45u8, 0x52u8] && vstd::utf8::valid_utf8(var.val)
}

proof fn lemma_names_user_key()
    ensures
        vstd::utf8::encode_utf8("USER"@) == seq![0x55u8, 0x53u8, 0x45u8, 0x52u8],
{
    reveal_strlit("USER");
    let key = "USER"@;
    assert(vstd::utf8::is_ascii_chars(key));
    vstd::utf8::is_ascii_chars_encode_utf8(key);
    assert(vstd::utf8::encode_utf8(key) =~= seq![0x55u8, 0x53u8, 0x45u8, 0x52u8]);
}

proof fn lemma_none_names_user(envs: Seq<cmd::EnvVarView>)
    requires
        forall|i: int| 0 <= i < envs.len() ==> !names_user(#[trigger] envs[i]),
    ensures
        user_of(envs) == "nouser"@,
    decreases envs.len(),
{
    if envs.len() > 0 {
        let front = envs.drop_last();
        lemma_names_user_key();
        assert(!names_user(envs[envs.len() - 1]));
        assert forall|i: int| 0 <= i < front.len() implies !names_user(#[trigger] front[i]) by {
            assert(front[i] == envs[i]);
        }
        lemma_none_names_user(front);
    }
}

proof fn lemma_last_that_names_user(envs: Seq<cmd::EnvVarView>, k: int)
    requires
        0 <= k < envs.len(),
        names_user(envs[k]),
        forall|i: int| k < i < envs.len() ==> !names_user(#[trigger] envs[i]),
    ensures
        user_of(envs) == vstd::utf8::decode_utf8(envs[k].val),
    decreases envs.len(),
{
    let front = envs.drop_last();
    let last = envs.len() - 1;
    lemma_names_user_key();
    assert(envs[last] == envs.last());
    if k < last {
        assert(!names_user(envs[last]));
        assert(front[k] == envs[k]);
        assert forall|i: int| k < i < front.len() implies !names_user(#[trigger] front[i]) by {
            assert(front[i] == envs[i]);
        }
        lemma_last_that_names_user(front, k);
    }
}

/// The user is who the last variable that names one says, and `nouser` if none does.
pub proof fn last_user_counts(envs: Seq<cmd::EnvVarView>)
    ensures
        (forall|i: int| 0 <= i < envs.len() ==> !names_user(#[trigger] envs[i])) ==> user_of(envs)
            == "nouser"@,
        forall|k: int|
            0 <= k < envs.len() && names_user(#[trigger] envs[k]) && (forall|i: int|
                k < i < envs.len() ==> !names_user(#[trigger] envs[i])) ==> user_of(envs)
                == vstd::utf8::decode_utf8(envs[k].val),
{
    if forall|i: int| 0 <= i < envs.len() ==> !names_user(#[trigger] envs[i]) {
        lemma_none_names_user(envs);
    }
    assert forall|k: int|
        0 <= k < envs.len() && names_user(#[trigger] envs[k]) && (forall|i: int|
            k < i < envs.len() ==> !names_user(#[trigger] envs[i])) implies user_of(envs)
        == vstd::utf8::decode_utf8(envs[k].val) by {
        lemma_last_that_names_user(envs, k);
    }
}

/// Whether a variable names a directory: it is called `PWD`, and its value holds no NUL.
pub open spec fn names_dir(var: cmd::EnvVarView) -> bool {
    var.key == seq![0x50u8, 0x57u8, 0x44u8] && ctext::nul_free(var.val)
}

proof fn lemma_names_dir_key()
    ensures
        vstd::utf8::encode_utf8("PWD"@) == seq![0x50u8, 0x57u8, 0x44u8],
{
    reveal_strlit("PWD");
    let key = "PWD"@;
    assert(vstd::utf8::is_ascii_chars(key));
    vstd::utf8::is_ascii_chars_encode_utf8(key);
    assert(vstd::utf8::encode_utf8(key) =~= seq![0x50u8, 0x57u8, 0x44u8]);
}

proof fn lemma_none_names_dir(envs: Seq<cmd::EnvVarView>)
    requires
        forall|i: int| 0 <= i < envs.len() ==> !names_dir(#[trigger] envs[i]),
    ensures
        start_dir(envs) is None,
    decreases envs.len(),
{
    if envs.len() > 0 {
        let front = envs.drop_last();
        lemma_names_dir_key();
        assert(!names_dir(envs[envs.len() - 1]));
        ctext::bytes_without_nul_are_kept(envs.last().val);
        assert forall|i: int| 0 <= i < front.len() implies !names_dir(#[trigger] front[i]) by {
            assert(front[i] == envs[i]);
        }
        lemma_none_names_dir(front);
    }
}

proof fn lemma_last_that_names_dir(envs: Seq<cmd::EnvVarView>, k: int)
    requires
        0 <= k < envs.len(),
        names_dir(envs[k]),
        forall|i: int| k < i < envs.len() ==> !names_dir(#[trigger] envs[i]),
    ensures
        start_dir(envs) == Some(envs[k].val),
    decreases envs.len(),
{
    let front = envs.drop_last();
    let last = envs.len() - 1;
    lemma_names_dir_key();
    ctext::bytes_without_nul_are_kept(envs.last().val);
    assert(envs[last] == envs.last());
    if k < last {
        assert(!names_dir(envs[last]));
        assert(front[k] == envs[k]);
        assert forall|i: int| k < i < front.len() implies !names_dir(#[trigger] front[i]) by {
            assert(front[i] == envs[i]);
        }
        lemma_last_that_names_dir(front, k);
    }
}

/// The directory is the one that the last variable that names one says. There is none if
/// none does.
pub proof fn last_directory_counts(envs: Seq<cmd::EnvVarView>)
    ensures
        (forall|i: int| 0 <= i < envs.len() ==> !names_dir(#[trigger] envs[i])) ==> start_dir(
            envs,
        ) is None,
        forall|k: int|
            0 <= k < envs.len() && names_dir(#[trigger] envs[k]) && (forall|i: int|
                k < i < envs.len() ==> !names_dir(#[trigger] envs[i])) ==> start_dir(envs) == Some(
                envs[k].val,
            ),
{
    if forall|i: int| 0 <= i < envs.len() ==> !names_dir(#[trigger] envs[i]) {
        lemma_none_names_dir(envs);
    }
    assert forall|k: int|
        0 <= k < envs.len() && names_dir(#[trigger] envs[k]) && (forall|i: int|
            k < i < envs.len() ==> !names_dir(#[trigger] envs[i])) implies start_dir(envs)
        == Some(envs[k].val) by {
        lemma_last_that_names_dir(envs, k);
    }
}

/// How many steps mount what the client exports.
pub open spec fn export_len(command: cmd::CommandView) -> int {
    if command.ninep {
        4
    } else {
        0
    }
}

proof fn lemma_in_a_row<A>(a: Seq<A>, b: Seq<A>, c: Seq<A>, d: Seq<A>, e: Seq<A>)
    ensures
        ({
            let s = a + b + c + d + e;
            let to_c = a.len() + b.len();
            let to_d = to_c + c.len();
            let to_e = to_d + d.len();
            &&& s.len() == to_e + e.len()
            &&& s.subrange(0, a.len() as int) == a
            &&& s.subrange(a.len() as int, to_c as int) == b
            &&& s.subrange(to_c as int, to_d as int) == c
            &&& s.subrange(to_d as int, to_e as int) == d
            &&& s.subrange(to_e as int, s.len() as int) == e
        }),
{
    let s = a + b + c + d + e;
    let to_c = a.len() + b.len();
    let to_d = to_c + c.len();
    let to_e = to_d + d.len();
    assert(s.subrange(0, a.len() as int) =~= a);
    assert(s.subrange(a.len() as int, to_c as int) =~= b);
    assert(s.subrange(to_c as int, to_d as int) =~= c);
    assert(s.subrange(to_d as int, to_e as int) =~= d);
    assert(s.subrange(to_e as int, s.len() as int) =~= e);
}

/// A new process does these things, in this order, and nothing else: it closes what it must
/// not inherit, from the first descriptor after its input and output on; it gets mounts of
/// its own; it mounts what the client exports, if that is asked for; it makes and mounts on
/// the directory of each line of the table; it goes to its directory, if one is named; and
/// it takes its terminal, if it runs on one.
#[verifier::spinoff_prover]
pub proof fn process_goes_step_by_step(command: cmd::CommandView, ninep_port: Option<u16>)
    ensures
        plan_of(command, ninep_port) matches Ok(plan) ==> {
            let table = 3 + export_len(command);
            let dir = table + 2 * command.fstab.len();
            let tty = dir + if start_dir(command.envs) is Some {
                1int
            } else {
                0int
            };
            &&& plan.steps.len() == tty + if command.tty {
                2int
            } else {
                0int
            }
            &&& plan.steps[0] == pre_exec::StepView::CloseOnExecFrom(3)
            &&& plan.steps.subrange(1, 3) == pre_exec::private_root_steps()
            &&& command.ninep ==> (ninep_port matches Some(port) && pre_exec::namespace_steps(
                Seq::empty(),
                command.tmp_mnt,
                port,
                user_of(command.envs),
            ) == Ok::<Seq<pre_exec::StepView>, error::ServerFault>(plan.steps.subrange(3, 7)))
            &&& forall|i: int|
                0 <= i < command.fstab.len() ==> {
                    &&& mount::mount_of_line(#[trigger] command.fstab[i]) matches Ok(m)
                    &&& plan.steps[table + 2 * i] == (pre_exec::StepView::MakeDir {
                        path: vstd::utf8::encode_utf8(command.fstab[i].file),
                        existing_ok: true,
                    })
                    &&& plan.steps[table + 2 * i + 1] == pre_exec::StepView::Mount(m)
                }
            &&& start_dir(command.envs) matches Some(path) ==> plan.steps[dir]
                == pre_exec::StepView::ChangeDir(path)
            &&& command.tty ==> plan.steps[tty] == pre_exec::StepView::NewSession
                && plan.steps[tty + 1] == pre_exec::StepView::ControllingTerminal(0)
        },
{
    if let Ok(plan) = plan_of(command, ninep_port) {
        let first = seq![pre_exec::StepView::CloseOnExecFrom(FIRST_CLOSED_FD)]
            + pre_exec::private_root_steps();
        let export = ninep_steps(command, ninep_port)->Ok_0;
        let mounts = pre_exec::fstab_steps(command.fstab)->Ok_0;
        let chdir = chdir_steps(start_dir(command.envs));
        let tty = tty_steps(command.tty);
        let steps = plan.steps;
        assert(steps == first + export + mounts + chdir + tty);
        lemma_in_a_row(first, export, mounts, chdir, tty);
        pre_exec::table_is_mounted_step_by_step(command.fstab);
        if command.ninep {
            pre_exec::export_is_mounted_step_by_step(
                Seq::empty(),
                command.tmp_mnt,
                ninep_port->0,
                user_of(command.envs),
            );
        }
        let table = 3 + export_len(command);
        let to_dir = table + 2 * command.fstab.len();
        let to_tty = to_dir + chdir.len();
        assert(first.len() == 3 && export.len() == export_len(command));
        assert(steps.subrange(0, 3) == first);
        assert(steps[0] == first[0]) by {
            assert(steps.subrange(0, 3)[0] == first[0]);
        }
        assert(steps.subrange(1, 3) =~= first.subrange(1, 3)) by {
            assert(steps.subrange(0, 3).subrange(1, 3) =~= steps.subrange(1, 3));
        }
        assert(first.subrange(1, 3) =~= pre_exec::private_root_steps());
        assert forall|i: int| 0 <= i < command.fstab.len() implies {
            &&& mount::mount_of_line(#[trigger] command.fstab[i]) matches Ok(m)
            &&& steps[table + 2 * i] == (pre_exec::StepView::MakeDir {
                path: vstd::utf8::encode_utf8(command.fstab[i].file),
                existing_ok: true,
            })
            &&& steps[table + 2 * i + 1] == pre_exec::StepView::Mount(m)
        } by {
            assert(steps.subrange(table, to_dir)[2 * i] == mounts[2 * i]);
            assert(steps.subrange(table, to_dir)[2 * i + 1] == mounts[2 * i + 1]);
        }
        if chdir.len() > 0 {
            assert(steps.subrange(to_dir, to_tty)[0] == chdir[0]);
        }
        if command.tty {
            assert(steps.subrange(to_tty, steps.len() as int)[0] == tty[0]);
            assert(steps.subrange(to_tty, steps.len() as int)[1] == tty[1]);
        }
    }
}

/// A command can be run exactly if what its client exports can be mounted, where it asks
/// for that, and each line of its table can be mounted. The error is that of the export
/// before that of the table, and there that of the first line with one.
pub proof fn command_can_be_run(command: cmd::CommandView, ninep_port: Option<u16>)
    ensures
        ({
            let user = user_of(command.envs);
            let exported = !command.ninep || ninep_port is Some && ctext::nul_free(
                vstd::utf8::encode_utf8(command.tmp_mnt),
            ) && ctext::nul_free(vstd::utf8::encode_utf8(user));
            &&& plan_of(command, ninep_port) is Ok <==> exported && forall|i: int|
                0 <= i < command.fstab.len() ==> mount::mount_of_line(
                    #[trigger] command.fstab[i],
                ) is Ok
            &&& command.ninep && ninep_port is None ==> plan_of(command, ninep_port) == Err::<
                PlanView,
                error::ServerFault,
            >(error::ServerFault::No9pPort)
            &&& command.ninep && ninep_port is Some && !exported ==> (plan_of(
                command,
                ninep_port,
            ) matches Err(e) && (e matches error::ServerFault::StringContainsNull(nul) && nul.bytes
                == vstd::utf8::encode_utf8(
                if ctext::nul_free(vstd::utf8::encode_utf8(command.tmp_mnt)) {
                    pre_exec::ninep_options(ninep_port->0, user)
                } else {
                    command.tmp_mnt
                },
            )))
            &&& exported ==> (plan_of(command, ninep_port) matches Err(e) ==> exists|k: int|
                0 <= k < command.fstab.len() && mount::mount_of_line(#[trigger] command.fstab[k])
                    == Err::<mount::MountView, error::ServerFault>(e) && forall|i: int|
                    0 <= i < k ==> mount::mount_of_line(#[trigger] command.fstab[i]) is Ok)
        }),
{
    pre_exec::table_is_mounted_step_by_step(command.fstab);
    if command.ninep && ninep_port is Some {
        pre_exec::export_is_mounted_step_by_step(
            Seq::empty(),
            command.tmp_mnt,
            ninep_port->0,
            user_of(command.envs),
        );
    }
}

} // verus!
