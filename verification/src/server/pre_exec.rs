//! What a new process does before it becomes the command.

use vstd::prelude::*;
use vstd::string::*;

use crate::cmd;
use crate::cmd::FsTab;
use crate::ctext;
use crate::ctext::CText;
use crate::namespace;
use crate::number;
use crate::server::error;
use crate::server::error::P9cpuServerError;
use crate::server::mount;
use crate::server::mount::MountParams;
use crate::text;

verus! {

/// The permissions of a directory that is made to mount on.
pub const MKDIR_MODE: u32 = 0o777;

/// One thing that a new process does.
#[derive(Debug, PartialEq, Eq)]
pub enum PreExecStep {
    /// Mark all file descriptors from this one on to be closed.
    CloseOnExecFrom(i32),
    /// Leave the namespaces that the flags name, with `unshare(2)`.
    Unshare(i32),
    /// Make a directory with [`MKDIR_MODE`].
    MakeDir {
        path: CText,
        /// Whether it may be there already.
        existing_ok: bool,
    },
    /// Mount a file system.
    Mount(MountParams),
    /// Change the working directory.
    ChangeDir(CText),
    /// Become the leader of a new session.
    NewSession,
    /// Make this file descriptor the controlling terminal.
    ControllingTerminal(i32),
}

/// The value of a [`PreExecStep`].
pub enum StepView {
    CloseOnExecFrom(i32),
    Unshare(i32),
    MakeDir { path: Seq<u8>, existing_ok: bool },
    Mount(mount::MountView),
    ChangeDir(Seq<u8>),
    NewSession,
    ControllingTerminal(i32),
}

impl View for PreExecStep {
    type V = StepView;

    open spec fn view(&self) -> StepView {
        match self {
            PreExecStep::CloseOnExecFrom(fd) => StepView::CloseOnExecFrom(*fd),
            PreExecStep::Unshare(flags) => StepView::Unshare(*flags),
            PreExecStep::MakeDir { path, existing_ok } => StepView::MakeDir {
                path: path@,
                existing_ok: *existing_ok,
            },
            PreExecStep::Mount(m) => StepView::Mount(m@),
            PreExecStep::ChangeDir(path) => StepView::ChangeDir(path@),
            PreExecStep::NewSession => StepView::NewSession,
            PreExecStep::ControllingTerminal(fd) => StepView::ControllingTerminal(*fd),
        }
    }
}

/// The values of a list of steps.
pub open spec fn step_views(steps: Seq<PreExecStep>) -> Seq<StepView> {
    steps.map_values(|s: PreExecStep| s@)
}

/// Whether a step did what it should: its system call returned zero, or it was to
/// make a directory that may be there already and is.
pub open spec fn step_succeeds(step: StepView, ret: i32, already_exists: bool) -> bool {
    ||| ret == 0
    ||| already_exists && (step matches StepView::MakeDir { existing_ok, .. } && existing_ok)
}

impl PreExecStep {
    /// Whether the step did what it should. `ret` is what its system call returned,
    /// and `already_exists` whether the error was that the file exists.
    pub fn succeeded(&self, ret: i32, already_exists: bool) -> (r: bool)
        ensures
            r == step_succeeds(self@, ret, already_exists),
    {
        if ret == 0 {
            return true;
        }
        match self {
            PreExecStep::MakeDir { path: _, existing_ok } => *existing_ok && already_exists,
            _ => false,
        }
    }
}

/// The flag of `unshare(2)` for the mount namespace.
pub open spec fn new_mount_namespace_flag() -> i32 {
    0x20000
}

/// The flags of `mount(2)` that make a whole tree of mounts private.
pub open spec fn private_tree_flags() -> u64 {
    0x44000
}

/// The flags of `mount(2)` for what a client exports: no devices, and no programs
/// that change the user.
pub open spec fn exported_flags() -> u64 {
    0x6
}

/// The value of `libc::CLONE_NEWNS`: the one that Linux gives the flag.
#[verifier::external_body]
fn clone_newns() -> (r: i32)
    ensures
        r == new_mount_namespace_flag(),
{
    libc::CLONE_NEWNS
}

/// The value of `libc::MS_REC`: the one that Linux gives the flag.
#[verifier::external_body]
fn ms_rec() -> (r: u64)
    ensures
        r == 0x4000,
{
    libc::MS_REC as u64
}

/// The value of `libc::MS_PRIVATE`: the one that Linux gives the flag.
#[verifier::external_body]
fn ms_private() -> (r: u64)
    ensures
        r == 0x40000,
{
    libc::MS_PRIVATE as u64
}

/// The bits of `nix::mount::MsFlags::MS_NODEV`: those that Linux gives the flag.
#[verifier::external_body]
fn ms_nodev() -> (r: u64)
    ensures
        r == 0x4,
{
    nix::mount::MsFlags::MS_NODEV.bits() as u64
}

/// The bits of `nix::mount::MsFlags::MS_NOSUID`: those that Linux gives the flag.
#[verifier::external_body]
fn ms_nosuid() -> (r: u64)
    ensures
        r == 0x2,
{
    nix::mount::MsFlags::MS_NOSUID.bits() as u64
}

/// The steps that give a process mounts of its own.
pub open spec fn private_root_steps() -> Seq<StepView> {
    seq![
        StepView::Unshare(new_mount_namespace_flag()),
        StepView::Mount(
            mount::MountView {
                source: None,
                target: vstd::utf8::encode_utf8("/"@),
                fstype: None,
                flags: private_tree_flags(),
                data: None,
            },
        ),
    ]
}

/// Gives a process mounts of its own: it leaves the mount namespace of its parent,
/// and then no mount that it makes is seen outside.
pub fn create_private_root() -> (r: Vec<PreExecStep>)
    ensures
        step_views(r@) == private_root_steps(),
{
    proof {
        reveal_strlit("/");
        ctext::ascii_is_nul_free("/"@);
        assert(0x4000u64 | 0x40000u64 == 0x44000u64) by (bit_vector);
    }
    let mut steps: Vec<PreExecStep> = Vec::new();
    steps.push(PreExecStep::Unshare(clone_newns()));
    steps.push(
        PreExecStep::Mount(
            MountParams {
                source: None,
                target: CText::of_nul_free("/"),
                fstype: None,
                flags: ms_rec() | ms_private(),
                data: None,
            },
        ),
    );
    assert(step_views(steps@) =~= private_root_steps());
    steps
}

/// The steps that make the directory of each mount and mount on it.
pub open spec fn mount_steps(mounts: Seq<mount::MountView>, existing_ok: bool) -> Seq<StepView>
    decreases mounts.len(),
{
    if mounts.len() == 0 {
        Seq::empty()
    } else {
        mount_steps(mounts.drop_last(), existing_ok).push(
            StepView::MakeDir { path: mounts.last().target, existing_ok },
        ).push(StepView::Mount(mounts.last()))
    }
}

/// Each mount takes two steps: its directory is made, and then mounted on.
pub proof fn each_mount_takes_two_steps(mounts: Seq<mount::MountView>, existing_ok: bool)
    ensures
        mount_steps(mounts, existing_ok).len() == 2 * mounts.len(),
        forall|i: int|
            0 <= i < mounts.len() ==> {
                &&& mount_steps(mounts, existing_ok)[2 * i] == (StepView::MakeDir {
                    path: (#[trigger] mounts[i]).target,
                    existing_ok,
                })
                &&& mount_steps(mounts, existing_ok)[2 * i + 1] == StepView::Mount(mounts[i])
            },
    decreases mounts.len(),
{
    if mounts.len() > 0 {
        let front = mounts.drop_last();
        each_mount_takes_two_steps(front, existing_ok);
        assert forall|i: int| 0 <= i < mounts.len() implies {
            &&& mount_steps(mounts, existing_ok)[2 * i] == (StepView::MakeDir {
                path: (#[trigger] mounts[i]).target,
                existing_ok,
            })
            &&& mount_steps(mounts, existing_ok)[2 * i + 1] == StepView::Mount(mounts[i])
        } by {
            if i < front.len() {
                assert(front[i] == mounts[i]);
            }
        }
    }
}

fn mount_all(mounts: Vec<MountParams>, existing_ok: bool) -> (r: Vec<PreExecStep>)
    ensures
        step_views(r@) == mount_steps(mount::mount_views(mounts@), existing_ok),
{
    let ghost all = mount::mount_views(mounts@);
    let mut steps: Vec<PreExecStep> = Vec::new();
    assert(all.take(0) =~= Seq::<mount::MountView>::empty());
    assert(step_views(steps@) =~= mount_steps(all.take(0), existing_ok));
    for m in it: mounts
        invariant
            it.seq() == mounts@,
            all == mount::mount_views(mounts@),
            step_views(steps@) == mount_steps(all.take(it.index() as int), existing_ok),
    {
        let ghost i = it.index() as int;
        let ghost before = step_views(steps@);
        let ghost mv = m@;
        proof {
            assert(all.take(i + 1).drop_last() =~= all.take(i));
            assert(all.take(i + 1).last() == m@);
        }
        let path = m.target.clone();
        steps.push(PreExecStep::MakeDir { path, existing_ok });
        steps.push(PreExecStep::Mount(m));
        assert(step_views(steps@) =~= before.push(
            StepView::MakeDir { path: mv.target, existing_ok },
        ).push(StepView::Mount(mv)));
    }
    assert(all.take(all.len() as int) =~= all);
    steps
}

/// The steps that mount what a table asks for.
pub open spec fn fstab_steps(tabs: Seq<cmd::FsTabView>) -> Result<
    Seq<StepView>,
    error::ServerFault,
> {
    match mount::mounts_of_lines(tabs) {
        Ok(mounts) => Ok(mount_steps(mounts, true)),
        Err(e) => Err(e),
    }
}

/// Mounts what a table asks for, in its order. Directories may be there already.
pub fn mount_fstab(fstab: Vec<FsTab>) -> (r: Result<Vec<PreExecStep>, P9cpuServerError>)
    ensures
        match r {
            Ok(steps) => fstab_steps(cmd::fstab_views(fstab@)) == Ok::<
                Seq<StepView>,
                error::ServerFault,
            >(step_views(steps@)),
            Err(e) => fstab_steps(cmd::fstab_views(fstab@)) == Err::<
                Seq<StepView>,
                error::ServerFault,
            >(e@),
        },
{
    match mount::mount_table(fstab) {
        Ok(mounts) => Ok(mount_all(mounts, true)),
        Err(e) => Err(e),
    }
}

/// Where the file system that a client exports is mounted.
pub open spec fn exported_root(tmp_mnt: Seq<char>) -> Seq<char> {
    tmp_mnt + "/mnt9p"@
}

/// The options with which it is mounted, over the port on which it is forwarded.
pub open spec fn ninep_options(port: u16, user: Seq<char>) -> Seq<char> {
    "version=9p2000.L,trans=tcp,port="@ + text::decimal(port as nat) + ",uname="@ + user
}

/// The mount of an empty file system on the temporary mount point.
pub open spec fn tmp_mount(tmp_mnt: Seq<char>) -> mount::MountView {
    mount::MountView {
        source: Some(vstd::utf8::encode_utf8("p9cpu"@)),
        target: vstd::utf8::encode_utf8(tmp_mnt),
        fstype: Some(vstd::utf8::encode_utf8("tmpfs"@)),
        flags: 0,
        data: None,
    }
}

/// The mount of the file system that a client exports.
pub open spec fn exported_mount(tmp_mnt: Seq<char>, port: u16, user: Seq<char>) -> mount::MountView {
    mount::MountView {
        source: Some(vstd::utf8::encode_utf8("127.0.0.1"@)),
        target: vstd::utf8::encode_utf8(exported_root(tmp_mnt)),
        fstype: Some(vstd::utf8::encode_utf8("9p"@)),
        flags: exported_flags(),
        data: Some(vstd::utf8::encode_utf8(ninep_options(port, user))),
    }
}

/// The mount that shows the directory `source` of a client at `target`. No source
/// means the same name.
pub open spec fn shown_mount(target: Seq<char>, source: Seq<char>, tmp_mnt: Seq<char>) -> mount::MountView {
    let name = if source.len() == 0 {
        target
    } else {
        source
    };
    mount::MountView {
        source: Some(vstd::utf8::encode_utf8(exported_root(tmp_mnt) + name)),
        target: vstd::utf8::encode_utf8(target),
        fstype: None,
        flags: mount::bind_flag(),
        data: None,
    }
}

/// The mounts that show the directories of `names`, each a target and a source.
pub open spec fn shown_mounts(names: Seq<(String, String)>, tmp_mnt: Seq<char>) -> Seq<mount::MountView> {
    names.map_values(|n: (String, String)| shown_mount(n.0@, n.1@, tmp_mnt))
}

/// Whether neither name of any pair holds a NUL.
pub open spec fn names_nul_free(names: Seq<(String, String)>) -> bool {
    forall|i: int|
        0 <= i < names.len() ==> ctext::nul_free(vstd::utf8::encode_utf8((#[trigger] names[i]).0@))
            && ctext::nul_free(vstd::utf8::encode_utf8(names[i].1@))
}

/// Whether no target is named twice.
pub open spec fn targets_distinct(names: Seq<(String, String)>) -> bool {
    forall|i: int, j: int|
        0 <= i < j < names.len() ==> (#[trigger] names[i]).0@ != (#[trigger] names[j]).0@
}

/// What is wrong with the texts for the exported file system, if something is.
pub open spec fn namespace_fault(tmp_mnt: Seq<char>, port: u16, user: Seq<char>) -> Option<
    error::ServerFault,
> {
    match mount::kernel_text(tmp_mnt) {
        Err(e) => Some(e),
        Ok(_) => match mount::kernel_text(ninep_options(port, user)) {
            Err(e) => Some(e),
            Ok(_) => None,
        },
    }
}

/// The steps that mount the file system that a client exports, and show `names` of it.
pub open spec fn namespace_steps(
    names: Seq<(String, String)>,
    tmp_mnt: Seq<char>,
    port: u16,
    user: Seq<char>,
) -> Result<Seq<StepView>, error::ServerFault> {
    match namespace_fault(tmp_mnt, port, user) {
        Some(e) => Err(e),
        None => Ok(
            mount_steps(
                seq![tmp_mount(tmp_mnt), exported_mount(tmp_mnt, port, user)] + shown_mounts(
                    names,
                    tmp_mnt,
                ),
                false,
            ),
        ),
    }
}

/// Mounts the file system that a client exports below `tmp_mnt`, over the port on
/// which it is forwarded, and shows the directories of `names` in it, each a target,
/// which is named once, and a source. No directory that is mounted on may be there already.
pub fn create_namespace_9p(
    names: &Vec<(String, String)>,
    tmp_mnt: &str,
    ninep_port: u16,
    user: &str,
) -> (r: Result<Vec<PreExecStep>, P9cpuServerError>)
    requires
        targets_distinct(names@),
        namespace_fault(tmp_mnt@, ninep_port, user@) is None ==> names_nul_free(names@),
    ensures
        match r {
            Ok(steps) => namespace_steps(names@, tmp_mnt@, ninep_port, user@) == Ok::<
                Seq<StepView>,
                error::ServerFault,
            >(step_views(steps@)),
            Err(e) => namespace_steps(names@, tmp_mnt@, ninep_port, user@) == Err::<
                Seq<StepView>,
                error::ServerFault,
            >(e@),
        },
{
    let mut root = tmp_mnt.to_owned();
    root.append("/mnt9p");
    let tmp_mnt_c = match mount::to_kernel(tmp_mnt) {
        Ok(c) => c,
        Err(e) => return Err(e),
    };
    proof {
        reveal_strlit("/mnt9p");
        reveal_strlit("p9cpu");
        reveal_strlit("tmpfs");
        reveal_strlit("127.0.0.1");
        reveal_strlit("9p");
        ctext::ascii_is_nul_free("/mnt9p"@);
        ctext::ascii_is_nul_free("p9cpu"@);
        ctext::ascii_is_nul_free("tmpfs"@);
        ctext::ascii_is_nul_free("127.0.0.1"@);
        ctext::ascii_is_nul_free("9p"@);
        ctext::first_nul_is_found(vstd::utf8::encode_utf8(tmp_mnt@));
        ctext::nul_free_concatenation(tmp_mnt@, "/mnt9p"@);
    }
    let root_c = CText::of_nul_free(root.as_str());
    let mut options = "version=9p2000.L,trans=tcp,port=".to_owned();
    options.append(text::decimal_text(ninep_port as u64).as_str());
    options.append(",uname=");
    options.append(user);
    let options_c = match mount::to_kernel(options.as_str()) {
        Ok(c) => c,
        Err(e) => return Err(e),
    };
    let mut mounts: Vec<MountParams> = Vec::new();
    mounts.push(
        MountParams {
            source: Some(CText::of_nul_free("p9cpu")),
            target: tmp_mnt_c,
            fstype: Some(CText::of_nul_free("tmpfs")),
            flags: mount::ms_empty(),
            data: None,
        },
    );
    proof {
        assert(0x4u64 | 0x2u64 == 0x6u64) by (bit_vector);
    }
    mounts.push(
        MountParams {
            source: Some(CText::of_nul_free("127.0.0.1")),
            target: root_c,
            fstype: Some(CText::of_nul_free("9p")),
            flags: ms_nodev() | ms_nosuid(),
            data: Some(options_c),
        },
    );
    let ghost first = seq![tmp_mount(tmp_mnt@), exported_mount(tmp_mnt@, ninep_port, user@)];
    let ghost shown = shown_mounts(names@, tmp_mnt@);
    assert(mount::mount_views(mounts@) =~= first + shown.take(0));
    let mut i: usize = 0;
    while i < names.len()
        invariant
            i <= names.len(),
            names_nul_free(names@),
            root@ == exported_root(tmp_mnt@),
            ctext::nul_free(vstd::utf8::encode_utf8(root@)),
            shown == shown_mounts(names@, tmp_mnt@),
            mount::mount_views(mounts@) == first + shown.take(i as int),
        decreases names.len() - i,
    {
        let ghost before = mount::mount_views(mounts@);
        let target = names[i].0.as_str();
        let source = if names[i].1.as_str().is_empty() {
            target
        } else {
            names[i].1.as_str()
        };
        let mut local_source = root.clone();
        local_source.append(source);
        proof {
            assert(ctext::nul_free(vstd::utf8::encode_utf8(names@[i as int].0@)));
            ctext::nul_free_concatenation(root@, source@);
        }
        let m = MountParams {
            source: Some(CText::of_nul_free(local_source.as_str())),
            target: CText::of_nul_free(target),
            fstype: None,
            flags: mount::ms_bind(),
            data: None,
        };
        mounts.push(m);
        proof {
            assert(m@ == shown[i as int]);
            assert(shown.take(i + 1) =~= shown.take(i as int).push(m@));
            assert(mount::mount_views(mounts@) =~= before.push(m@));
            assert(before.push(m@) =~= first + shown.take(i + 1));
        }
        i += 1;
    }
    assert(shown.take(i as int) =~= shown);
    Ok(mount_all(mounts, false))
}

proof fn lemma_decimal_is_nul_free(n: nat)
    ensures
        ctext::nul_free(vstd::utf8::encode_utf8(text::decimal(n))),
    decreases n,
{
    if n < 10 {
        ctext::ascii_is_nul_free(text::decimal(n));
    } else {
        lemma_decimal_is_nul_free(n / 10);
        let last = seq![text::digit_char(n % 10)];
        ctext::ascii_is_nul_free(last);
        ctext::nul_free_concatenation(text::decimal(n / 10), last);
        assert(text::decimal(n) =~= text::decimal(n / 10) + last);
    }
}

/// Where neither the place to mount at nor the name of the user holds a NUL, the file
/// system of a client can be mounted.
pub proof fn export_can_be_mounted(tmp_mnt: Seq<char>, port: u16, user: Seq<char>)
    ensures
        namespace_fault(tmp_mnt, port, user) is None <==> ctext::nul_free(
            vstd::utf8::encode_utf8(tmp_mnt),
        ) && ctext::nul_free(vstd::utf8::encode_utf8(user)),
{
    let start = "version=9p2000.L,trans=tcp,port="@;
    let number = text::decimal(port as nat);
    reveal_strlit("version=9p2000.L,trans=tcp,port=");
    reveal_strlit(",uname=");
    ctext::ascii_is_nul_free(start);
    ctext::ascii_is_nul_free(",uname="@);
    lemma_decimal_is_nul_free(port as nat);
    ctext::nul_free_concatenation(start, number);
    ctext::nul_free_concatenation(start + number, ",uname="@);
    ctext::nul_free_concatenation(start + number + ",uname="@, user);
    ctext::first_nul_is_found(vstd::utf8::encode_utf8(tmp_mnt));
    ctext::first_nul_is_found(vstd::utf8::encode_utf8(ninep_options(port, user)));
}

proof fn lemma_namespace_options()
    ensures
        mount::mount_options("defaults,bind"@) == (mount::bind_flag(), Seq::<char>::empty()),
{
    reveal_strlit("defaults,bind");
    reveal_strlit("defaults");
    reveal_strlit("bind");
    let parts = seq!["defaults"@, "bind"@];
    assert(parts.drop_last() =~= seq!["defaults"@]);
    assert(parts.drop_last().drop_last() =~= Seq::<Seq<char>>::empty());
    assert(text::join_with(parts.drop_last(), seq![',']) == "defaults"@);
    assert(text::join_with(parts, seq![',']) == "defaults"@ + seq![','] + "bind"@);
    assert("defaults"@ + seq![','] + "bind"@ =~= "defaults,bind"@);
    text::join_then_split(parts, ',');
    reveal_with_fuel(mount::kept_options, 3);
    assert(parts[1] == "bind"@);
    assert(parts.contains("bind"@));
}

/// The bind mount of a directory of a client, below the place where its file system is
/// mounted.
pub open spec fn bind_mount(binding: namespace::Binding, tmp_mnt: Seq<char>) -> mount::MountView {
    mount::MountView {
        source: Some(vstd::utf8::encode_utf8(exported_root(tmp_mnt) + binding.source)),
        target: vstd::utf8::encode_utf8(binding.target),
        fstype: Some(vstd::utf8::encode_utf8("none"@)),
        flags: mount::bind_flag(),
        data: Some(Seq::empty()),
    }
}

/// A line that a namespace stands for is a bind mount of a directory below the
/// place where the file system of the client is mounted.
pub proof fn namespace_lines_are_bind_mounts(binding: namespace::Binding, tmp_mnt: Seq<char>)
    requires
        ctext::nul_free(vstd::utf8::encode_utf8(binding.target)),
        ctext::nul_free(vstd::utf8::encode_utf8(binding.source)),
        ctext::nul_free(vstd::utf8::encode_utf8(tmp_mnt)),
    ensures
        mount::mount_of_line(namespace::binding_line(binding, tmp_mnt)) == Ok::<
            mount::MountView,
            error::ServerFault,
        >(bind_mount(binding, tmp_mnt)),
{
    let line = namespace::binding_line(binding, tmp_mnt);
    reveal_strlit("/");
    reveal_strlit("mnt9p");
    reveal_strlit("/mnt9p");
    reveal_strlit("none");
    assert("/"@ + "mnt9p"@ =~= "/mnt9p"@);
    assert(line.spec =~= exported_root(tmp_mnt) + binding.source);
    ctext::ascii_is_nul_free("/mnt9p"@);
    ctext::ascii_is_nul_free("none"@);
    ctext::nul_free_concatenation(tmp_mnt, "/mnt9p"@);
    ctext::nul_free_concatenation(exported_root(tmp_mnt), binding.source);
    ctext::first_nul_is_found(vstd::utf8::encode_utf8(line.spec));
    ctext::first_nul_is_found(vstd::utf8::encode_utf8(line.file));
    ctext::first_nul_is_found(vstd::utf8::encode_utf8("none"@));
    lemma_namespace_options();
    assert(vstd::utf8::encode_utf8(Seq::<char>::empty()) =~= Seq::<u8>::empty());
}

/// A step whose call returned zero did what it should. One whose call failed did not, but
/// for the making of a directory that may be there already and is.
pub proof fn failed_step_ends_the_process(step: StepView, ret: i32, already_exists: bool)
    ensures
        step_succeeds(step, 0, already_exists),
        ret != 0 && !already_exists ==> !step_succeeds(step, ret, already_exists),
        ret != 0 && already_exists ==> (step_succeeds(step, ret, already_exists) <==> (
        step matches StepView::MakeDir { existing_ok, .. } && existing_ok)),
{
}

/// A process leaves the mount namespace of its parent, and then makes all mounts from the
/// root down its own.
pub proof fn process_gets_mounts_of_its_own()
    ensures
        private_root_steps().len() == 2,
        private_root_steps()[0] == StepView::Unshare(0x20000),
        private_root_steps()[1] matches StepView::Mount(m) && {
            &&& m.source is None && m.fstype is None && m.data is None
            &&& m.target == seq![0x2fu8]
            &&& m.flags == 0x4000u64 | 0x40000u64
        },
{
    reveal_strlit("/");
    assert(0x4000u64 | 0x40000u64 == 0x44000u64) by (bit_vector);
    let s = "/"@;
    assert(vstd::utf8::is_ascii_chars(s));
    vstd::utf8::is_ascii_chars_encode_utf8(s);
    assert(vstd::utf8::encode_utf8(s) =~= seq![0x2fu8]);
}

/// The options with which the file system of a client is mounted name the protocol, the
/// port, which reads back from its digits, and the user, who is named to the end.
pub proof fn options_name_the_port_and_the_user(port: u16, user: Seq<char>)
    ensures
        ({
            let start = "version=9p2000.L,trans=tcp,port="@;
            let digits = text::decimal(port as nat);
            let options = ninep_options(port, user);
            &&& options == start + digits + ",uname="@ + user
            &&& options.take(start.len() as int) == start
            &&& options.subrange(start.len() as int, (start.len() + digits.len()) as int) == digits
            &&& number::number(digits, 0, u16::MAX as int) == Ok::<int, number::NumberError>(
                port as int,
            )
            &&& options.skip(options.len() - user.len()) == user
        }),
{
    let start = "version=9p2000.L,trans=tcp,port="@;
    let digits = text::decimal(port as nat);
    let options = ninep_options(port, user);
    number::printed_number_reads_back(port as int, 0, u16::MAX as int);
    assert(options.take(start.len() as int) =~= start);
    assert(options.subrange(start.len() as int, (start.len() + digits.len()) as int) =~= digits);
    assert(options.skip(options.len() - user.len()) =~= user);
}

/// First an empty file system is mounted at the temporary mount point, and then what the
/// client exports below it, from this machine, without devices and without programs that
/// change the user.
pub proof fn export_is_mounted_below_the_mount_point(tmp_mnt: Seq<char>, port: u16, user: Seq<char>)
    ensures
        ({
            let m = tmp_mount(tmp_mnt);
            &&& m.source == Some(vstd::utf8::encode_utf8("p9cpu"@))
            &&& m.target == vstd::utf8::encode_utf8(tmp_mnt)
            &&& m.fstype == Some(vstd::utf8::encode_utf8("tmpfs"@))
            &&& m.flags == 0 && m.data is None
        }),
        ({
            let m = exported_mount(tmp_mnt, port, user);
            &&& m.source == Some(vstd::utf8::encode_utf8("127.0.0.1"@))
            &&& m.target == vstd::utf8::encode_utf8(tmp_mnt) + vstd::utf8::encode_utf8("/mnt9p"@)
            &&& m.fstype == Some(vstd::utf8::encode_utf8("9p"@))
            &&& m.flags == 0x4u64 | 0x2u64
            &&& m.data == Some(vstd::utf8::encode_utf8(ninep_options(port, user)))
        }),
{
    assert(0x4u64 | 0x2u64 == 0x6u64) by (bit_vector);
    ctext::encoding_of_concatenation(tmp_mnt, "/mnt9p"@);
}

/// A directory of the client is shown at its target: the one that the source names, or,
/// without a source, the one with the name of the target, below what the client exports.
pub proof fn directory_is_shown_at_its_target(
    target: Seq<char>,
    source: Seq<char>,
    tmp_mnt: Seq<char>,
)
    ensures
        ({
            let m = shown_mount(target, source, tmp_mnt);
            &&& m.target == vstd::utf8::encode_utf8(target)
            &&& m.source == Some(
                vstd::utf8::encode_utf8(tmp_mnt) + vstd::utf8::encode_utf8("/mnt9p"@)
                    + vstd::utf8::encode_utf8(
                    if source.len() > 0 {
                        source
                    } else {
                        target
                    },
                ),
            )
            &&& m.fstype is None && m.data is None
            &&& m.flags == 0x1000
        }),
{
    ctext::encoding_of_concatenation(tmp_mnt, "/mnt9p"@);
    ctext::encoding_of_concatenation(
        tmp_mnt + "/mnt9p"@,
        if source.len() > 0 {
            source
        } else {
            target
        },
    );
}

/// Where the mount point and the user hold no NUL, the process makes and mounts, in this
/// order, the mount point, the place of the exported file system, and each directory that
/// is shown. None of these directories may be there already. Otherwise it does nothing,
/// and the error is that of the mount point before that of the options.
pub proof fn export_is_mounted_step_by_step(
    names: Seq<(String, String)>,
    tmp_mnt: Seq<char>,
    port: u16,
    user: Seq<char>,
)
    ensures
        namespace_steps(names, tmp_mnt, port, user) is Ok <==> ctext::nul_free(
            vstd::utf8::encode_utf8(tmp_mnt),
        ) && ctext::nul_free(vstd::utf8::encode_utf8(user)),
        namespace_steps(names, tmp_mnt, port, user) matches Err(e) ==> (
        e matches error::ServerFault::StringContainsNull(nul) && nul.bytes
            == vstd::utf8::encode_utf8(
            if ctext::nul_free(vstd::utf8::encode_utf8(tmp_mnt)) {
                ninep_options(port, user)
            } else {
                tmp_mnt
            },
        )),
        namespace_steps(names, tmp_mnt, port, user) matches Ok(steps) ==> {
            &&& steps.len() == 4 + 2 * names.len()
            &&& steps[0] == (StepView::MakeDir {
                path: vstd::utf8::encode_utf8(tmp_mnt),
                existing_ok: false,
            })
            &&& steps[1] == StepView::Mount(tmp_mount(tmp_mnt))
            &&& steps[2] == (StepView::MakeDir {
                path: vstd::utf8::encode_utf8(tmp_mnt) + vstd::utf8::encode_utf8("/mnt9p"@),
                existing_ok: false,
            })
            &&& steps[3] == StepView::Mount(exported_mount(tmp_mnt, port, user))
            &&& forall|i: int|
                0 <= i < names.len() ==> {
                    &&& steps[4 + 2 * i] == (StepView::MakeDir {
                        path: vstd::utf8::encode_utf8((#[trigger] names[i]).0@),
                        existing_ok: false,
                    })
                    &&& steps[5 + 2 * i] == StepView::Mount(
                        shown_mount(names[i].0@, names[i].1@, tmp_mnt),
                    )
                }
        },
{
    export_can_be_mounted(tmp_mnt, port, user);
    mount::kernel_gets_the_text(tmp_mnt);
    mount::kernel_gets_the_text(ninep_options(port, user));
    export_is_mounted_below_the_mount_point(tmp_mnt, port, user);
    let mounts = seq![tmp_mount(tmp_mnt), exported_mount(tmp_mnt, port, user)] + shown_mounts(
        names,
        tmp_mnt,
    );
    let steps = mount_steps(mounts, false);
    each_mount_takes_two_steps(mounts, false);
    assert(mounts[0] == tmp_mount(tmp_mnt));
    assert(mounts[1] == exported_mount(tmp_mnt, port, user));
    assert(steps[0] == (StepView::MakeDir { path: mounts[0].target, existing_ok: false }));
    assert(steps[2] == (StepView::MakeDir { path: mounts[1].target, existing_ok: false }));
    assert forall|i: int| 0 <= i < names.len() implies {
        &&& steps[4 + 2 * i] == (StepView::MakeDir {
            path: vstd::utf8::encode_utf8((#[trigger] names[i]).0@),
            existing_ok: false,
        })
        &&& steps[5 + 2 * i] == StepView::Mount(shown_mount(names[i].0@, names[i].1@, tmp_mnt))
    } by {
        assert(mounts[i + 2] == shown_mount(names[i].0@, names[i].1@, tmp_mnt));
        assert(steps[2 * (i + 2)] == (StepView::MakeDir {
            path: mounts[i + 2].target,
            existing_ok: false,
        }));
        assert(steps[2 * (i + 2) + 1] == StepView::Mount(mounts[i + 2]));
    }
}

/// For each line of a table, in their order, the process makes the directory that the line
/// names, which may be there already, and mounts on it what the line asks for. A table
/// with a line that cannot be mounted gives no step, but the error of the first such line.
pub proof fn table_is_mounted_step_by_step(tabs: Seq<cmd::FsTabView>)
    ensures
        fstab_steps(tabs) is Ok <==> forall|i: int|
            0 <= i < tabs.len() ==> mount::mount_of_line(#[trigger] tabs[i]) is Ok,
        fstab_steps(tabs) matches Ok(steps) ==> steps.len() == 2 * tabs.len() && forall|i: int|
            0 <= i < tabs.len() ==> {
                &&& mount::mount_of_line(#[trigger] tabs[i]) matches Ok(m)
                &&& steps[2 * i] == (StepView::MakeDir {
                    path: vstd::utf8::encode_utf8(tabs[i].file),
                    existing_ok: true,
                })
                &&& steps[2 * i + 1] == StepView::Mount(m)
            },
        fstab_steps(tabs) matches Err(e) ==> exists|k: int|
            0 <= k < tabs.len() && mount::mount_of_line(#[trigger] tabs[k]) == Err::<
                mount::MountView,
                error::ServerFault,
            >(e) && forall|i: int| 0 <= i < k ==> mount::mount_of_line(#[trigger] tabs[i]) is Ok,
{
    mount::table_is_mounted_line_by_line(tabs);
    if let Ok(mounts) = mount::mounts_of_lines(tabs) {
        each_mount_takes_two_steps(mounts, true);
        let steps = mount_steps(mounts, true);
        assert forall|i: int| 0 <= i < tabs.len() implies {
            &&& mount::mount_of_line(#[trigger] tabs[i]) matches Ok(m)
            &&& steps[2 * i] == (StepView::MakeDir {
                path: vstd::utf8::encode_utf8(tabs[i].file),
                existing_ok: true,
            })
            &&& steps[2 * i + 1] == StepView::Mount(m)
        } by {
            mount::line_is_mounted_as_it_says(tabs[i]);
            assert(mount::mount_of_line(tabs[i]) == Ok::<mount::MountView, error::ServerFault>(
                mounts[i],
            ));
        }
    }
}

/// All may read, write and search a directory that is made to mount on.
pub proof fn made_directories_are_open_to_all()
    ensures
        MKDIR_MODE == 7 * 64 + 7 * 8 + 7,
{
}

} // verus!
