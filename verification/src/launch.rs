//! How a client puts the request for a command together.

use vstd::prelude::*;
use vstd::string::*;

use crate::cmd;
use crate::cmd::CommandReq;
use crate::cmd::EnvVar;
use crate::cmd::FsTab;
use crate::cmd::FsTabError;
use crate::namespace;
use crate::namespace::NamespaceWarning;
use crate::text;

verus! {

/// What is said where no place is given to mount at.
pub const NO_TMP_MNT: &'static str = "tmpmnt cannot be emepty";

/// A request that is being put together: what is to be mounted is being read.
#[derive(Debug, PartialEq, Eq)]
pub struct Preparation {
    /// The table lines that were read.
    pub fstab: Vec<FsTab>,
    /// Whether the client exports its file system.
    pub ninep: bool,
    /// Where the server mounts it.
    pub tmp_mnt: String,
}

/// The value of a [`Preparation`].
pub struct PreparationView {
    pub fstab: Seq<cmd::FsTabView>,
    pub ninep: bool,
    pub tmp_mnt: Seq<char>,
}

impl View for Preparation {
    type V = PreparationView;

    open spec fn view(&self) -> PreparationView {
        PreparationView {
            fstab: cmd::fstab_views(self.fstab@),
            ninep: self.ninep,
            tmp_mnt: self.tmp_mnt@,
        }
    }
}

/// Whether a line of a table is a comment.
pub open spec fn is_comment(line: Seq<char>) -> bool {
    line.len() > 0 && line[0] == '#'
}

/// The table lines after one more line of text: a comment adds none.
pub open spec fn with_line(tabs: Seq<cmd::FsTabView>, line: Seq<char>) -> Result<
    Seq<cmd::FsTabView>,
    cmd::FsTabFault,
> {
    if is_comment(line) {
        Ok(tabs)
    } else {
        match cmd::fstab_of_line(line) {
            Ok(tab) => Ok(tabs.push(tab)),
            Err(e) => Err(e),
        }
    }
}

/// The table lines after more lines of text: the first line with an error decides it.
pub open spec fn with_lines(tabs: Seq<cmd::FsTabView>, lines: Seq<Seq<char>>) -> Result<
    Seq<cmd::FsTabView>,
    cmd::FsTabFault,
>
    decreases lines.len(),
{
    if lines.len() == 0 {
        Ok(tabs)
    } else {
        match with_line(tabs, lines.first()) {
            Ok(more) => with_lines(more, lines.drop_first()),
            Err(e) => Err(e),
        }
    }
}

fn comment(line: &str) -> (r: bool)
    ensures
        r == is_comment(line@),
{
    let chars = text::chars_of(line);
    chars.len() > 0 && chars[0] == '#'
}

impl Preparation {
    /// Starts with what a namespace stands for, and says which of its parts are left out.
    /// The file system is exported if a part is left. Without a place to mount it at
    /// there is nothing to prepare.
    pub fn new(namespace: &str, tmp_mnt: String) -> (r: Option<
        (Preparation, Vec<NamespaceWarning>),
    >)
        ensures
            match r {
                Some((p, warnings)) => {
                    &&& tmp_mnt@.len() > 0
                    &&& p@.fstab == namespace::namespace_lines(namespace@, tmp_mnt@)
                    &&& p@.ninep == (p@.fstab.len() > 0)
                    &&& p@.tmp_mnt == tmp_mnt@
                    &&& namespace::warning_views(warnings@) == namespace::warnings_of(
                        namespace::namespace_parts(namespace@),
                    )
                },
                None => tmp_mnt@.len() == 0,
            },
    {
        if tmp_mnt.as_str().is_empty() {
            return None;
        }
        let (fstab, warnings) = namespace::read_namespace(namespace, tmp_mnt.as_str());
        let ninep = fstab.len() > 0;
        Some((Preparation { fstab, ninep, tmp_mnt }, warnings))
    }

    /// Reads one more line of a table.
    pub fn line(&mut self, line: &str) -> (r: Result<(), FsTabError>)
        ensures
            match with_line(old(self)@.fstab, line@) {
                Ok(tabs) => r is Ok && final(self)@ == (PreparationView {
                    fstab: tabs,
                    ..old(self)@
                }),
                Err(e) => (r matches Err(f) && f@ == e) && *final(self) == *old(self),
            },
            old(self).fstab@.is_prefix_of(final(self).fstab@),
            final(self).fstab@.len() <= old(self).fstab@.len() + 1,
            final(self).ninep == old(self).ninep,
            final(self).tmp_mnt == old(self).tmp_mnt,
    {
        if comment(line) {
            return Ok(());
        }
        match FsTab::try_from(line) {
            Ok(tab) => {
                let ghost was = self.fstab@;
                self.fstab.push(tab);
                assert(cmd::fstab_views(self.fstab@) =~= cmd::fstab_views(was).push(tab@));
                Ok(())
            },
            Err(e) => Err(e),
        }
    }

    /// The request for the command: the program and its arguments, in an environment.
    pub fn command(self, args: Vec<String>, envs: Vec<EnvVar>, tty: bool) -> (r: CommandReq)
        requires
            args@.len() > 0,
        ensures
            r@ == (cmd::CommandView {
                program: args@[0]@,
                args: text::string_texts(args@.skip(1)),
                envs: cmd::env_views(envs@),
                fstab: self@.fstab,
                tty,
                ninep: self@.ninep,
                tmp_mnt: self@.tmp_mnt,
            }),
            r.program == args@[0],
            r.args@ == args@.skip(1),
            r.envs == envs,
            r.fstab == self.fstab,
            r.tty == tty,
            r.ninep == self.ninep,
            r.tmp_mnt == self.tmp_mnt,
    {
        let mut args = args;
        let ghost all = args@;
        let program = args.remove(0);
        assert(args@ =~= all.skip(1));
        CommandReq {
            program,
            args,
            envs,
            fstab: self.fstab,
            tty,
            ninep: self.ninep,
            tmp_mnt: self.tmp_mnt,
        }
    }
}

/// What was read before stays in front, in its order: what a namespace stands for comes
/// before what a table holds.
pub proof fn earlier_lines_stay(tabs: Seq<cmd::FsTabView>, lines: Seq<Seq<char>>)
    ensures
        with_lines(tabs, lines) matches Ok(all) ==> tabs.is_prefix_of(all),
    decreases lines.len(),
{
    if lines.len() > 0 {
        if let Ok(more) = with_line(tabs, lines.first()) {
            earlier_lines_stay(more, lines.drop_first());
        }
    }
}

/// A table of comments adds nothing.
pub proof fn comments_add_nothing(tabs: Seq<cmd::FsTabView>, lines: Seq<Seq<char>>)
    requires
        forall|i: int| 0 <= i < lines.len() ==> is_comment(#[trigger] lines[i]),
    ensures
        with_lines(tabs, lines) == Ok::<Seq<cmd::FsTabView>, cmd::FsTabFault>(tabs),
    decreases lines.len(),
{
    if lines.len() > 0 {
        let rest = lines.drop_first();
        assert forall|i: int| 0 <= i < rest.len() implies is_comment(#[trigger] rest[i]) by {
            assert(rest[i] == lines[i + 1]);
        }
        comments_add_nothing(tabs, rest);
    }
}

/// A line of text adds nothing exactly if a hash sign is its first character. Any other
/// line adds what it says, after what was read before, or is refused with what is wrong
/// with it.
pub proof fn line_adds_what_it_says(tabs: Seq<cmd::FsTabView>, line: Seq<char>)
    ensures
        with_line(tabs, seq!['#'] + line) == Ok::<Seq<cmd::FsTabView>, cmd::FsTabFault>(tabs),
        line.len() == 0 || line[0] != '#' ==> match cmd::fstab_of_line(line) {
            Ok(tab) => with_line(tabs, line) matches Ok(more) && more.len() == tabs.len() + 1
                && more.drop_last() == tabs && more.last() == tab,
            Err(e) => with_line(tabs, line) == Err::<Seq<cmd::FsTabView>, cmd::FsTabFault>(e),
        },
{
    assert((seq!['#'] + line)[0] == '#');
    if line.len() == 0 || line[0] != '#' {
        if let Ok(tab) = cmd::fstab_of_line(line) {
            assert(tabs.push(tab).drop_last() =~= tabs);
        }
    }
}

/// A table line that is written out, with white space between its fields, is read and
/// added as it was, unless what it mounts begins like a comment.
pub proof fn written_line_is_added(tabs: Seq<cmd::FsTabView>, tab: cmd::FsTabView, space: char)
    requires
        text::is_white_space(space),
        text::is_word(tab.spec),
        text::is_word(tab.file),
        text::is_word(tab.vfstype),
        text::is_word(tab.mntops),
        tab.spec[0] != '#',
    ensures
        with_line(tabs, text::join_with(cmd::fstab_fields(tab), seq![space])) == Ok::<
            Seq<cmd::FsTabView>,
            cmd::FsTabFault,
        >(tabs.push(tab)),
{
    let fields = cmd::fstab_fields(tab);
    let line = text::join_with(fields, seq![space]);
    cmd::fstab_line_reads_back(tab, space);
    let first = fields.take(1);
    let rest = fields.skip(1);
    assert(first + rest =~= fields);
    text::joining_puts_the_separator_between(first, rest, seq![space]);
    assert(line[0] == tab.spec[0]);
}

} // verus!
