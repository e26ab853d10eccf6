//! What a client asks a server to run.

use vstd::prelude::*;
use vstd::string::*;

use crate::number;
use crate::number::NumberError;
use crate::text;

verus! {

/// One line of a file system table, as `fstab(5)` describes it.
#[derive(Debug, Clone, Default, PartialEq, Eq)]
pub struct FsTab {
    /// What is mounted.
    pub spec: String,
    /// Where it is mounted.
    pub file: String,
    /// The type of the file system.
    pub vfstype: String,
    /// The mount options, with commas between them.
    pub mntops: String,
    /// How often `dump(8)` saves it.
    pub freq: i32,
    /// When `fsck(8)` checks it.
    pub passno: i32,
}

/// The value of an [`FsTab`].
pub struct FsTabView {
    pub spec: Seq<char>,
    pub file: Seq<char>,
    pub vfstype: Seq<char>,
    pub mntops: Seq<char>,
    pub freq: i32,
    pub passno: i32,
}

impl View for FsTab {
    type V = FsTabView;

    open spec fn view(&self) -> FsTabView {
        FsTabView {
            spec: self.spec@,
            file: self.file@,
            vfstype: self.vfstype@,
            mntops: self.mntops@,
            freq: self.freq,
            passno: self.passno,
        }
    }
}

/// The values of a list of table lines.
pub open spec fn fstab_views(tabs: Seq<FsTab>) -> Seq<FsTabView> {
    tabs.map_values(|t: FsTab| t@)
}

/// Why a line is no line of a file system table.
#[derive(Debug, Clone, Copy, PartialEq, Eq)]
pub enum FsTabError {
    /// There are more or fewer fields than six.
    NotSixFields,
    /// The named field is not a number.
    InvalidNumber(&'static str, NumberError),
}

/// The value of an [`FsTabError`].
pub enum FsTabFault {
    NotSixFields,
    InvalidNumber(Seq<char>, NumberError),
}

impl View for FsTabError {
    type V = FsTabFault;

    open spec fn view(&self) -> FsTabFault {
        match self {
            FsTabError::NotSixFields => FsTabFault::NotSixFields,
            FsTabError::InvalidNumber(field, e) => FsTabFault::InvalidNumber(field@, *e),
        }
    }
}

impl FsTabFault {
    /// What is wrong with the line, in words.
    pub open spec fn text(self) -> Seq<char> {
        match self {
            FsTabFault::NotSixFields => "line does not contain 6 fields."@,
            FsTabFault::InvalidNumber(field, e) => "Invalid Number for "@ + field + ": "@
                + e.text(),
        }
    }
}

impl FsTabError {
    /// Says what is wrong with the line.
    pub fn message(&self) -> (r: String)
        ensures
            r@ == self@.text(),
    {
        match self {
            FsTabError::NotSixFields => "line does not contain 6 fields.".to_owned(),
            FsTabError::InvalidNumber(field, e) => {
                let mut out = "Invalid Number for ".to_owned();
                out.append(field);
                out.append(": ");
                out.append(e.message().as_str());
                out
            },
        }
    }
}

/// The number in a field of a table line.
pub open spec fn field_number(field: Seq<char>) -> Result<int, NumberError> {
    number::number(field, i32::MIN as int, i32::MAX as int)
}

/// The table line with the given fields. Fields are looked at from the left: a
/// number that cannot be read is reported before a field after it is missed.
pub open spec fn fstab_of_fields(fields: Seq<Seq<char>>) -> Result<FsTabView, FsTabFault> {
    if fields.len() < 5 {
        Err(FsTabFault::NotSixFields)
    } else {
        match field_number(fields[4]) {
            Err(e) => Err(FsTabFault::InvalidNumber("freq"@, e)),
            Ok(freq) => if fields.len() < 6 {
                Err(FsTabFault::NotSixFields)
            } else {
                match field_number(fields[5]) {
                    Err(e) => Err(FsTabFault::InvalidNumber("passno"@, e)),
                    Ok(passno) => if fields.len() > 6 {
                        Err(FsTabFault::NotSixFields)
                    } else {
                        Ok(
                            FsTabView {
                                spec: fields[0],
                                file: fields[1],
                                vfstype: fields[2],
                                mntops: fields[3],
                                freq: freq as i32,
                                passno: passno as i32,
                            },
                        )
                    },
                }
            },
        }
    }
}

/// The table line that `line` holds: its words are the fields.
pub open spec fn fstab_of_line(line: Seq<char>) -> Result<FsTabView, FsTabFault> {
    fstab_of_fields(text::words(line))
}

// A `String` has no spec constructor: what `try_from` gives is stated, over the
// views, in its own `ensures`.
impl vstd::std_specs::convert::TryFromSpecImpl<&str> for FsTab {
    open spec fn obeys_try_from_spec() -> bool {
        false
    }

    open spec fn try_from_spec(line: &str) -> Result<FsTab, FsTabError> {
        arbitrary()
    }
}

impl TryFrom<&str> for FsTab {
    type Error = FsTabError;

    /// Reads one line of a file system table.
    fn try_from(line: &str) -> (r: Result<FsTab, FsTabError>)
        ensures
            match r {
                Ok(tab) => fstab_of_line(line@) == Ok::<FsTabView, FsTabFault>(tab@),
                Err(e) => fstab_of_line(line@) == Err::<FsTabView, FsTabFault>(e@),
            },
            r matches Ok(tab) ==> {
                let w = text::words(line@);
                &&& w.len() == 6
                &&& tab.spec@ == w[0] && tab.file@ == w[1] && tab.vfstype@ == w[2] && tab.mntops@
                    == w[3]
                &&& number::number(w[4], i32::MIN as int, i32::MAX as int) == Ok::<
                    int,
                    NumberError,
                >(tab.freq as int)
                &&& number::number(w[5], i32::MIN as int, i32::MAX as int) == Ok::<
                    int,
                    NumberError,
                >(tab.passno as int)
            },
    {
        let fields = text::split_words(line);
        let ghost all = text::words(line@);
        assert(fields@.len() == all.len());
        assert(forall|i: int| 0 <= i < fields@.len() ==> (#[trigger] fields@[i])@ == all[i]);
        if fields.len() < 5 {
            return Err(FsTabError::NotSixFields);
        }
        let freq = match number::parse_i32(fields[4]) {
            Ok(n) => n,
            Err(e) => return Err(FsTabError::InvalidNumber("freq", e)),
        };
        if fields.len() < 6 {
            return Err(FsTabError::NotSixFields);
        }
        let passno = match number::parse_i32(fields[5]) {
            Ok(n) => n,
            Err(e) => return Err(FsTabError::InvalidNumber("passno", e)),
        };
        if fields.len() > 6 {
            return Err(FsTabError::NotSixFields);
        }
        Ok(
            FsTab {
                spec: fields[0].to_owned(),
                file: fields[1].to_owned(),
                vfstype: fields[2].to_owned(),
                mntops: fields[3].to_owned(),
                freq,
                passno,
            },
        )
    }
}

/// One variable of an environment.
#[derive(Debug, Clone, Default, PartialEq, Eq)]
pub struct EnvVar {
    pub key: Vec<u8>,
    pub val: Vec<u8>,
}

/// The value of an [`EnvVar`].
pub struct EnvVarView {
    pub key: Seq<u8>,
    pub val: Seq<u8>,
}

impl View for EnvVar {
    type V = EnvVarView;

    open spec fn view(&self) -> EnvVarView {
        EnvVarView { key: self.key@, val: self.val@ }
    }
}

/// The values of a list of variables.
pub open spec fn env_views(envs: Seq<EnvVar>) -> Seq<EnvVarView> {
    envs.map_values(|e: EnvVar| e@)
}

/// The request for one remote command.
#[derive(Debug, Clone, PartialEq, Eq)]
pub struct CommandReq {
    pub program: String,
    pub args: Vec<String>,
    pub envs: Vec<EnvVar>,
    /// What the server mounts before it starts the program.
    pub fstab: Vec<FsTab>,
    /// Whether the program runs on a terminal.
    pub tty: bool,
    /// Whether the server mounts the file system that the client exports.
    pub ninep: bool,
    /// Where the server mounts it.
    pub tmp_mnt: String,
}

/// The value of a [`CommandReq`].
#[verifier::ext_equal]
pub struct CommandView {
    pub program: Seq<char>,
    pub args: Seq<Seq<char>>,
    pub envs: Seq<EnvVarView>,
    pub fstab: Seq<FsTabView>,
    pub tty: bool,
    pub ninep: bool,
    pub tmp_mnt: Seq<char>,
}

impl View for CommandReq {
    type V = CommandView;

    open spec fn view(&self) -> CommandView {
        CommandView {
            program: self.program@,
            args: text::string_texts(self.args@),
            envs: env_views(self.envs@),
            fstab: fstab_views(self.fstab@),
            tty: self.tty,
            ninep: self.ninep,
            tmp_mnt: self.tmp_mnt@,
        }
    }
}

/// The request to run `program` with nothing else asked for.
pub open spec fn bare_command(program: Seq<char>) -> CommandView {
    CommandView {
        program,
        args: Seq::empty(),
        envs: Seq::empty(),
        fstab: Seq::empty(),
        tty: false,
        ninep: false,
        tmp_mnt: Seq::empty(),
    }
}

/// A command that is put together step by step.
#[derive(Debug, Clone, PartialEq, Eq)]
pub struct Command {
    pub req: CommandReq,
}

impl Command {
    /// The command that runs `program`.
    pub fn new(program: String) -> (r: Command)
        ensures
            r.req@ == bare_command(program@),
            r.req.program == program,
    {
        Command {
            req: CommandReq {
                program,
                args: Vec::new(),
                envs: Vec::new(),
                fstab: Vec::new(),
                tty: false,
                ninep: false,
                tmp_mnt: String::new(),
            },
        }
    }

    /// Adds arguments after those that are there.
    pub fn args(&mut self, args: Vec<String>) -> (r: &mut Command)
        ensures
            r.req@ == (CommandView {
                args: old(self).req@.args + text::string_texts(args@),
                ..old(self).req@
            }),
            *final(self) == *final(r),
    {
        let mut args = args;
        let ghost more = text::string_texts(args@);
        let ghost was = self.req@;
        self.req.args.append(&mut args);
        assert(self.req@ =~= (CommandView { args: was.args + more, ..was }));
        self
    }

    /// Adds a variable after those that are there.
    pub fn env(&mut self, key: Vec<u8>, val: Vec<u8>) -> (r: &mut Command)
        ensures
            r.req@ == (CommandView {
                envs: old(self).req@.envs.push(EnvVarView { key: key@, val: val@ }),
                ..old(self).req@
            }),
            *final(self) == *final(r),
    {
        let ghost was = self.req@;
        let ghost var = EnvVarView { key: key@, val: val@ };
        self.req.envs.push(EnvVar { key, val });
        assert(self.req@ =~= (CommandView { envs: was.envs.push(var), ..was }));
        self
    }

    /// Adds a table line after those that are there.
    pub fn fstab(&mut self, tab: FsTab) -> (r: &mut Command)
        ensures
            r.req@ == (CommandView {
                fstab: old(self).req@.fstab.push(tab@),
                ..old(self).req@
            }),
            *final(self) == *final(r),
    {
        let ghost was = self.req@;
        let ghost line = tab@;
        self.req.fstab.push(tab);
        assert(self.req@ =~= (CommandView { fstab: was.fstab.push(line), ..was }));
        self
    }
}

/// The text of the fields of a table line.
pub open spec fn fstab_fields(tab: FsTabView) -> Seq<Seq<char>> {
    seq![
        tab.spec,
        tab.file,
        tab.vfstype,
        tab.mntops,
        text::signed_decimal(tab.freq as int),
        text::signed_decimal(tab.passno as int),
    ]
}

/// A table line whose text fields are words, written with one white space
/// character between the fields, reads back as itself.
pub proof fn fstab_line_reads_back(tab: FsTabView, space: char)
    requires
        text::is_white_space(space),
        text::is_word(tab.spec),
        text::is_word(tab.file),
        text::is_word(tab.vfstype),
        text::is_word(tab.mntops),
    ensures
        fstab_of_line(text::join_with(fstab_fields(tab), seq![space])) == Ok::<
            FsTabView,
            FsTabFault,
        >(tab),
{
    let fields = fstab_fields(tab);
    number::lemma_signed_decimal_is_word(tab.freq as int);
    number::lemma_signed_decimal_is_word(tab.passno as int);
    assert forall|i: int| 0 <= i < fields.len() implies text::is_word(#[trigger] fields[i]) by {
        if i == 0 {
        } else if i == 1 {
        } else if i == 2 {
        } else if i == 3 {
        } else if i == 4 {
        } else {
        }
    }
    text::join_then_words(fields, space);
    number::printed_number_reads_back(tab.freq as int, i32::MIN as int, i32::MAX as int);
    number::printed_number_reads_back(tab.passno as int, i32::MIN as int, i32::MAX as int);
}

/// A line that is accepted has exactly six words.
pub proof fn accepted_line_has_six_words(line: Seq<char>)
    ensures
        fstab_of_line(line) is Ok ==> text::words(line).len() == 6,
{
}

/// A line is accepted exactly if it has six words, of which the last two are numbers. Each
/// field is the word in its place, and each number the one that its word stands for. Where
/// the first number cannot be read that is told before anything about the number of words
/// but that it is below five; where the second cannot, before there being too many.
pub proof fn line_is_read_word_by_word(line: Seq<char>)
    ensures
        ({
            let w = text::words(line);
            let read = |i: int| number::number(w[i], i32::MIN as int, i32::MAX as int);
            &&& fstab_of_line(line) is Ok <==> w.len() == 6 && read(4) is Ok && read(5) is Ok
            &&& fstab_of_line(line) matches Ok(tab) ==> {
                &&& tab.spec == w[0]
                &&& tab.file == w[1]
                &&& tab.vfstype == w[2]
                &&& tab.mntops == w[3]
                &&& read(4) == Ok::<int, NumberError>(tab.freq as int)
                &&& read(5) == Ok::<int, NumberError>(tab.passno as int)
            }
            &&& fstab_of_line(line) matches Err(e) ==> e == (if w.len() >= 5 && read(4) is Err {
                FsTabFault::InvalidNumber("freq"@, read(4)->Err_0)
            } else if w.len() >= 6 && read(5) is Err {
                FsTabFault::InvalidNumber("passno"@, read(5)->Err_0)
            } else {
                FsTabFault::NotSixFields
            })
        }),
{
    let w = text::words(line);
    number::lemma_numbers_are_in_range(w[4], i32::MIN as int, i32::MAX as int);
    number::lemma_numbers_are_in_range(w[5], i32::MIN as int, i32::MAX as int);
}

/// What is wrong with a number is told with the name of its field, and in the words for
/// that.
pub proof fn field_and_reason_are_told(field: Seq<char>, e: NumberError)
    ensures
        FsTabFault::NotSixFields.text() == "line does not contain 6 fields."@,
        FsTabFault::InvalidNumber(field, e).text() == "Invalid Number for "@ + field + ": "@
            + e.text(),
{
}

/// A new command runs its program and asks for nothing else.
pub proof fn new_command_asks_for_nothing_else(program: Seq<char>)
    ensures
        ({
            let c = bare_command(program);
            &&& c.program == program
            &&& c.args.len() == 0 && c.envs.len() == 0 && c.fstab.len() == 0
            &&& !c.tty && !c.ninep && c.tmp_mnt.len() == 0
        }),
{
}

} // verus!
