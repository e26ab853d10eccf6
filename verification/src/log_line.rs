//! The lines of a server's log.

use vstd::prelude::*;
use vstd::string::*;

verus! {

/// How wide the column of the levels is.
pub const LEVEL_WIDTH: usize = 5;

/// What stands for a module without a name.
pub const UNNAMED: &'static str = "<unnamed>";

/// A text with blanks after it, so that it is at least as wide as the column.
pub open spec fn padded(level: Seq<char>) -> Seq<char> {
    if level.len() < LEVEL_WIDTH {
        level + Seq::new((LEVEL_WIDTH - level.len()) as nat, |i: int| ' ')
    } else {
        level
    }
}

/// A line of the log.
pub open spec fn line_of(
    now: Seq<char>,
    level: Seq<char>,
    module: Option<Seq<char>>,
    message: Seq<char>,
) -> Seq<char> {
    let name = match module {
        Some(name) => name,
        None => UNNAMED@,
    };
    "["@ + now + "] "@ + level + " ["@ + name + "]: "@ + message
}

/// The column for a level.
pub fn level_column(level: &str) -> (r: String)
    ensures
        r@ == padded(level@),
{
    let mut out = level.to_owned();
    let mut width: usize = level.unicode_len();
    let ghost given = level@;
    assert(out@ =~= given + Seq::new((width - given.len()) as nat, |i: int| ' '));
    proof {
        reveal_strlit(" ");
    }
    while width < LEVEL_WIDTH
        invariant
            given == level@,
            width >= given.len(),
            width <= LEVEL_WIDTH || width == given.len(),
            " "@ == seq![' '],
            out@ == given + Seq::new((width - given.len()) as nat, |i: int| ' '),
        decreases LEVEL_WIDTH - width,
    {
        let ghost was = out@;
        out.append(" ");
        assert(out@ =~= was.push(' '));
        width += 1;
        assert(out@ =~= given + Seq::new((width - given.len()) as nat, |i: int| ' '));
    }
    assert(out@ =~= padded(level@));
    out
}

/// A line of the log: when, how grave, from where, and what.
pub fn log_format(now: &str, level: &str, module: Option<&str>, message: &str) -> (r: String)
    ensures
        r@ == line_of(
            now@,
            level@,
            match module {
                Some(name) => Some(name@),
                None => None,
            },
            message@,
        ),
{
    let mut out = "[".to_owned();
    out.append(now);
    out.append("] ");
    out.append(level);
    out.append(" [");
    match module {
        Some(name) => out.append(name),
        None => out.append(UNNAMED),
    }
    out.append("]: ");
    out.append(message);
    out
}

/// A level fills its column: it stands first, blanks follow, and it is as wide as the column
/// or as the level, whichever is wider.
pub proof fn level_fills_its_column(level: Seq<char>)
    ensures
        padded(level).len() == (if level.len() < 5 {
            5
        } else {
            level.len()
        }),
        padded(level).take(level.len() as int) == level,
        forall|i: int| level.len() <= i < padded(level).len() ==> #[trigger] padded(level)[i] == ' ',
{
    assert(padded(level).take(level.len() as int) =~= level);
}

/// A line of the log holds, each once and in this order, the time in brackets, the level,
/// the module in brackets, and the message to its end.
pub proof fn log_line_holds_all(
    now: Seq<char>,
    level: Seq<char>,
    module: Option<Seq<char>>,
    message: Seq<char>,
)
    ensures
        ({
            let name = match module {
                Some(name) => name,
                None => "<unnamed>"@,
            };
            let line = line_of(now, level, module, message);
            let n = now.len() as int;
            let l = level.len() as int;
            let m = name.len() as int;
            &&& line.len() == n + l + m + message.len() + 8
            &&& line[0] == '['
            &&& line.subrange(1, 1 + n) == now
            &&& line.subrange(1 + n, 3 + n) == seq![']', ' ']
            &&& line.subrange(3 + n, 3 + n + l) == level
            &&& line.subrange(3 + n + l, 5 + n + l) == seq![' ', '[']
            &&& line.subrange(5 + n + l, 5 + n + l + m) == name
            &&& line.subrange(5 + n + l + m, 8 + n + l + m) == seq![']', ':', ' ']
            &&& line.skip(8 + n + l + m) == message
        }),
{
    reveal_strlit("[");
    reveal_strlit("] ");
    reveal_strlit(" [");
    reveal_strlit("]: ");
    let name = match module {
        Some(name) => name,
        None => "<unnamed>"@,
    };
    let line = line_of(now, level, module, message);
    let n = now.len() as int;
    let l = level.len() as int;
    let m = name.len() as int;
    assert(line.subrange(1, 1 + n) =~= now);
    assert(line.subrange(1 + n, 3 + n) =~= seq![']', ' ']);
    assert(line.subrange(3 + n, 3 + n + l) =~= level);
    assert(line.subrange(3 + n + l, 5 + n + l) =~= seq![' ', '[']);
    assert(line.subrange(5 + n + l, 5 + n + l + m) =~= name);
    assert(line.subrange(5 + n + l + m, 8 + n + l + m) =~= seq![']', ':', ' ']);
    assert(line.skip(8 + n + l + m) =~= message);
}

} // verus!
