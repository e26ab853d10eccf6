//! Which directories of the client a command sees, and where.

use vstd::prelude::*;
use vstd::string::*;

use crate::cmd;
use crate::cmd::FsTab;
use crate::text;

verus! {

/// The directory, below the temporary mount point, on which the server mounts
/// what the client exports.
pub const NINEP_MOUNT: &'static str = "mnt9p";

/// The directory, below the temporary mount point, for the root of the server.
pub const LOCAL_ROOT_MOUNT: &'static str = "local";

/// A directory of the client and where the command sees it.
pub struct Binding {
    pub target: Seq<char>,
    pub source: Seq<char>,
}

/// What one part of a namespace asks for: `target=source`, or one name for both.
pub open spec fn binding_of(part: Seq<char>) -> Option<Binding> {
    let names = text::split_on(part, '=');
    if names.len() == 1 {
        Some(Binding { target: names[0], source: names[0] })
    } else if names.len() == 2 {
        Some(Binding { target: names[0], source: names[1] })
    } else {
        None
    }
}

/// Whether `target` is bound in `bindings`.
pub open spec fn is_bound(bindings: Seq<Binding>, target: Seq<char>) -> bool {
    exists|i: int| 0 <= i < bindings.len() && (#[trigger] bindings[i]).target == target
}

/// What the parts ask for, in order. Of several parts with one target the first counts.
pub open spec fn bindings_of(parts: Seq<Seq<char>>) -> Seq<Binding>
    decreases parts.len(),
{
    if parts.len() == 0 {
        Seq::empty()
    } else {
        let before = bindings_of(parts.drop_last());
        match binding_of(parts.last()) {
            None => before,
            Some(b) => if is_bound(before, b.target) {
                before
            } else {
                before.push(b)
            },
        }
    }
}

/// A part of a namespace that is left out.
#[derive(Debug, Clone, PartialEq, Eq)]
pub enum NamespaceWarning {
    /// The part holds more than one equals sign.
    Invalid(String),
    /// The target of the part is bound already.
    Duplicate(String),
}

/// The value of a [`NamespaceWarning`].
pub enum WarningView {
    Invalid(Seq<char>),
    Duplicate(Seq<char>),
}

impl View for NamespaceWarning {
    type V = WarningView;

    open spec fn view(&self) -> WarningView {
        match self {
            NamespaceWarning::Invalid(part) => WarningView::Invalid(part@),
            NamespaceWarning::Duplicate(target) => WarningView::Duplicate(target@),
        }
    }
}

/// The values of a list of warnings.
pub open spec fn warning_views(warnings: Seq<NamespaceWarning>) -> Seq<WarningView> {
    warnings.map_values(|w: NamespaceWarning| w@)
}

/// The parts that are left out, in order.
pub open spec fn warnings_of(parts: Seq<Seq<char>>) -> Seq<WarningView>
    decreases parts.len(),
{
    if parts.len() == 0 {
        Seq::empty()
    } else {
        let before = warnings_of(parts.drop_last());
        match binding_of(parts.last()) {
            None => before.push(WarningView::Invalid(parts.last())),
            Some(b) => if is_bound(bindings_of(parts.drop_last()), b.target) {
                before.push(WarningView::Duplicate(b.target))
            } else {
                before
            },
        }
    }
}

/// The parts of a namespace. An empty one has none.
pub open spec fn namespace_parts(namespace: Seq<char>) -> Seq<Seq<char>> {
    if namespace.len() == 0 {
        Seq::empty()
    } else {
        text::split_on(namespace, ':')
    }
}

/// The table line that binds a directory of the client, which is mounted below `tmp_mnt`.
pub open spec fn binding_line(binding: Binding, tmp_mnt: Seq<char>) -> cmd::FsTabView {
    cmd::FsTabView {
        spec: tmp_mnt + "/"@ + NINEP_MOUNT@ + binding.source,
        file: binding.target,
        vfstype: "none"@,
        mntops: "defaults,bind"@,
        freq: 0,
        passno: 0,
    }
}

/// The table lines of a list of bindings.
pub open spec fn binding_lines(bindings: Seq<Binding>, tmp_mnt: Seq<char>) -> Seq<cmd::FsTabView> {
    bindings.map_values(|b: Binding| binding_line(b, tmp_mnt))
}

/// The table lines that a namespace stands for.
pub open spec fn namespace_lines(namespace: Seq<char>, tmp_mnt: Seq<char>) -> Seq<cmd::FsTabView> {
    binding_lines(bindings_of(namespace_parts(namespace)), tmp_mnt)
}

fn has_target(tabs: &Vec<FsTab>, target: &str) -> (r: bool)
    ensures
        r == exists|i: int| 0 <= i < tabs@.len() && (#[trigger] tabs@[i]).file@ == target@,
{
    let mut i: usize = 0;
    while i < tabs.len()
        invariant
            i <= tabs.len(),
            forall|k: int| 0 <= k < i ==> (#[trigger] tabs@[k]).file@ != target@,
        decreases tabs.len() - i,
    {
        if text::same_text(tabs[i].file.as_str(), target) {
            return true;
        }
        i += 1;
    }
    false
}

fn bind_line(target: &str, source: &str, tmp_mnt: &str) -> (r: FsTab)
    ensures
        r@ == binding_line(Binding { target: target@, source: source@ }, tmp_mnt@),
{
    let mut spec_text = tmp_mnt.to_owned();
    spec_text.append("/");
    spec_text.append(NINEP_MOUNT);
    spec_text.append(source);
    FsTab {
        spec: spec_text,
        file: target.to_owned(),
        vfstype: "none".to_owned(),
        mntops: "defaults,bind".to_owned(),
        freq: 0,
        passno: 0,
    }
}

/// Reads a namespace: the table lines that it stands for, and the parts that are left out.
pub fn read_namespace(namespace: &str, tmp_mnt: &str) -> (r: (Vec<FsTab>, Vec<NamespaceWarning>))
    ensures
        cmd::fstab_views(r.0@) == namespace_lines(namespace@, tmp_mnt@),
        warning_views(r.1@) == warnings_of(namespace_parts(namespace@)),
{
    let mut tabs: Vec<FsTab> = Vec::new();
    let mut warnings: Vec<NamespaceWarning> = Vec::new();
    if namespace.is_empty() {
        assert(cmd::fstab_views(tabs@) =~= namespace_lines(namespace@, tmp_mnt@));
        assert(warning_views(warnings@) =~= warnings_of(namespace_parts(namespace@)));
        return (tabs, warnings);
    }
    let parts = text::split_text(namespace, ':');
    let ghost all = text::split_on(namespace@, ':');
    assert(parts@.len() == all.len());
    assert(forall|i: int| 0 <= i < parts@.len() ==> (#[trigger] parts@[i])@ == all[i]);
    assert(all.take(0) =~= Seq::<Seq<char>>::empty());
    assert(cmd::fstab_views(tabs@) =~= binding_lines(bindings_of(all.take(0)), tmp_mnt@));
    assert(warning_views(warnings@) =~= warnings_of(all.take(0)));
    let mut n: usize = 0;
    while n < parts.len()
        invariant
            n <= parts.len(),
            parts@.len() == all.len(),
            forall|i: int| 0 <= i < parts@.len() ==> (#[trigger] parts@[i])@ == all[i],
            cmd::fstab_views(tabs@) == binding_lines(bindings_of(all.take(n as int)), tmp_mnt@),
            warning_views(warnings@) == warnings_of(all.take(n as int)),
        decreases parts.len() - n,
    {
        let part = parts[n];
        let ghost before = bindings_of(all.take(n as int));
        let ghost old_tabs = tabs@;
        let ghost old_warnings = warnings@;
        proof {
            assert(all.take(n + 1).drop_last() =~= all.take(n as int));
            assert(all.take(n + 1).last() == part@);
        }
        let names = text::split_text(part, '=');
        proof {
            let spec_names = text::split_on(part@, '=');
            assert(names@.len() == spec_names.len());
            assert(forall|i: int|
                0 <= i < names@.len() ==> (#[trigger] names@[i])@ == spec_names[i]);
            text::lemma_split_on_not_empty(part@, '=');
        }
        if names.len() > 2 {
            warnings.push(NamespaceWarning::Invalid(part.to_owned()));
            assert(warning_views(warnings@) =~= warning_views(old_warnings).push(
                WarningView::Invalid(part@),
            ));
        } else {
            let target = names[0];
            let source = if names.len() == 2 {
                names[1]
            } else {
                target
            };
            let bound = has_target(&tabs, target);
            proof {
                assert(cmd::fstab_views(tabs@).len() == binding_lines(before, tmp_mnt@).len());
                assert forall|i: int| 0 <= i < tabs@.len() implies (#[trigger] tabs@[i]).file@
                    == before[i].target by {
                    assert(cmd::fstab_views(tabs@)[i] == tabs@[i]@);
                    assert(binding_lines(before, tmp_mnt@)[i] == binding_line(before[i], tmp_mnt@));
                }
                if bound {
                    let i = choose|i: int|
                        0 <= i < tabs@.len() && (#[trigger] tabs@[i]).file@ == target@;
                    assert(before[i].target == target@);
                }
                if is_bound(before, target@) {
                    let i = choose|i: int|
                        0 <= i < before.len() && (#[trigger] before[i]).target == target@;
                    assert(tabs@[i].file@ == target@);
                }
                assert(bound == is_bound(before, target@));
            }
            if bound {
                warnings.push(NamespaceWarning::Duplicate(target.to_owned()));
                assert(warning_views(warnings@) =~= warning_views(old_warnings).push(
                    WarningView::Duplicate(target@),
                ));
            } else {
                let line = bind_line(target, source, tmp_mnt);
                tabs.push(line);
                proof {
                    let b = Binding { target: target@, source: source@ };
                    assert(binding_of(part@) == Some(b));
                    assert(cmd::fstab_views(tabs@) =~= cmd::fstab_views(old_tabs).push(line@));
                    assert(binding_lines(before.push(b), tmp_mnt@) =~= binding_lines(
                        before,
                        tmp_mnt@,
                    ).push(binding_line(b, tmp_mnt@)));
                }
            }
        }
        n += 1;
    }
    assert(all.take(n as int) =~= all);
    (tabs, warnings)
}

/// The table lines that a namespace stands for.
pub fn parse_namespace(namespace: &str, tmp_mnt: &str) -> (r: Vec<FsTab>)
    ensures
        cmd::fstab_views(r@) == namespace_lines(namespace@, tmp_mnt@),
{
    read_namespace(namespace, tmp_mnt).0
}

impl WarningView {
    /// What was left out, in words.
    pub open spec fn text(self) -> Seq<char> {
        match self {
            WarningView::Invalid(part) => "invalid namespace: "@ + part,
            WarningView::Duplicate(target) => "duplicate target: "@ + target,
        }
    }
}

impl NamespaceWarning {
    /// Says what was left out.
    pub fn message(&self) -> (r: String)
        ensures
            r@ == self@.text(),
    {
        match self {
            NamespaceWarning::Invalid(part) => {
                let mut out = "invalid namespace: ".to_owned();
                out.append(part.as_str());
                out
            },
            NamespaceWarning::Duplicate(target) => {
                let mut out = "duplicate target: ".to_owned();
                out.append(target.as_str());
                out
            },
        }
    }
}

/// No two bindings share a target.
pub proof fn targets_are_distinct(parts: Seq<Seq<char>>)
    ensures
        forall|i: int, j: int|
            0 <= i < j < bindings_of(parts).len() ==> (#[trigger] bindings_of(parts)[i]).target != (
            #[trigger] bindings_of(parts)[j]).target,
    decreases parts.len(),
{
    if parts.len() > 0 {
        let before = bindings_of(parts.drop_last());
        let after = bindings_of(parts);
        targets_are_distinct(parts.drop_last());
        assert forall|i: int, j: int| 0 <= i < j < after.len() implies (#[trigger] after[i]).target
            != (#[trigger] after[j]).target by {
            assert(after[i] == before[i]);
            if j < before.len() {
                assert(after[j] == before[j]);
            }
        }
    }
}

/// Parts that are added at the end change nothing about those before: the first
/// part with a target counts.
pub proof fn earlier_parts_stay(parts: Seq<Seq<char>>, more: Seq<Seq<char>>)
    ensures
        bindings_of(parts).is_prefix_of(bindings_of(parts + more)),
    decreases more.len(),
{
    if more.len() == 0 {
        assert(parts + more =~= parts);
    } else {
        let all = parts + more;
        assert(all.drop_last() =~= parts + more.drop_last());
        earlier_parts_stay(parts, more.drop_last());
    }
}

/// A target is bound exactly if some part that can be read asks for it.
pub proof fn every_target_is_bound(parts: Seq<Seq<char>>, target: Seq<char>)
    ensures
        is_bound(bindings_of(parts), target) <==> exists|i: int|
            0 <= i < parts.len() && (#[trigger] binding_of(parts[i]) matches Some(b) && b.target
                == target),
    decreases parts.len(),
{
    if parts.len() > 0 {
        let front = parts.drop_last();
        let before = bindings_of(front);
        let after = bindings_of(parts);
        every_target_is_bound(front, target);
        if is_bound(after, target) {
            let i = choose|i: int| 0 <= i < after.len() && (#[trigger] after[i]).target == target;
            if i < before.len() {
                assert(before[i] == after[i]);
                let k = choose|k: int|
                    0 <= k < front.len() && (#[trigger] binding_of(front[k]) matches Some(b)
                        && b.target == target);
                assert(parts[k] == front[k]);
            } else {
                assert(binding_of(parts[parts.len() - 1]) matches Some(b) && b.target == target);
            }
        }
        if exists|i: int|
            0 <= i < parts.len() && (#[trigger] binding_of(parts[i]) matches Some(b) && b.target
                == target) {
            let k = choose|k: int|
                0 <= k < parts.len() && (#[trigger] binding_of(parts[k]) matches Some(b) && b.target
                    == target);
            if k < front.len() {
                assert(binding_of(front[k]) matches Some(b) && b.target == target);
                let i = choose|i: int|
                    0 <= i < before.len() && (#[trigger] before[i]).target == target;
                assert(after[i] == before[i]);
            } else if is_bound(before, target) {
                let i = choose|i: int|
                    0 <= i < before.len() && (#[trigger] before[i]).target == target;
                assert(after[i] == before[i]);
            } else {
                assert(after[after.len() - 1].target == target);
            }
        }
    }
}

/// Each part is either bound or left out with a warning.
pub proof fn every_part_is_accounted_for(parts: Seq<Seq<char>>)
    ensures
        bindings_of(parts).len() + warnings_of(parts).len() == parts.len(),
    decreases parts.len(),
{
    if parts.len() > 0 {
        every_part_is_accounted_for(parts.drop_last());
    }
}

/// A part without an equals sign is a name for both sides. With one sign what stands before
/// it is where the command sees what stands after it. With more it is left out.
pub proof fn part_is_read(a: Seq<char>, b: Seq<char>, c: Seq<char>)
    ensures
        !a.contains('=') ==> binding_of(a) == Some(Binding { target: a, source: a }),
        !a.contains('=') && !b.contains('=') ==> binding_of(a + seq!['='] + b) == Some(
            Binding { target: a, source: b },
        ),
        binding_of(a + seq!['='] + b + seq!['='] + c) is None,
{
    text::splitting_cuts_at_each_separator(a, b, '=');
    text::splitting_cuts_at_each_separator(b, c, '=');
    text::splitting_cuts_at_each_separator(a + seq!['='] + b, c, '=');
    text::lemma_split_on_not_empty(a, '=');
    text::lemma_split_on_not_empty(b, '=');
    text::lemma_split_on_not_empty(c, '=');
}

/// Whether one of the parts asks for the target.
pub open spec fn asks_for(parts: Seq<Seq<char>>, target: Seq<char>) -> bool {
    exists|i: int|
        0 <= i < parts.len() && (#[trigger] binding_of(parts[i]) matches Some(b) && b.target
            == target)
}

/// One more part is bound as it says, after those before it, unless it cannot be read or
/// a part before it asks for its target. Exactly then there is one more warning, which
/// holds the part or the target.
pub proof fn one_more_part(parts: Seq<Seq<char>>, part: Seq<char>)
    ensures
        bindings_of(Seq::empty()).len() == 0,
        warnings_of(Seq::empty()).len() == 0,
        match binding_of(part) {
            None => {
                &&& bindings_of(parts.push(part)) == bindings_of(parts)
                &&& warnings_of(parts.push(part)) == warnings_of(parts).push(
                    WarningView::Invalid(part),
                )
            },
            Some(b) => if asks_for(parts, b.target) {
                &&& bindings_of(parts.push(part)) == bindings_of(parts)
                &&& warnings_of(parts.push(part)) == warnings_of(parts).push(
                    WarningView::Duplicate(b.target),
                )
            } else {
                &&& bindings_of(parts.push(part)) == bindings_of(parts).push(b)
                &&& warnings_of(parts.push(part)) == warnings_of(parts)
            },
        },
{
    assert(parts.push(part).drop_last() =~= parts);
    if let Some(b) = binding_of(part) {
        every_target_is_bound(parts, b.target);
    }
}

/// The parts of a namespace are what stands between its colons. An empty namespace has no
/// part.
pub proof fn parts_stand_between_colons(parts: Seq<Seq<char>>)
    requires
        forall|i: int| 0 <= i < parts.len() ==> !(#[trigger] parts[i]).contains(':'),
        parts.len() == 1 ==> parts[0].len() > 0,
    ensures
        namespace_parts(text::join_with(parts, seq![':'])) == parts,
{
    let all = text::join_with(parts, seq![':']);
    if parts.len() == 0 {
        assert(namespace_parts(all) =~= parts);
    } else {
        text::join_then_split(parts, ':');
        if parts.len() > 1 {
            assert(all.len() > 0);
        }
    }
}

/// A namespace stands for one line for each binding, in their order. It binds, without a
/// type, what the source names below the file system of the client, on the target.
pub proof fn line_shows_its_binding(namespace: Seq<char>, tmp_mnt: Seq<char>)
    ensures
        ({
            let bindings = bindings_of(namespace_parts(namespace));
            let lines = namespace_lines(namespace, tmp_mnt);
            &&& lines.len() == bindings.len()
            &&& forall|i: int|
                0 <= i < lines.len() ==> {
                    let line = #[trigger] lines[i];
                    &&& line.spec == tmp_mnt + seq!['/', 'm', 'n', 't', '9', 'p']
                        + bindings[i].source
                    &&& line.file == bindings[i].target
                    &&& line.vfstype == seq!['n', 'o', 'n', 'e']
                    &&& line.mntops == "defaults,bind"@
                    &&& line.freq == 0 && line.passno == 0
                }
        }),
{
    reveal_strlit("/");
    reveal_strlit("mnt9p");
    reveal_strlit("none");
    assert("none"@ =~= seq!['n', 'o', 'n', 'e']);
    let bindings = bindings_of(namespace_parts(namespace));
    let lines = namespace_lines(namespace, tmp_mnt);
    assert forall|i: int| 0 <= i < lines.len() implies (#[trigger] lines[i]).spec == tmp_mnt + seq![
        '/',
        'm',
        'n',
        't',
        '9',
        'p',
    ] + bindings[i].source by {
        assert(lines[i] == binding_line(bindings[i], tmp_mnt));
        assert(lines[i].spec =~= tmp_mnt + seq!['/', 'm', 'n', 't', '9', 'p'] + bindings[i].source);
    }
}

/// A warning names what was left out, and why.
pub proof fn warnings_name_what_was_left_out(s: Seq<char>)
    ensures
        WarningView::Invalid(s).text() == "invalid namespace: "@ + s,
        WarningView::Duplicate(s).text() == "duplicate target: "@ + s,
{
}

/// The names of the directories below the temporary mount point, which are told apart.
pub proof fn names_below_the_mount_point()
    ensures
        NINEP_MOUNT@ == seq!['m', 'n', 't', '9', 'p'],
        LOCAL_ROOT_MOUNT@ == seq!['l', 'o', 'c', 'a', 'l'],
{
    reveal_strlit("mnt9p");
    reveal_strlit("local");
    assert(NINEP_MOUNT@ =~= seq!['m', 'n', 't', '9', 'p']);
    assert(LOCAL_ROOT_MOUNT@ =~= seq!['l', 'o', 'c', 'a', 'l']);
}

} // verus!
