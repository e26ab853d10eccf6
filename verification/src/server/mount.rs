//! Mounts that a command needs before it starts.

use vstd::prelude::*;
use vstd::string::*;

use crate::cmd;
use crate::cmd::FsTab;
use crate::ctext;
use crate::ctext::CText;
use crate::server::error;
use crate::server::error::P9cpuServerError;
use crate::text;

verus! {

/// The flag of `mount(2)` for a bind mount.
pub open spec fn bind_flag() -> u64 {
    0x1000
}

/// The bits of `nix::mount::MsFlags::MS_BIND`: those that Linux gives the flag.
#[verifier::external_body]
pub(crate) fn ms_bind() -> (r: u64)
    ensures
        r == bind_flag(),
{
    nix::mount::MsFlags::MS_BIND.bits() as u64
}

/// The bits of `nix::mount::MsFlags::empty`: none is set.
#[verifier::external_body]
pub(crate) fn ms_empty() -> (r: u64)
    ensures
        r == 0,
{
    nix::mount::MsFlags::empty().bits() as u64
}

/// The options that are handed to the file system: all but those that are no
/// option or that stand for a flag.
pub open spec fn kept_options(options: Seq<Seq<char>>) -> Seq<Seq<char>>
    decreases options.len(),
{
    if options.len() == 0 {
        Seq::empty()
    } else {
        let before = kept_options(options.drop_last());
        if options.last() == "defaults"@ || options.last() == "bind"@ {
            before
        } else {
            before.push(options.last())
        }
    }
}

/// The flags that mount options stand for.
pub open spec fn option_flags(options: Seq<Seq<char>>) -> u64 {
    if options.contains("bind"@) {
        bind_flag()
    } else {
        0
    }
}

/// The flags and the data of a mount with the options `opt`.
pub open spec fn mount_options(opt: Seq<char>) -> (u64, Seq<char>) {
    let options = text::split_on(opt, ',');
    (option_flags(options), text::join_with(kept_options(options), ","@))
}

/// Takes mount options apart into flags and data for the file system.
pub fn parse_fstab_opt(opt: &str) -> (r: (u64, String))
    ensures
        (r.0, r.1@) == mount_options(opt@),
{
    let options = text::split_text(opt, ',');
    let ghost all = text::texts(options@);
    let mut kept: Vec<&str> = Vec::new();
    let mut flags: u64 = ms_empty();
    let mut i: usize = 0;
    proof {
        reveal_strlit("bind");
        reveal_strlit("defaults");
        assert("bind"@ != "defaults"@) by {
            assert("bind"@.len() != "defaults"@.len());
        }
        assert(all.take(0) =~= Seq::<Seq<char>>::empty());
        assert(text::texts(kept@) =~= kept_options(all.take(0)));
    }
    while i < options.len()
        invariant
            i <= options.len(),
            all == text::texts(options@),
            "bind"@ != "defaults"@,
            text::texts(kept@) == kept_options(all.take(i as int)),
            flags == option_flags(all.take(i as int)),
        decreases options.len() - i,
    {
        let f = options[i];
        let ghost old_kept = text::texts(kept@);
        proof {
            let more = all.take(i + 1);
            assert(more.drop_last() =~= all.take(i as int));
            assert(more.last() == f@);
            assert(more =~= all.take(i as int).push(f@));
            if all.take(i as int).contains("bind"@) {
                let k = choose|k: int| 0 <= k < i && all.take(i as int)[k] == "bind"@;
                assert(more[k] == "bind"@);
            }
            if more.contains("bind"@) && f@ != "bind"@ {
                let k = choose|k: int| 0 <= k < more.len() && more[k] == "bind"@;
                assert(all.take(i as int)[k] == "bind"@);
            }
            if f@ == "bind"@ {
                assert(more[i as int] == "bind"@);
            }
        }
        if text::same_text(f, "defaults") {
        } else if text::same_text(f, "bind") {
            assert(0u64 | 0x1000u64 == 0x1000u64) by (bit_vector);
            assert(0x1000u64 | 0x1000u64 == 0x1000u64) by (bit_vector);
            flags = flags | ms_bind();
        } else {
            kept.push(f);
            assert(text::texts(kept@) =~= old_kept.push(f@));
        }
        i += 1;
    }
    assert(all.take(i as int) =~= all);
    (flags, text::join_text(kept.as_slice(), ","))
}

/// The arguments of one call of `mount(2)`.
#[derive(Debug, PartialEq, Eq)]
pub struct MountParams {
    pub source: Option<CText>,
    pub target: CText,
    pub fstype: Option<CText>,
    pub flags: u64,
    pub data: Option<CText>,
}

/// The value of a [`MountParams`].
pub struct MountView {
    pub source: Option<Seq<u8>>,
    pub target: Seq<u8>,
    pub fstype: Option<Seq<u8>>,
    pub flags: u64,
    pub data: Option<Seq<u8>>,
}

/// The bytes of a text that may be absent.
pub open spec fn optional_bytes(c: Option<CText>) -> Option<Seq<u8>> {
    match c {
        Some(c) => Some(c@),
        None => None,
    }
}

impl View for MountParams {
    type V = MountView;

    open spec fn view(&self) -> MountView {
        MountView {
            source: optional_bytes(self.source),
            target: self.target@,
            fstype: optional_bytes(self.fstype),
            flags: self.flags,
            data: optional_bytes(self.data),
        }
    }
}

/// The values of a list of mounts.
pub open spec fn mount_views(mounts: Seq<MountParams>) -> Seq<MountView> {
    mounts.map_values(|m: MountParams| m@)
}

/// The bytes that the kernel gets for a text.
pub open spec fn kernel_text(s: Seq<char>) -> Result<Seq<u8>, error::ServerFault> {
    match ctext::c_bytes(vstd::utf8::encode_utf8(s)) {
        Ok(bytes) => Ok(bytes),
        Err(e) => Err(error::ServerFault::StringContainsNull(e)),
    }
}

/// The mount that a table line asks for. Its fields are looked at in the order
/// source, target, type, options: the first with a NUL in it is the error.
pub open spec fn mount_of_line(tab: cmd::FsTabView) -> Result<MountView, error::ServerFault> {
    let (flags, options) = mount_options(tab.mntops);
    match kernel_text(tab.spec) {
        Err(e) => Err(e),
        Ok(source) => match kernel_text(tab.file) {
            Err(e) => Err(e),
            Ok(target) => match kernel_text(tab.vfstype) {
                Err(e) => Err(e),
                Ok(fstype) => match kernel_text(options) {
                    Err(e) => Err(e),
                    Ok(data) => Ok(
                        MountView {
                            source: Some(source),
                            target,
                            fstype: Some(fstype),
                            flags,
                            data: Some(data),
                        },
                    ),
                },
            },
        },
    }
}

/// Makes a text ready for the kernel.
pub fn to_kernel(s: &str) -> (r: Result<CText, P9cpuServerError>)
    ensures
        match r {
            Ok(c) => kernel_text(s@) == Ok::<Seq<u8>, error::ServerFault>(c@),
            Err(e) => kernel_text(s@) == Err::<Seq<u8>, error::ServerFault>(e@),
        },
        r matches Ok(c) ==> c@ == vstd::utf8::encode_utf8(s@),
{
    match CText::from_text(s) {
        Ok(c) => Ok(c),
        Err(e) => Err(P9cpuServerError::from(e)),
    }
}

// A `CText` has no spec constructor: what `try_from` gives is stated, over the
// views, in its own `ensures`.
impl vstd::std_specs::convert::TryFromSpecImpl<FsTab> for MountParams {
    open spec fn obeys_try_from_spec() -> bool {
        false
    }

    open spec fn try_from_spec(tab: FsTab) -> Result<MountParams, P9cpuServerError> {
        arbitrary()
    }
}

impl TryFrom<FsTab> for MountParams {
    type Error = P9cpuServerError;

    /// The mount that a table line asks for.
    fn try_from(tab: FsTab) -> (r: Result<MountParams, P9cpuServerError>)
        ensures
            match r {
                Ok(m) => mount_of_line(tab@) == Ok::<MountView, error::ServerFault>(m@),
                Err(e) => mount_of_line(tab@) == Err::<MountView, error::ServerFault>(e@),
            },
            r matches Ok(m) ==> {
                &&& m.source matches Some(source) && source@ == vstd::utf8::encode_utf8(tab.spec@)
                &&& m.target@ == vstd::utf8::encode_utf8(tab.file@)
                &&& m.fstype matches Some(fstype) && fstype@ == vstd::utf8::encode_utf8(
                    tab.vfstype@,
                )
                &&& m.flags == mount_options(tab.mntops@).0
                &&& m.data matches Some(data) && data@ == vstd::utf8::encode_utf8(
                    mount_options(tab.mntops@).1,
                )
            },
    {
        let (flags, options) = parse_fstab_opt(tab.mntops.as_str());
        let source = match to_kernel(tab.spec.as_str()) {
            Ok(c) => c,
            Err(e) => return Err(e),
        };
        let target = match to_kernel(tab.file.as_str()) {
            Ok(c) => c,
            Err(e) => return Err(e),
        };
        let fstype = match to_kernel(tab.vfstype.as_str()) {
            Ok(c) => c,
            Err(e) => return Err(e),
        };
        let data = match to_kernel(options.as_str()) {
            Ok(c) => c,
            Err(e) => return Err(e),
        };
        Ok(
            MountParams {
                source: Some(source),
                target,
                fstype: Some(fstype),
                flags,
                data: Some(data),
            },
        )
    }
}

/// The mounts that table lines ask for: the first line with an error decides it.
pub open spec fn mounts_of_lines(tabs: Seq<cmd::FsTabView>) -> Result<
    Seq<MountView>,
    error::ServerFault,
>
    decreases tabs.len(),
{
    if tabs.len() == 0 {
        Ok(Seq::empty())
    } else {
        match mounts_of_lines(tabs.drop_last()) {
            Err(e) => Err(e),
            Ok(before) => match mount_of_line(tabs.last()) {
                Err(e) => Err(e),
                Ok(m) => Ok(before.push(m)),
            },
        }
    }
}

proof fn lemma_mount_error_stays(tabs: Seq<cmd::FsTabView>, k: int)
    requires
        0 <= k <= tabs.len(),
        mounts_of_lines(tabs.take(k)) is Err,
    ensures
        mounts_of_lines(tabs) == mounts_of_lines(tabs.take(k)),
    decreases tabs.len() - k,
{
    if k < tabs.len() {
        assert(tabs.take(k + 1).drop_last() =~= tabs.take(k));
        lemma_mount_error_stays(tabs, k + 1);
    } else {
        assert(tabs.take(k) =~= tabs);
    }
}

/// The mounts that the lines of a table ask for.
pub fn mount_table(tabs: Vec<FsTab>) -> (r: Result<Vec<MountParams>, P9cpuServerError>)
    ensures
        match r {
            Ok(ms) => mounts_of_lines(cmd::fstab_views(tabs@)) == Ok::<
                Seq<MountView>,
                error::ServerFault,
            >(mount_views(ms@)),
            Err(e) => mounts_of_lines(cmd::fstab_views(tabs@)) == Err::<
                Seq<MountView>,
                error::ServerFault,
            >(e@),
        },
{
    let ghost all = cmd::fstab_views(tabs@);
    let mut out: Vec<MountParams> = Vec::new();
    assert(all.take(0) =~= Seq::<cmd::FsTabView>::empty());
    assert(mount_views(out@) =~= Seq::<MountView>::empty());
    for tab in it: tabs
        invariant
            it.seq() == tabs@,
            all == cmd::fstab_views(tabs@),
            mounts_of_lines(all.take(it.index() as int)) == Ok::<
                Seq<MountView>,
                error::ServerFault,
            >(mount_views(out@)),
    {
        let ghost i = it.index() as int;
        let ghost before = mount_views(out@);
        proof {
            assert(all.take(i + 1).drop_last() =~= all.take(i));
            assert(all.take(i + 1).last() == tab@);
        }
        match MountParams::try_from(tab) {
            Ok(m) => {
                out.push(m);
                assert(mount_views(out@) =~= before.push(m@));
            },
            Err(e) => {
                proof {
                    lemma_mount_error_stays(all, i + 1);
                }
                return Err(e);
            },
        }
    }
    assert(all.take(all.len() as int) =~= all);
    Ok(out)
}

/// The mounts that two tables in a row ask for are those of the first, then those of
/// the second.
pub proof fn mounts_of_tables_in_a_row(a: Seq<cmd::FsTabView>, b: Seq<cmd::FsTabView>)
    ensures
        mounts_of_lines(a + b) == (match mounts_of_lines(a) {
            Err(e) => Err(e),
            Ok(first) => match mounts_of_lines(b) {
                Err(e) => Err(e),
                Ok(second) => Ok::<Seq<MountView>, error::ServerFault>(first + second),
            },
        }),
    decreases b.len(),
{
    if b.len() == 0 {
        assert(a + b =~= a);
        if let Ok(first) = mounts_of_lines(a) {
            assert(first + Seq::<MountView>::empty() =~= first);
        }
    } else {
        assert((a + b).drop_last() =~= a + b.drop_last());
        mounts_of_tables_in_a_row(a, b.drop_last());
        if let Ok(first) = mounts_of_lines(a) {
            if let Ok(second) = mounts_of_lines(b.drop_last()) {
                if let Ok(m) = mount_of_line(b.last()) {
                    assert((first + second).push(m) =~= first + second.push(m));
                }
            }
        }
    }
}

/// Lines that can all be mounted ask for their mounts, in their order.
pub(crate) proof fn lemma_mounts_of_good_lines(
    tabs: Seq<cmd::FsTabView>,
    mounts: Seq<MountView>,
)
    requires
        tabs.len() == mounts.len(),
        forall|i: int|
            0 <= i < tabs.len() ==> mount_of_line(#[trigger] tabs[i]) == Ok::<
                MountView,
                error::ServerFault,
            >(mounts[i]),
    ensures
        mounts_of_lines(tabs) == Ok::<Seq<MountView>, error::ServerFault>(mounts),
    decreases tabs.len(),
{
    if tabs.len() == 0 {
        assert(mounts =~= Seq::<MountView>::empty());
    } else {
        let front = tabs.drop_last();
        assert forall|i: int| 0 <= i < front.len() implies mount_of_line(#[trigger] front[i])
            == Ok::<MountView, error::ServerFault>(mounts.drop_last()[i]) by {
            assert(front[i] == tabs[i]);
        }
        lemma_mounts_of_good_lines(front, mounts.drop_last());
        assert(tabs.last() == tabs[tabs.len() - 1]);
        assert(mounts.drop_last().push(mounts.last()) =~= mounts);
    }
}

proof fn lemma_kept_options_of_joined(parts: Seq<Seq<char>>)
    requires
        forall|i: int|
            0 <= i < parts.len() ==> #[trigger] parts[i] != "defaults"@ && parts[i] != "bind"@,
    ensures
        kept_options(parts) == parts,
    decreases parts.len(),
{
    if parts.len() > 0 {
        let front = parts.drop_last();
        assert forall|i: int| 0 <= i < front.len() implies #[trigger] front[i] != "defaults"@
            && front[i] != "bind"@ by {
            assert(front[i] == parts[i]);
        }
        lemma_kept_options_of_joined(front);
        assert(parts.last() == parts[parts.len() - 1]);
        assert(front.push(parts.last()) =~= parts);
    } else {
        assert(parts =~= Seq::<Seq<char>>::empty());
    }
}

/// Options that are neither `defaults` nor `bind` reach the file system as they
/// are, and set no flag.
pub proof fn other_options_pass_unchanged(parts: Seq<Seq<char>>)
    requires
        parts.len() > 0,
        forall|i: int| 0 <= i < parts.len() ==> !(#[trigger] parts[i]).contains(','),
        forall|i: int|
            0 <= i < parts.len() ==> #[trigger] parts[i] != "defaults"@ && parts[i] != "bind"@,
    ensures
        mount_options(text::join_with(parts, ","@)) == (0u64, text::join_with(parts, ","@)),
{
    reveal_strlit(",");
    assert(","@ =~= seq![',']);
    text::join_then_split(parts, ',');
    lemma_kept_options_of_joined(parts);
    if parts.contains("bind"@) {
        let k = choose|k: int| 0 <= k < parts.len() && parts[k] == "bind"@;
        assert(parts[k] != "bind"@);
    }
}

/// Whether an option is handed to the file system: each is, but for the word that stands
/// for no option, and the one that stands for a flag.
pub open spec fn is_kept(option: Seq<char>) -> bool {
    option != seq!['d', 'e', 'f', 'a', 'u', 'l', 't', 's'] && option != seq!['b', 'i', 'n', 'd']
}

proof fn lemma_option_words()
    ensures
        "defaults"@ == seq!['d', 'e', 'f', 'a', 'u', 'l', 't', 's'],
        "bind"@ == seq!['b', 'i', 'n', 'd'],
{
    reveal_strlit("defaults");
    reveal_strlit("bind");
    assert("defaults"@ =~= seq!['d', 'e', 'f', 'a', 'u', 'l', 't', 's']);
    assert("bind"@ =~= seq!['b', 'i', 'n', 'd']);
}

/// The file system gets the options other than `defaults` and `bind`, in their order,
/// wherever those two stand and however often.
pub proof fn only_defaults_and_bind_are_left_out(options: Seq<Seq<char>>)
    ensures
        kept_options(options) == options.filter(|o: Seq<char>| is_kept(o)),
    decreases options.len(),
{
    reveal(Seq::filter);
    lemma_option_words();
    if options.len() > 0 {
        only_defaults_and_bind_are_left_out(options.drop_last());
    }
}

/// What an option comes to does not depend on the options beside it.
pub proof fn options_stand_for_themselves(a: Seq<Seq<char>>, b: Seq<Seq<char>>)
    ensures
        kept_options(a + b) == kept_options(a) + kept_options(b),
        a.len() == 1 ==> kept_options(a) == (if is_kept(a[0]) {
            a
        } else {
            Seq::empty()
        }),
        option_flags(a + b) == option_flags(a) | option_flags(b),
{
    only_defaults_and_bind_are_left_out(a);
    only_defaults_and_bind_are_left_out(b);
    only_defaults_and_bind_are_left_out(a + b);
    Seq::filter_distributes_over_add(a, b, |o: Seq<char>| is_kept(o));
    lemma_option_words();
    if a.len() == 1 {
        assert(a.drop_last() =~= Seq::<Seq<char>>::empty());
        assert(kept_options(a.drop_last()) =~= Seq::<Seq<char>>::empty());
        assert(a =~= Seq::<Seq<char>>::empty().push(a[0]));
    }
    bind_sets_the_flag(a);
    bind_sets_the_flag(b);
    bind_sets_the_flag(a + b);
    if exists|i: int| 0 <= i < a.len() && #[trigger] a[i] == seq!['b', 'i', 'n', 'd'] {
        let i = choose|i: int| 0 <= i < a.len() && #[trigger] a[i] == seq!['b', 'i', 'n', 'd'];
        assert((a + b)[i] == seq!['b', 'i', 'n', 'd']);
    }
    if exists|i: int| 0 <= i < b.len() && #[trigger] b[i] == seq!['b', 'i', 'n', 'd'] {
        let i = choose|i: int| 0 <= i < b.len() && #[trigger] b[i] == seq!['b', 'i', 'n', 'd'];
        assert((a + b)[a.len() + i] == seq!['b', 'i', 'n', 'd']);
    }
    if exists|i: int| 0 <= i < (a + b).len() && #[trigger] (a + b)[i] == seq!['b', 'i', 'n', 'd'] {
        let i = choose|i: int|
            0 <= i < (a + b).len() && #[trigger] (a + b)[i] == seq!['b', 'i', 'n', 'd'];
        if i < a.len() {
            assert(a[i] == seq!['b', 'i', 'n', 'd']);
        } else {
            assert(b[i - a.len()] == seq!['b', 'i', 'n', 'd']);
        }
    }
    assert(0u64 | 0u64 == 0u64) by (bit_vector);
    assert(0u64 | 0x1000u64 == 0x1000u64) by (bit_vector);
    assert(0x1000u64 | 0u64 == 0x1000u64) by (bit_vector);
    assert(0x1000u64 | 0x1000u64 == 0x1000u64) by (bit_vector);
}

/// The flag of a bind mount, and no other, is set exactly if one of the options is `bind`.
pub proof fn bind_sets_the_flag(options: Seq<Seq<char>>)
    ensures
        option_flags(options) == 0x1000 <==> exists|i: int|
            0 <= i < options.len() && #[trigger] options[i] == seq!['b', 'i', 'n', 'd'],
        option_flags(options) != 0x1000 ==> option_flags(options) == 0,
{
    lemma_option_words();
    if exists|i: int| 0 <= i < options.len() && #[trigger] options[i] == seq!['b', 'i', 'n', 'd'] {
        let i = choose|i: int|
            0 <= i < options.len() && #[trigger] options[i] == seq!['b', 'i', 'n', 'd'];
        assert(options.contains("bind"@));
    }
    if options.contains("bind"@) {
        let i = choose|i: int| 0 <= i < options.len() && options[i] == "bind"@;
        assert(options[i] == seq!['b', 'i', 'n', 'd']);
    }
}

/// Options that are written with commas between them come to the flag of a bind mount, if
/// `bind` is among them, and to all that are kept, with commas between them.
pub proof fn written_options_are_read(parts: Seq<Seq<char>>)
    requires
        parts.len() > 0,
        forall|i: int| 0 <= i < parts.len() ==> !(#[trigger] parts[i]).contains(','),
    ensures
        mount_options(text::join_with(parts, seq![','])).1 == text::join_with(
            parts.filter(|o: Seq<char>| is_kept(o)),
            seq![','],
        ),
        mount_options(text::join_with(parts, seq![','])).0 == 0x1000 <==> exists|i: int|
            0 <= i < parts.len() && #[trigger] parts[i] == seq!['b', 'i', 'n', 'd'],
        mount_options(text::join_with(parts, seq![','])).0 != 0x1000 ==> mount_options(
            text::join_with(parts, seq![',']),
        ).0 == 0,
{
    reveal_strlit(",");
    assert(","@ =~= seq![',']);
    text::join_then_split(parts, ',');
    only_defaults_and_bind_are_left_out(parts);
    bind_sets_the_flag(parts);
}

/// The kernel gets the encoding of a text exactly if it holds no NUL. Otherwise the error
/// holds that encoding and the place of its first NUL.
pub proof fn kernel_gets_the_text(s: Seq<char>)
    ensures
        kernel_text(s) is Ok <==> ctext::nul_free(vstd::utf8::encode_utf8(s)),
        kernel_text(s) matches Ok(bytes) ==> bytes == vstd::utf8::encode_utf8(s),
        kernel_text(s) matches Err(e) ==> (e matches error::ServerFault::StringContainsNull(nul)
            && nul.bytes == vstd::utf8::encode_utf8(s) && nul.position < nul.bytes.len()
            && nul.bytes[nul.position as int] == 0 && ctext::nul_free(
            nul.bytes.take(nul.position as int),
        )),
{
    ctext::bytes_without_nul_are_kept(vstd::utf8::encode_utf8(s));
}

/// A line whose texts hold no NUL is mounted: what its first field names, on what its
/// second names, with the type that its third names, and with what its options come to.
/// A line with a NUL is not, and the error is that of the first text that holds one.
pub proof fn line_is_mounted_as_it_says(tab: cmd::FsTabView)
    ensures
        ({
            let data = mount_options(tab.mntops).1;
            let good = |s: Seq<char>| ctext::nul_free(vstd::utf8::encode_utf8(s));
            &&& mount_of_line(tab) is Ok <==> good(tab.spec) && good(tab.file) && good(tab.vfstype)
                && good(data)
            &&& mount_of_line(tab) matches Ok(m) ==> {
                &&& m.source == Some(vstd::utf8::encode_utf8(tab.spec))
                &&& m.target == vstd::utf8::encode_utf8(tab.file)
                &&& m.fstype == Some(vstd::utf8::encode_utf8(tab.vfstype))
                &&& m.flags == mount_options(tab.mntops).0
                &&& m.data == Some(vstd::utf8::encode_utf8(data))
            }
            &&& mount_of_line(tab) matches Err(e) ==> {
                let first = if !good(tab.spec) {
                    tab.spec
                } else if !good(tab.file) {
                    tab.file
                } else if !good(tab.vfstype) {
                    tab.vfstype
                } else {
                    data
                };
                e matches error::ServerFault::StringContainsNull(nul) && nul.bytes
                    == vstd::utf8::encode_utf8(first)
            }
        }),
{
    kernel_gets_the_text(tab.spec);
    kernel_gets_the_text(tab.file);
    kernel_gets_the_text(tab.vfstype);
    kernel_gets_the_text(mount_options(tab.mntops).1);
}

/// A table is mounted line by line: one mount for each line, in their order, where each
/// line can be mounted, and else the error of the first that cannot.
pub proof fn table_is_mounted_line_by_line(tabs: Seq<cmd::FsTabView>)
    ensures
        mounts_of_lines(tabs) is Ok <==> forall|i: int|
            0 <= i < tabs.len() ==> mount_of_line(#[trigger] tabs[i]) is Ok,
        mounts_of_lines(tabs) matches Ok(mounts) ==> mounts.len() == tabs.len() && forall|i: int|
            0 <= i < tabs.len() ==> mount_of_line(#[trigger] tabs[i]) == Ok::<
                MountView,
                error::ServerFault,
            >(mounts[i]),
        mounts_of_lines(tabs) matches Err(e) ==> exists|k: int|
            0 <= k < tabs.len() && mount_of_line(#[trigger] tabs[k]) == Err::<
                MountView,
                error::ServerFault,
            >(e) && forall|i: int| 0 <= i < k ==> mount_of_line(#[trigger] tabs[i]) is Ok,
    decreases tabs.len(),
{
    if tabs.len() > 0 {
        let front = tabs.drop_last();
        let n = tabs.len() - 1;
        table_is_mounted_line_by_line(front);
        assert(tabs[n] == tabs.last());
        assert forall|i: int| 0 <= i < n implies #[trigger] tabs[i] == front[i] by {}
        match mounts_of_lines(front) {
            Ok(mounts) => {
                assert forall|i: int| 0 <= i < n implies mount_of_line(#[trigger] tabs[i]) == Ok::<
                    MountView,
                    error::ServerFault,
                >(mounts[i]) by {
                    assert(tabs[i] == front[i]);
                }
                if mount_of_line(tabs[n]) is Ok {
                    assert forall|i: int| 0 <= i < tabs.len() implies mount_of_line(
                        #[trigger] tabs[i],
                    ) is Ok by {
                        if i < n {
                            assert(tabs[i] == front[i]);
                        }
                    }
                }
            },
            Err(e) => {
                let k = choose|k: int|
                    0 <= k < front.len() && mount_of_line(#[trigger] front[k]) == Err::<
                        MountView,
                        error::ServerFault,
                    >(e) && forall|i: int| 0 <= i < k ==> mount_of_line(#[trigger] front[i]) is Ok;
                assert(tabs[k] == front[k]);
                assert forall|i: int| 0 <= i < k implies mount_of_line(#[trigger] tabs[i]) is Ok by {
                    assert(tabs[i] == front[i]);
                }
            },
        }
    }
}

} // verus!
