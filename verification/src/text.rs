//! Splitting, joining and printing of text.

use vstd::prelude::*;
use vstd::string::*;

verus! {

/// The pieces of `s` between the occurrences of `sep`: one more than `sep` occurs.
pub open spec fn split_on(s: Seq<char>, sep: char) -> Seq<Seq<char>>
    decreases s.len(),
{
    if s.len() == 0 {
        seq![Seq::empty()]
    } else {
        let before = split_on(s.drop_last(), sep);
        if s.last() == sep {
            before.push(Seq::empty())
        } else {
            before.drop_last().push(before.last().push(s.last()))
        }
    }
}

/// The parts, one after the other, with `sep` between each two neighbours.
pub open spec fn join_with(parts: Seq<Seq<char>>, sep: Seq<char>) -> Seq<char>
    decreases parts.len(),
{
    if parts.len() == 0 {
        Seq::empty()
    } else if parts.len() == 1 {
        parts[0]
    } else {
        join_with(parts.drop_last(), sep) + sep + parts.last()
    }
}

/// The text of each string slice.
pub open spec fn texts(v: Seq<&str>) -> Seq<Seq<char>> {
    v.map_values(|s: &str| s@)
}

/// The text of each string.
pub open spec fn string_texts(v: Seq<String>) -> Seq<Seq<char>> {
    v.map_values(|s: String| s@)
}

/// The characters of `s`, in order.
pub fn chars_of(s: &str) -> (r: Vec<char>)
    ensures
        r@ == s@,
{
    let mut out: Vec<char> = Vec::new();
    for c in it: s.chars()
        invariant
            it.seq() == s@,
            out@ == s@.take(it.index() as int),
    {
        assert(s@.take(it.index() + 1) =~= s@.take(it.index() as int).push(s@[it.index() as int]));
        out.push(c);
    }
    assert(s@.take(s@.len() as int) =~= s@);
    out
}

/// Whether the two byte strings are the same.
pub fn same_bytes(a: &[u8], b: &[u8]) -> (r: bool)
    ensures
        r == (a@ == b@),
{
    if a.len() != b.len() {
        return false;
    }
    let mut i: usize = 0;
    while i < a.len()
        invariant
            i <= a.len(),
            a.len() == b.len(),
            forall|k: int| 0 <= k < i ==> a@[k] == b@[k],
        decreases a.len() - i,
    {
        if a[i] != b[i] {
            assert(a@[i as int] != b@[i as int]);
            return false;
        }
        i += 1;
    }
    assert(a@ =~= b@);
    true
}

/// The text that UTF-8 bytes stand for.
pub open spec fn utf8_text(bytes: Seq<u8>) -> Option<Seq<char>> {
    if vstd::utf8::valid_utf8(bytes) {
        Some(vstd::utf8::decode_utf8(bytes))
    } else {
        None
    }
}

/// Reads UTF-8 with `String::from_utf8`, which takes valid UTF-8 and nothing else,
/// and gives the text that the bytes encode.
#[verifier::external_body]
pub(crate) fn read_utf8(bytes: Vec<u8>) -> (r: Option<String>)
    ensures
        match r {
            Some(s) => utf8_text(bytes@) == Some(s@),
            None => utf8_text(bytes@) is None,
        },
{
    String::from_utf8(bytes).ok()
}

/// Whether the two texts are the same.
pub fn same_text(a: &str, b: &str) -> (r: bool)
    ensures
        r == (a@ == b@),
{
    a.to_owned() == b.to_owned()
}

/// There is at least one piece, if only an empty one.
pub proof fn lemma_split_on_not_empty(s: Seq<char>, sep: char)
    ensures
        split_on(s, sep).len() > 0,
    decreases s.len(),
{
    if s.len() > 0 {
        lemma_split_on_not_empty(s.drop_last(), sep);
    }
}

/// Cuts `s` at each `sep`, as `str::split` does with a `char`.
pub fn split_text<'a>(s: &'a str, sep: char) -> (r: Vec<&'a str>)
    ensures
        texts(r@) == split_on(s@, sep),
{
    let chars = chars_of(s);
    let mut out: Vec<&'a str> = Vec::new();
    let mut start: usize = 0;
    let mut i: usize = 0;
    proof {
        assert(s@.take(0) =~= Seq::<char>::empty());
        assert(s@.subrange(0, 0) =~= Seq::<char>::empty());
        assert(texts(out@).push(s@.subrange(0, 0)) =~= split_on(s@.take(0), sep));
    }
    while i < chars.len()
        invariant
            chars@ == s@,
            start <= i <= chars.len(),
            texts(out@).push(s@.subrange(start as int, i as int)) == split_on(s@.take(i as int), sep),
        decreases chars.len() - i,
    {
        let ghost done = texts(out@);
        let ghost piece = s@.subrange(start as int, i as int);
        proof {
            let t = s@.take(i + 1);
            assert(t.drop_last() =~= s@.take(i as int));
            assert(t.last() == s@[i as int]);
            assert(done.push(piece).drop_last() =~= done);
            assert(done.push(piece).last() == piece);
            assert(piece.push(s@[i as int]) =~= s@.subrange(start as int, i + 1));
        }
        if chars[i] == sep {
            out.push(s.substring_char(start, i));
            start = i + 1;
            proof {
                assert(texts(out@) =~= done.push(piece));
                assert(s@.subrange(start as int, i + 1) =~= Seq::<char>::empty());
            }
        }
        i += 1;
    }
    let ghost done = texts(out@);
    out.push(s.substring_char(start, i));
    proof {
        assert(s@.take(i as int) =~= s@);
        assert(texts(out@) =~= done.push(s@.subrange(start as int, i as int)));
    }
    out
}

/// The parts with `sep` between each two neighbours, as `[&str]::join` gives them.
pub fn join_text(parts: &[&str], sep: &str) -> (r: String)
    ensures
        r@ == join_with(texts(parts@), sep@),
{
    let mut out = String::new();
    let mut i: usize = 0;
    while i < parts.len()
        invariant
            i <= parts.len(),
            out@ == join_with(texts(parts@).take(i as int), sep@),
        decreases parts.len() - i,
    {
        proof {
            let t = texts(parts@).take(i + 1);
            assert(t.drop_last() =~= texts(parts@).take(i as int));
            assert(t.last() == parts@[i as int]@);
        }
        if i > 0 {
            out.append(sep);
        }
        out.append(parts[i]);
        i += 1;
    }
    assert(texts(parts@).take(i as int) =~= texts(parts@));
    out
}

/// The characters of the Unicode property `White_Space`.
pub open spec fn is_white_space(c: char) -> bool {
    ||| '\u{9}' <= c <= '\u{d}'
    ||| c == ' '
    ||| c == '\u{85}'
    ||| c == '\u{a0}'
    ||| c == '\u{1680}'
    ||| '\u{2000}' <= c <= '\u{200a}'
    ||| c == '\u{2028}'
    ||| c == '\u{2029}'
    ||| c == '\u{202f}'
    ||| c == '\u{205f}'
    ||| c == '\u{3000}'
}

/// Whether `c` has the Unicode property `White_Space`.
pub fn white_space(c: char) -> (r: bool)
    ensures
        r == is_white_space(c),
{
    ('\u{9}' <= c && c <= '\u{d}') || c == ' ' || c == '\u{85}' || c == '\u{a0}' || c == '\u{1680}'
        || ('\u{2000}' <= c && c <= '\u{200a}') || c == '\u{2028}' || c == '\u{2029}'
        || c == '\u{202f}' || c == '\u{205f}' || c == '\u{3000}'
}

/// The longest runs of characters of `s` that are not white space, in order.
pub open spec fn words(s: Seq<char>) -> Seq<Seq<char>>
    decreases s.len(),
{
    if s.len() == 0 {
        Seq::empty()
    } else {
        let before = words(s.drop_last());
        if is_white_space(s.last()) {
            before
        } else if s.len() == 1 || is_white_space(s[s.len() - 2]) {
            before.push(seq![s.last()])
        } else {
            before.drop_last().push(before.last().push(s.last()))
        }
    }
}

/// A run of characters without white space: one or more.
pub open spec fn is_word(s: Seq<char>) -> bool {
    s.len() > 0 && forall|i: int| 0 <= i < s.len() ==> !is_white_space(#[trigger] s[i])
}

/// Cuts `s` into words, as `str::split_whitespace` does.
pub fn split_words<'a>(s: &'a str) -> (r: Vec<&'a str>)
    ensures
        texts(r@) == words(s@),
{
    let chars = chars_of(s);
    let mut out: Vec<&'a str> = Vec::new();
    let mut start: usize = 0;
    let mut i: usize = 0;
    proof {
        assert(s@.take(0) =~= Seq::<char>::empty());
        assert(texts(out@) =~= words(s@.take(0)));
    }
    while i < chars.len()
        invariant
            chars@ == s@,
            start <= i <= chars.len(),
            start < i ==> !is_white_space(s@[i - 1]),
            start == i && i > 0 ==> is_white_space(s@[i - 1]),
            start == i ==> texts(out@) == words(s@.take(i as int)),
            start < i ==> texts(out@).push(s@.subrange(start as int, i as int)) == words(
                s@.take(i as int),
            ),
        decreases chars.len() - i,
    {
        let ghost done = texts(out@);
        let ghost piece = s@.subrange(start as int, i as int);
        let ghost t = s@.take(i + 1);
        proof {
            assert(t.drop_last() =~= s@.take(i as int));
            assert(t.last() == s@[i as int]);
            assert(i > 0 ==> t[t.len() - 2] == s@[i - 1]);
            assert(done.push(piece).drop_last() =~= done);
            assert(done.push(piece).last() == piece);
            assert(piece.push(s@[i as int]) =~= s@.subrange(start as int, i + 1));
            assert(start == i ==> s@.subrange(start as int, i + 1) =~= seq![s@[i as int]]);
        }
        if white_space(chars[i]) {
            if start < i {
                out.push(s.substring_char(start, i));
                assert(texts(out@) =~= done.push(piece));
            }
            start = i + 1;
        }
        i += 1;
    }
    assert(s@.take(i as int) =~= s@);
    if start < i {
        let ghost done = texts(out@);
        out.push(s.substring_char(start, i));
        assert(texts(out@) =~= done.push(s@.subrange(start as int, i as int)));
    }
    out
}

/// The decimal digit for `d`, which is below ten.
pub open spec fn digit_char(d: nat) -> char {
    (48 + d) as char
}

/// The decimal digits of `n`, without leading zeros.
pub open spec fn decimal(n: nat) -> Seq<char>
    decreases n,
{
    if n < 10 {
        seq![digit_char(n)]
    } else {
        decimal(n / 10).push(digit_char(n % 10))
    }
}

/// The decimal digits of `n`, after a minus sign where it is negative.
pub open spec fn signed_decimal(n: int) -> Seq<char> {
    if n < 0 {
        seq!['-'] + decimal((-n) as nat)
    } else {
        decimal(n as nat)
    }
}

fn digit_text(d: u64) -> (r: &'static str)
    requires
        d < 10,
    ensures
        r@ == seq![digit_char(d as nat)],
{
    proof {
        reveal_strlit("0");
        reveal_strlit("1");
        reveal_strlit("2");
        reveal_strlit("3");
        reveal_strlit("4");
        reveal_strlit("5");
        reveal_strlit("6");
        reveal_strlit("7");
        reveal_strlit("8");
        reveal_strlit("9");
    }
    if d == 0 {
        "0"
    } else if d == 1 {
        "1"
    } else if d == 2 {
        "2"
    } else if d == 3 {
        "3"
    } else if d == 4 {
        "4"
    } else if d == 5 {
        "5"
    } else if d == 6 {
        "6"
    } else if d == 7 {
        "7"
    } else if d == 8 {
        "8"
    } else {
        "9"
    }
}

/// Prints `n` in decimal.
pub fn decimal_text(n: u64) -> (r: String)
    ensures
        r@ == decimal(n as nat),
    decreases n,
{
    if n < 10 {
        digit_text(n).to_owned()
    } else {
        let mut out = decimal_text(n / 10);
        out.append(digit_text(n % 10));
        assert(decimal(n as nat) == decimal((n / 10) as nat) + seq![digit_char((n % 10) as nat)]);
        out
    }
}

/// Prints `n` in decimal, with a minus sign where it is negative.
pub fn signed_decimal_text(n: i32) -> (r: String)
    ensures
        r@ == signed_decimal(n as int),
{
    if n < 0 {
        let mut out = "-".to_owned();
        let magnitude: u64 = (-(n as i64)) as u64;
        out.append(decimal_text(magnitude).as_str());
        proof {
            reveal_strlit("-");
            assert("-"@ =~= seq!['-']);
        }
        out
    } else {
        decimal_text(n as u64)
    }
}

proof fn lemma_split_after_sep(a: Seq<char>, b: Seq<char>, sep: char)
    requires
        !b.contains(sep),
    ensures
        split_on(a + seq![sep] + b, sep) == split_on(a, sep).push(b),
    decreases b.len(),
{
    let s = a + seq![sep] + b;
    if b.len() == 0 {
        assert(s.drop_last() =~= a);
        assert(s.last() == sep);
        assert(b =~= Seq::<char>::empty());
    } else {
        let rest = b.drop_last();
        assert(!rest.contains(sep)) by {
            if rest.contains(sep) {
                let k = choose|k: int| 0 <= k < rest.len() && rest[k] == sep;
                assert(b[k] == sep);
            }
        }
        lemma_split_after_sep(a, rest, sep);
        assert(s.drop_last() =~= a + seq![sep] + rest);
        assert(s.last() == b.last());
        assert(b.contains(b.last()));
        let before = split_on(a, sep).push(rest);
        assert(before.drop_last() =~= split_on(a, sep));
        assert(before.last().push(b.last()) =~= b);
    }
}

proof fn lemma_split_without_sep(s: Seq<char>, sep: char)
    requires
        !s.contains(sep),
    ensures
        split_on(s, sep) == seq![s],
    decreases s.len(),
{
    if s.len() > 0 {
        let rest = s.drop_last();
        assert(!rest.contains(sep)) by {
            if rest.contains(sep) {
                let k = choose|k: int| 0 <= k < rest.len() && rest[k] == sep;
                assert(s[k] == sep);
            }
        }
        lemma_split_without_sep(rest, sep);
        assert(s.contains(s.last()));
        assert(rest.push(s.last()) =~= s);
        assert(split_on(s, sep) =~= seq![s]);
    } else {
        assert(s =~= Seq::<char>::empty());
    }
}

/// Splitting undoes joining: parts that do not hold the separator come back.
pub proof fn join_then_split(parts: Seq<Seq<char>>, sep: char)
    requires
        parts.len() > 0,
        forall|i: int| 0 <= i < parts.len() ==> !(#[trigger] parts[i]).contains(sep),
    ensures
        split_on(join_with(parts, seq![sep]), sep) == parts,
    decreases parts.len(),
{
    if parts.len() == 1 {
        lemma_split_without_sep(parts[0], sep);
        assert(parts =~= seq![parts[0]]);
    } else {
        let front = parts.drop_last();
        assert forall|i: int| 0 <= i < front.len() implies !(#[trigger] front[i]).contains(sep) by {
            assert(front[i] == parts[i]);
        }
        join_then_split(front, sep);
        lemma_split_after_sep(join_with(front, seq![sep]), parts.last(), sep);
        assert(front.push(parts.last()) =~= parts);
    }
}

/// Joining undoes splitting, and no piece holds the separator.
pub proof fn split_then_join(s: Seq<char>, sep: char)
    ensures
        join_with(split_on(s, sep), seq![sep]) == s,
        forall|i: int| 0 <= i < split_on(s, sep).len() ==> !(#[trigger] split_on(s, sep)[i]).contains(sep),
    decreases s.len(),
{
    let pieces = split_on(s, sep);
    if s.len() == 0 {
        assert(s =~= Seq::<char>::empty());
    } else {
        let rest = s.drop_last();
        let before = split_on(rest, sep);
        split_then_join(rest, sep);
        lemma_split_on_not_empty(rest, sep);
        if s.last() == sep {
            assert(pieces.drop_last() =~= before);
            assert(join_with(pieces, seq![sep]) =~= s);
            assert forall|i: int| 0 <= i < pieces.len() implies !(#[trigger] pieces[i]).contains(
                sep,
            ) by {
                if i < before.len() {
                    assert(pieces[i] == before[i]);
                }
            }
        } else {
            assert(pieces.drop_last() =~= before.drop_last());
            assert(pieces.last() == before.last().push(s.last()));
            if before.len() == 1 {
                assert(join_with(pieces, seq![sep]) =~= rest.push(s.last()));
            } else {
                assert(join_with(pieces, seq![sep]) =~= join_with(before, seq![sep]).push(s.last()));
            }
            assert(rest.push(s.last()) =~= s);
            assert forall|i: int| 0 <= i < pieces.len() implies !(#[trigger] pieces[i]).contains(
                sep,
            ) by {
                if i < before.len() - 1 {
                    assert(pieces[i] == before[i]);
                } else {
                    let last = before.last();
                    assert(!last.contains(sep));
                    if pieces[i].contains(sep) {
                        let k = choose|k: int| 0 <= k < pieces[i].len() && pieces[i][k] == sep;
                        assert(k < last.len());
                        assert(last[k] == sep);
                    }
                }
            }
        }
    }
}

proof fn lemma_words_after_space(a: Seq<char>, space: char, b: Seq<char>)
    requires
        is_white_space(space),
        is_word(b),
    ensures
        words(a + seq![space] + b) == words(a).push(b),
    decreases b.len(),
{
    let s = a + seq![space] + b;
    assert(s.last() == b.last());
    if b.len() == 1 {
        assert(s.drop_last() =~= a + seq![space]);
        assert((a + seq![space]).drop_last() =~= a);
        assert(words(a + seq![space]) == words(a));
        assert(s[s.len() - 2] == space);
        assert(b =~= seq![b.last()]);
    } else {
        let rest = b.drop_last();
        assert forall|i: int| 0 <= i < rest.len() implies !is_white_space(#[trigger] rest[i]) by {
            assert(rest[i] == b[i]);
        }
        lemma_words_after_space(a, space, rest);
        assert(s.drop_last() =~= a + seq![space] + rest);
        assert(s[s.len() - 2] == b[b.len() - 2]);
        let before = words(a).push(rest);
        assert(before.drop_last() =~= words(a));
        assert(before.last().push(b.last()) =~= b);
    }
}

proof fn lemma_words_of_word(b: Seq<char>)
    requires
        is_word(b),
    ensures
        words(b) == seq![b],
    decreases b.len(),
{
    let rest = b.drop_last();
    if b.len() == 1 {
        assert(b =~= seq![b.last()]);
        assert(words(rest) =~= Seq::<Seq<char>>::empty());
    } else {
        assert forall|i: int| 0 <= i < rest.len() implies !is_white_space(#[trigger] rest[i]) by {
            assert(rest[i] == b[i]);
        }
        lemma_words_of_word(rest);
        assert(!is_white_space(b[b.len() - 2]));
        assert(rest.push(b.last()) =~= b);
    }
    assert(words(b) =~= seq![b]);
}

/// Words that are written with one white space character between them are the
/// words that are read.
pub proof fn join_then_words(parts: Seq<Seq<char>>, space: char)
    requires
        is_white_space(space),
        parts.len() > 0,
        forall|i: int| 0 <= i < parts.len() ==> is_word(#[trigger] parts[i]),
    ensures
        words(join_with(parts, seq![space])) == parts,
    decreases parts.len(),
{
    if parts.len() == 1 {
        lemma_words_of_word(parts[0]);
        assert(parts =~= seq![parts[0]]);
    } else {
        let front = parts.drop_last();
        assert forall|i: int| 0 <= i < front.len() implies is_word(#[trigger] front[i]) by {
            assert(front[i] == parts[i]);
        }
        join_then_words(front, space);
        lemma_words_after_space(join_with(front, seq![space]), space, parts.last());
        assert(front.push(parts.last()) =~= parts);
    }
}

proof fn lemma_is_word_push(s: Seq<char>, c: char)
    requires
        s.len() > 0 ==> is_word(s),
        !is_white_space(c),
    ensures
        is_word(s.push(c)),
{
}

/// Every word that is read is a run without white space.
pub proof fn words_hold_no_white_space(s: Seq<char>)
    ensures
        forall|i: int| 0 <= i < words(s).len() ==> is_word(#[trigger] words(s)[i]),
        s.len() > 0 && !is_white_space(s.last()) ==> words(s).len() > 0,
    decreases s.len(),
{
    if s.len() > 0 {
        let before = words(s.drop_last());
        words_hold_no_white_space(s.drop_last());
        assert forall|i: int| 0 <= i < words(s).len() implies is_word(#[trigger] words(s)[i]) by {
            if !is_white_space(s.last()) && i == words(s).len() - 1 {
                if s.len() == 1 || is_white_space(s[s.len() - 2]) {
                    assert(words(s)[i] =~= Seq::<char>::empty().push(s.last()));
                    lemma_is_word_push(Seq::<char>::empty(), s.last());
                } else {
                    assert(s.drop_last().last() == s[s.len() - 2]);
                    assert(is_word(before[before.len() - 1]));
                    lemma_is_word_push(before.last(), s.last());
                }
            } else {
                assert(words(s)[i] == before[i]);
            }
        }
    }
}

/// Nothing joined is nothing, one part joined is the part, and two lists of parts in a
/// row are joined with one separator between what each of them gives.
pub proof fn joining_puts_the_separator_between(
    a: Seq<Seq<char>>,
    b: Seq<Seq<char>>,
    sep: Seq<char>,
)
    ensures
        a.len() == 0 ==> join_with(a, sep).len() == 0,
        a.len() == 1 ==> join_with(a, sep) == a[0],
        a.len() > 0 && b.len() > 0 ==> join_with(a + b, sep) == join_with(a, sep) + sep
            + join_with(b, sep),
    decreases b.len(),
{
    if a.len() > 0 && b.len() > 0 {
        let all = a + b;
        assert(all.last() == b.last());
        assert(all.drop_last() =~= a + b.drop_last());
        if b.len() == 1 {
            assert(a + b.drop_last() =~= a);
        } else {
            joining_puts_the_separator_between(a, b.drop_last(), sep);
            assert(join_with(all, sep) =~= join_with(a, sep) + sep + join_with(b, sep));
        }
    }
}

/// A text is cut at each separator and nowhere else: what is cut of two texts with a
/// separator between them is what is cut of each, and a text without one is one piece.
pub proof fn splitting_cuts_at_each_separator(a: Seq<char>, b: Seq<char>, sep: char)
    ensures
        split_on(a + seq![sep] + b, sep) == split_on(a, sep) + split_on(b, sep),
        !a.contains(sep) ==> split_on(a, sep) == seq![a],
    decreases b.len(),
{
    let s = a + seq![sep] + b;
    if !a.contains(sep) {
        lemma_split_without_sep(a, sep);
    }
    if b.len() == 0 {
        assert(s.drop_last() =~= a);
        assert(s.last() == sep);
        assert(split_on(s, sep) =~= split_on(a, sep) + split_on(b, sep));
    } else {
        let rest = b.drop_last();
        splitting_cuts_at_each_separator(a, rest, sep);
        lemma_split_on_not_empty(rest, sep);
        assert(s.drop_last() =~= a + seq![sep] + rest);
        assert(s.last() == b.last());
        assert(split_on(s, sep) =~= split_on(a, sep) + split_on(b, sep));
    }
}

/// White space stands between words and is no part of them: the words of two texts with
/// white space between them are those of each, and a run without white space is one word.
pub proof fn white_space_parts_words(a: Seq<char>, space: char, b: Seq<char>)
    requires
        is_white_space(space),
    ensures
        words(a + seq![space] + b) == words(a) + words(b),
        a.len() == 0 ==> words(a).len() == 0,
        is_word(a) ==> words(a) == seq![a],
    decreases b.len(),
{
    let s = a + seq![space] + b;
    if is_word(a) {
        lemma_words_of_word(a);
    }
    if b.len() == 0 {
        assert(s.drop_last() =~= a);
        assert(words(s) =~= words(a) + words(b));
    } else {
        let rest = b.drop_last();
        white_space_parts_words(a, space, rest);
        words_hold_no_white_space(rest);
        assert(s.drop_last() =~= a + seq![space] + rest);
        assert(s.last() == b.last());
        if b.len() == 1 {
            assert(s[s.len() - 2] == space);
        } else {
            assert(s[s.len() - 2] == b[b.len() - 2]);
            assert(rest.last() == b[b.len() - 2]);
        }
        assert(words(s) =~= words(a) + words(b));
    }
}

/// White space are the tabulators and ends of lines, the blanks of all widths, and the
/// separators of lines and paragraphs; no letter, digit or punctuation mark is.
pub proof fn white_space_characters(c: char)
    ensures
        is_white_space(c) <==> {
            let n = c as int;
            ||| n == 9 || n == 10 || n == 11 || n == 12 || n == 13
            ||| n == 32 || n == 0x85 || n == 0xa0 || n == 0x1680
            ||| 0x2000 <= n <= 0x200a
            ||| n == 0x2028 || n == 0x2029 || n == 0x202f || n == 0x205f || n == 0x3000
        },
        '!' <= c <= '~' ==> !is_white_space(c),
{
}

/// What is printed are decimal digits, the last for the ones, those before it for the
/// tens, and none of them a zero in front.
pub proof fn printed_digits(n: nat)
    ensures
        decimal(n).len() > 0,
        forall|i: int| 0 <= i < decimal(n).len() ==> '0' <= #[trigger] decimal(n)[i] <= '9',
        decimal(n).last() as int - '0' as int == n % 10,
        n < 10 ==> decimal(n).len() == 1,
        n >= 10 ==> decimal(n).drop_last() == decimal(n / 10) && decimal(n)[0] != '0',
    decreases n,
{
    if n >= 10 {
        printed_digits(n / 10);
        let front = decimal(n / 10);
        assert(decimal(n).drop_last() =~= front);
        assert(decimal(n)[0] == front[0]);
        if n / 10 < 10 {
            assert(front.last() == front[0]);
        }
    }
}

/// A number is printed by its digits, and a negative one with a minus sign before them.
pub proof fn printed_sign(n: int)
    ensures
        n >= 0 ==> signed_decimal(n) == decimal(n as nat),
        n < 0 ==> signed_decimal(n).len() > 1 && signed_decimal(n)[0] == '-' && signed_decimal(
            n,
        ).skip(1) == decimal((-n) as nat),
{
    if n < 0 {
        printed_digits((-n) as nat);
        assert(signed_decimal(n).skip(1) =~= decimal((-n) as nat));
    }
}

} // verus!
