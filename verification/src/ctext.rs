//! Text that can be handed to the kernel: bytes without a NUL among them.

use vstd::prelude::*;
use vstd::string::*;

use crate::text;

verus! {

/// How many bytes stand before the first NUL.
pub open spec fn bytes_before_nul(bytes: Seq<u8>) -> nat
    decreases bytes.len(),
{
    if bytes.len() == 0 {
        0
    } else {
        let before = bytes_before_nul(bytes.drop_last());
        if before < bytes.len() - 1 || bytes.last() == 0 {
            before
        } else {
            bytes.len()
        }
    }
}

/// Whether no byte is NUL.
pub open spec fn nul_free(bytes: Seq<u8>) -> bool {
    forall|i: int| 0 <= i < bytes.len() ==> #[trigger] bytes[i] != 0
}

/// Bytes that hold a NUL where none may stand.
#[derive(Debug, PartialEq, Eq)]
pub struct NulError {
    /// Where the first NUL stands.
    pub position: usize,
    pub bytes: Vec<u8>,
}

/// The value of a [`NulError`].
pub struct NulFault {
    pub position: nat,
    pub bytes: Seq<u8>,
}

impl View for NulError {
    type V = NulFault;

    open spec fn view(&self) -> NulFault {
        NulFault { position: self.position as nat, bytes: self.bytes@ }
    }
}

/// The bytes, where no NUL stands among them.
pub open spec fn c_bytes(bytes: Seq<u8>) -> Result<Seq<u8>, NulFault> {
    if bytes_before_nul(bytes) < bytes.len() {
        Err(NulFault { position: bytes_before_nul(bytes), bytes })
    } else {
        Ok(bytes)
    }
}

/// A text for the kernel.
#[derive(Debug, PartialEq, Eq)]
pub struct CText {
    bytes: Vec<u8>,
}

impl View for CText {
    type V = Seq<u8>;

    closed spec fn view(&self) -> Seq<u8> {
        self.bytes@
    }
}

impl Clone for CText {
    fn clone(&self) -> (r: CText)
        ensures
            r@ == self@,
    {
        proof {
            use_type_invariant(self);
        }
        let bytes = self.bytes.clone();
        assert(bytes@ =~= self.bytes@);
        CText { bytes }
    }
}

proof fn lemma_before_nul_of_prefix(bytes: Seq<u8>, k: int)
    requires
        0 <= k < bytes.len(),
        bytes_before_nul(bytes.take(k)) == k,
        bytes[k] == 0,
    ensures
        bytes_before_nul(bytes) == k,
    decreases bytes.len(),
{
    if k == bytes.len() - 1 {
        assert(bytes.take(k) =~= bytes.drop_last());
    } else {
        assert(bytes.drop_last().take(k) =~= bytes.take(k));
        lemma_before_nul_of_prefix(bytes.drop_last(), k);
    }
}

/// The count of bytes before the first NUL is what it is called: no NUL stands
/// before that place, and one stands there unless the bytes end there.
pub proof fn first_nul_is_found(bytes: Seq<u8>)
    ensures
        bytes_before_nul(bytes) <= bytes.len(),
        nul_free(bytes.take(bytes_before_nul(bytes) as int)),
        bytes_before_nul(bytes) < bytes.len() ==> bytes[bytes_before_nul(bytes) as int] == 0,
        nul_free(bytes) <==> bytes_before_nul(bytes) == bytes.len(),
    decreases bytes.len(),
{
    if bytes.len() > 0 {
        let front = bytes.drop_last();
        first_nul_is_found(front);
        let n = bytes_before_nul(bytes) as int;
        if n < bytes.len() {
            assert(bytes.take(n) =~= front.take(n));
            if n < front.len() {
                assert(front[n] == bytes[n]);
            }
            assert(bytes[n] == 0);
        } else {
            assert(front.take(front.len() as int) =~= front);
            assert(bytes.take(n) =~= bytes);
            assert forall|i: int| 0 <= i < bytes.len() implies #[trigger] bytes[i] != 0 by {
                if i < front.len() {
                    assert(front[i] == bytes[i]);
                }
            }
        }
    }
}

impl CText {
    #[verifier::type_invariant]
    spec fn has_no_nul(self) -> bool {
        nul_free(self.bytes@)
    }

    /// Takes the bytes, unless a NUL stands among them.
    pub fn new(bytes: Vec<u8>) -> (r: Result<CText, NulError>)
        ensures
            match r {
                Ok(c) => c_bytes(bytes@) == Ok::<Seq<u8>, NulFault>(c@),
                Err(e) => c_bytes(bytes@) == Err::<Seq<u8>, NulFault>(e@),
            },
            r matches Ok(c) ==> c@ == bytes@ && nul_free(bytes@),
            r matches Err(e) ==> e.bytes@ == bytes@ && e.position < bytes@.len()
                && bytes@[e.position as int] == 0,
    {
        let mut i: usize = 0;
        assert(bytes@.take(0) =~= Seq::<u8>::empty());
        while i < bytes.len()
            invariant
                i <= bytes.len(),
                bytes_before_nul(bytes@.take(i as int)) == i,
            decreases bytes.len() - i,
        {
            assert(bytes@.take(i + 1).drop_last() =~= bytes@.take(i as int));
            if bytes[i] == 0 {
                proof {
                    lemma_before_nul_of_prefix(bytes@, i as int);
                }
                return Err(NulError { position: i, bytes });
            }
            i += 1;
        }
        assert(bytes@.take(i as int) =~= bytes@);
        proof {
            first_nul_is_found(bytes@);
        }
        Ok(CText { bytes })
    }

    /// The bytes, without a NUL at the end.
    pub fn as_bytes(&self) -> (r: &Vec<u8>)
        ensures
            r@ == self@,
            nul_free(r@),
    {
        proof {
            use_type_invariant(self);
        }
        &self.bytes
    }

    /// A text that holds no NUL.
    pub fn of_nul_free(s: &str) -> (r: CText)
        requires
            nul_free(vstd::utf8::encode_utf8(s@)),
        ensures
            r@ == vstd::utf8::encode_utf8(s@),
    {
        CText { bytes: s.as_bytes_vec() }
    }

    /// The bytes of a text.
    pub fn from_text(s: &str) -> (r: Result<CText, NulError>)
        ensures
            match r {
                Ok(c) => c_bytes(vstd::utf8::encode_utf8(s@)) == Ok::<Seq<u8>, NulFault>(c@),
                Err(e) => c_bytes(vstd::utf8::encode_utf8(s@)) == Err::<Seq<u8>, NulFault>(e@),
            },
            r matches Ok(c) ==> c@ == vstd::utf8::encode_utf8(s@),
    {
        CText::new(s.as_bytes_vec())
    }
}

/// The encoding of two texts in a row is their encodings in a row.
pub proof fn encoding_of_concatenation(a: Seq<char>, b: Seq<char>)
    ensures
        vstd::utf8::encode_utf8(a + b) == vstd::utf8::encode_utf8(a) + vstd::utf8::encode_utf8(b),
    decreases a.len(),
{
    if a.len() == 0 {
        assert(a + b =~= b);
        assert(vstd::utf8::encode_utf8(a) + vstd::utf8::encode_utf8(b)
            =~= vstd::utf8::encode_utf8(b));
    } else {
        assert((a + b).drop_first() =~= a.drop_first() + b);
        encoding_of_concatenation(a.drop_first(), b);
        assert(vstd::utf8::encode_utf8(a + b) =~= vstd::utf8::encode_utf8(a)
            + vstd::utf8::encode_utf8(b));
    }
}

/// Two texts in a row are free of NULs exactly if both are.
pub proof fn nul_free_concatenation(a: Seq<char>, b: Seq<char>)
    ensures
        nul_free(vstd::utf8::encode_utf8(a + b)) <==> nul_free(vstd::utf8::encode_utf8(a))
            && nul_free(vstd::utf8::encode_utf8(b)),
{
    let x = vstd::utf8::encode_utf8(a);
    let y = vstd::utf8::encode_utf8(b);
    encoding_of_concatenation(a, b);
    if nul_free(x + y) {
        assert forall|i: int| 0 <= i < x.len() implies #[trigger] x[i] != 0 by {
            assert((x + y)[i] == x[i]);
        }
        assert forall|i: int| 0 <= i < y.len() implies #[trigger] y[i] != 0 by {
            assert((x + y)[x.len() + i] == y[i]);
        }
    }
}

/// A text of ASCII characters other than NUL is free of NULs.
pub proof fn ascii_is_nul_free(s: Seq<char>)
    requires
        forall|i: int| 0 <= i < s.len() ==> '\u{1}' <= #[trigger] s[i] <= '\u{7f}',
    ensures
        nul_free(vstd::utf8::encode_utf8(s)),
{
    assert(vstd::utf8::is_ascii_chars(s));
    vstd::utf8::is_ascii_chars_encode_utf8(s);
    let bytes = vstd::utf8::encode_utf8(s);
    assert forall|i: int| 0 <= i < bytes.len() implies #[trigger] bytes[i] != 0 by {
        assert(s[i] as u8 == bytes[i]);
    }
}

/// The decimal texts of the bytes.
pub open spec fn byte_numbers(bytes: Seq<u8>) -> Seq<Seq<char>> {
    bytes.map_values(|b: u8| text::decimal(b as nat))
}

impl NulFault {
    /// The error with all it holds, as one text.
    pub open spec fn text(self) -> Seq<char> {
        "NulError("@ + text::decimal(self.position) + ", ["@ + text::join_with(
            byte_numbers(self.bytes),
            ", "@,
        ) + "])"@
    }
}

impl NulError {
    /// Shows the error with all it holds.
    pub fn message(&self) -> (r: String)
        ensures
            r@ == self@.text(),
    {
        let mut out = "NulError(".to_owned();
        out.append(text::decimal_text(self.position as u64).as_str());
        out.append(", [");
        let ghost start = out@;
        let mut i: usize = 0;
        assert(byte_numbers(self.bytes@).take(0) =~= Seq::<Seq<char>>::empty());
        assert(start + text::join_with(byte_numbers(self.bytes@).take(0), ", "@) =~= start);
        while i < self.bytes.len()
            invariant
                i <= self.bytes.len(),
                out@ == start + text::join_with(byte_numbers(self.bytes@).take(i as int), ", "@),
            decreases self.bytes.len() - i,
        {
            let ghost front = byte_numbers(self.bytes@).take(i as int);
            proof {
                let more = byte_numbers(self.bytes@).take(i + 1);
                assert(more.drop_last() =~= front);
                assert(more.last() == text::decimal(self.bytes@[i as int] as nat));
            }
            if i > 0 {
                out.append(", ");
            }
            out.append(text::decimal_text(self.bytes[i] as u64).as_str());
            assert(out@ =~= start + text::join_with(
                byte_numbers(self.bytes@).take(i + 1),
                ", "@,
            ));
            i += 1;
        }
        assert(byte_numbers(self.bytes@).take(i as int) =~= byte_numbers(self.bytes@));
        out.append("])");
        out
    }
}

/// Bytes are handed on as they are exactly if no NUL is among them. Otherwise the error
/// holds them all, and the place of the first NUL.
pub proof fn bytes_without_nul_are_kept(bytes: Seq<u8>)
    ensures
        c_bytes(bytes) is Ok <==> nul_free(bytes),
        c_bytes(bytes) matches Ok(kept) ==> kept == bytes,
        c_bytes(bytes) matches Err(e) ==> {
            &&& e.bytes == bytes
            &&& e.position < bytes.len()
            &&& bytes[e.position as int] == 0
            &&& nul_free(bytes.take(e.position as int))
        },
{
    first_nul_is_found(bytes);
}

/// The error is told with the place of the NUL and with every byte as a number, in their
/// order.
pub proof fn nul_error_is_told_whole(e: NulFault)
    ensures
        byte_numbers(e.bytes).len() == e.bytes.len(),
        forall|i: int|
            0 <= i < e.bytes.len() ==> #[trigger] byte_numbers(e.bytes)[i] == text::decimal(
                e.bytes[i] as nat,
            ),
        ({
            let start = "NulError("@ + text::decimal(e.position) + ", ["@;
            let bytes = text::join_with(byte_numbers(e.bytes), ", "@);
            &&& e.text().len() == start.len() + bytes.len() + 2
            &&& e.text().take(start.len() as int) == start
            &&& e.text().subrange(start.len() as int, e.text().len() - 2) == bytes
            &&& e.text().skip(e.text().len() - 2) == seq![']', ')']
        }),
{
    reveal_strlit("])");
    let start = "NulError("@ + text::decimal(e.position) + ", ["@;
    let bytes = text::join_with(byte_numbers(e.bytes), ", "@);
    assert("])"@ =~= seq![']', ')']);
    assert(e.text().take(start.len() as int) =~= start);
    assert(e.text().subrange(start.len() as int, e.text().len() - 2) =~= bytes);
    assert(e.text().skip(e.text().len() - 2) =~= seq![']', ')']);
}

} // verus!
