//! Conversion between host strings and the engine's nul-terminated UTF-16
//! buffers.
use vstd::prelude::*;

verus! {

/// The UTF-16 code units of a sequence of characters, as `str::encode_utf16`
/// produces them.
pub uninterp spec fn utf16_of(s: Seq<char>) -> Seq<u16>;

/// Why a string could not cross the engine boundary.
#[derive(Clone, Copy, Debug, PartialEq, Eq, Structural)]
pub enum CodecError {
    /// The host string holds a nul character before its end.
    InteriorNul,
    /// The engine's buffer holds no terminating zero unit.
    MissingTerminator,
    /// The units before the terminator are not valid UTF-16.
    InvalidUtf16,
}

/// True when no nul character stands anywhere but at the last position.
pub open spec fn no_interior_nul(s: Seq<char>) -> bool {
    forall|i: int| 0 <= i < s.len() - 1 ==> s[i] != '\0'
}

/// The nul-terminated buffer that encodes `s`: a trailing nul of `s` serves
/// as the terminator itself.
pub open spec fn terminated_utf16(s: Seq<char>) -> Seq<u16> {
    if s.len() > 0 && s.last() == '\0' {
        utf16_of(s)
    } else {
        utf16_of(s).push(0u16)
    }
}

/// The index of the first zero unit of `w`, if there is one.
#[verifier::opaque]
pub open spec fn first_zero(w: Seq<u16>) -> Option<int> {
    if exists|i: int| 0 <= i < w.len() && w[i] == 0 {
        Some(choose|i: int| 0 <= i < w.len() && w[i] == 0 && forall|j: int| 0 <= j < i ==> w[j] != 0)
    } else {
        None
    }
}

/// The first zero unit of `w` stands at `n`.
proof fn lemma_first_zero_at(w: Seq<u16>, n: int)
    requires
        0 <= n < w.len(),
        w[n] == 0,
        forall|j: int| 0 <= j < n ==> w[j] != 0,
    ensures
        first_zero(w) == Some(n),
{
    reveal(first_zero);
    assert(exists|k: int| 0 <= k < w.len() && w[k] == 0);
    let c = choose|k: int| 0 <= k < w.len() && w[k] == 0 && forall|j: int| 0 <= j < k ==> w[j] != 0;
    assert(0 <= c < w.len() && w[c] == 0 && forall|j: int| 0 <= j < c ==> w[j] != 0);
    assert(c == n);
}

/// True when `w` is the UTF-16 encoding of some character sequence.
pub open spec fn is_utf16(w: Seq<u16>) -> bool {
    exists|s: Seq<char>| #[trigger] utf16_of(s) == w
}

/// What `encode` promises of its result for the text `text`.
pub open spec fn encodes(text: Seq<char>, r: Result<Vec<u16>, CodecError>) -> bool {
    &&& r matches Ok(v) ==> v@ == terminated_utf16(text)
    &&& r matches Ok(v) ==> v@.len() > 0 && v@.last() == 0 && forall|i: int|
        0 <= i < v@.len() - 1 ==> v@[i] != 0
    &&& r is Err <==> !no_interior_nul(text)
    &&& r matches Err(e) ==> e == CodecError::InteriorNul
}

/// What `decode` promises of its result for the buffer `units`.
pub open spec fn decodes(units: Seq<u16>, r: Result<String, CodecError>) -> bool {
    &&& first_zero(units) is None ==> r == Err::<String, CodecError>(CodecError::MissingTerminator)
    &&& first_zero(units) matches Some(n) ==> {
        let body = units.take(n);
        &&& r is Ok <==> is_utf16(body)
        &&& !is_utf16(body) ==> r == Err::<String, CodecError>(CodecError::InvalidUtf16)
        &&& r matches Ok(s) ==> utf16_of(s@) == body
        &&& r matches Ok(s) ==> forall|t: Seq<char>| #[trigger] utf16_of(t) == body ==> t == s@
    }
}

/// Relies on `widestring::U16CString::from_str`, which encodes the string as
/// UTF-16 and refuses a nul unit anywhere but at the end, and on
/// `into_vec_with_nul`, which hands the units out with one terminating zero.
#[verifier::external_body]
fn utf16_with_nul(s: &str) -> (r: Option<Vec<u16>>)
    ensures
        r is Some <==> no_interior_nul(s@),
        r matches Some(v) ==> v@ == terminated_utf16(s@),
        r matches Some(v) ==> v@.len() > 0 && v@.last() == 0 && forall|i: int|
            0 <= i < v@.len() - 1 ==> v@[i] != 0,
{
    widestring::U16CString::from_str(s).ok().map(|c| c.into_vec_with_nul())
}

/// Relies on `widestring::U16Str::to_string`, which decodes UTF-16 and fails
/// exactly on an invalid sequence (an unpaired surrogate).
#[verifier::external_body]
fn utf16_to_string(units: &[u16]) -> (r: Option<String>)
    ensures
        r is Some <==> is_utf16(units@),
        r matches Some(t) ==> utf16_of(t@) == units@,
        r matches Some(t) ==> forall|s: Seq<char>| #[trigger] utf16_of(s) == units@ ==> s == t@,
{
    widestring::U16Str::from_slice(units).to_string().ok()
}

/// The number of units before the first zero unit of `units`, or `None` when
/// the buffer holds no zero unit.
pub fn terminated_len(units: &[u16]) -> (r: Option<usize>)
    ensures
        r matches Some(n) ==> first_zero(units@) == Some(n as int),
        r matches Some(n) ==> n < units@.len() && units@[n as int] == 0,
        r is None <==> first_zero(units@) is None,
{
    let mut i: usize = 0;
    while i < units.len()
        invariant
            0 <= i <= units@.len(),
            forall|j: int| 0 <= j < i ==> units@[j] != 0,
        decreases units@.len() - i,
    {
        if units[i] == 0 {
            proof {
                lemma_first_zero_at(units@, i as int);
            }
            return Some(i);
        }
        i += 1;
    }
    proof {
        reveal(first_zero);
    }
    None
}

/// Encodes `text` as a nul-terminated UTF-16 buffer for one engine call.
/// Fails exactly when `text` holds a nul character before its end.
pub fn encode(text: &str) -> (r: Result<Vec<u16>, CodecError>)
    ensures
        encodes(text@, r),
{
    match utf16_with_nul(text) {
        Some(v) => Ok(v),
        None => Err(CodecError::InteriorNul),
    }
}

/// Decodes a buffer handed back by the engine: the units before the first
/// zero unit, as UTF-16. An invalid sequence is an error, never replaced by
/// a substitute character.
pub fn decode(units: &[u16]) -> (r: Result<String, CodecError>)
    ensures
        decodes(units@, r),
{
    match terminated_len(units) {
        None => Err(CodecError::MissingTerminator),
        Some(n) => {
            let body = slice_prefix(units, n);
            match utf16_to_string(body) {
                Some(s) => Ok(s),
                None => Err(CodecError::InvalidUtf16),
            }
        },
    }
}

/// Encodes `text` and decodes the buffer again: a text free of nul
/// characters comes back unchanged.
pub fn round_trip(text: &str) -> (r: Result<String, CodecError>)
    ensures
        (forall|i: int| 0 <= i < text@.len() ==> text@[i] != '\0') ==> (r matches Ok(s) && s@ == text@),
{
    match encode(text) {
        Err(e) => Err(e),
        Ok(buf) => {
            let r = decode(buf.as_slice());
            proof {
                if text@.len() == 0 || text@.last() != '\0' {
                    let w = utf16_of(text@);
                    assert(buf@ == w.push(0u16));
                    lemma_first_zero_at(buf@, w.len() as int);
                    assert(buf@.take(w.len() as int) == w);
                    assert(is_utf16(w));
                }
            }
            r
        },
    }
}

/// The first `n` items of `s`.
fn slice_prefix(s: &[u16], n: usize) -> (r: &[u16])
    requires
        n <= s@.len(),
    ensures
        r@ == s@.take(n as int),
{
    let (a, _b) = s.split_at(n);
    a
}

} // verus!
