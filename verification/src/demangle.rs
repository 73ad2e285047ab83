//! Cosmetic post-processing of extracted names: language demangling, then
//! stripping of the trailing disambiguation hash (`::h` followed by 16
//! hexadecimal digits) that the compiler appends to every symbol.

use vstd::prelude::*;
use vstd::string::StrSliceExecFns;
use vstd::string::StringExecFns;

verus! {

/// The demangled form of a raw symbol name.  It depends on the characters
/// of the input alone; a name that is not a recognizable mangled symbol
/// demangles to itself.
pub uninterp spec fn demangled_of(s: Seq<char>) -> Seq<char>;

/// Relies on rustc_demangle::demangle (rendered without the alternate
/// flag): the result is a function of the input characters alone, and an
/// input that is no legal mangled symbol is returned unchanged.
#[verifier::external_body]
fn demangle_raw(function: &str) -> (r: String)
    ensures
        r@ == demangled_of(function@),
{
    rustc_demangle::demangle(function).to_string()
}

/// One of the sixteen hexadecimal digits, in either case.
pub open spec fn is_hex_digit(c: char) -> bool {
    ('0' <= c && c <= '9') || ('a' <= c && c <= 'f') || ('A' <= c && c <= 'F')
}

/// The number of characters of a trailing disambiguation hash: `::h` and
/// 16 hexadecimal digits.
pub open spec fn hash_suffix_len() -> int {
    19
}

/// Does `s` end in `::h` followed by 16 hexadecimal digits?
pub open spec fn has_hash_suffix(s: Seq<char>) -> bool {
    &&& s.len() >= hash_suffix_len()
    &&& s[s.len() - 19] == ':'
    &&& s[s.len() - 18] == ':'
    &&& s[s.len() - 17] == 'h'
    &&& forall|i: int| s.len() - 16 <= i < s.len() ==> is_hex_digit(#[trigger] s[i])
}

/// `s` without its trailing disambiguation hash, if it has one.
pub open spec fn strip_hash(s: Seq<char>) -> Seq<char> {
    if has_hash_suffix(s) {
        s.take(s.len() - hash_suffix_len())
    } else {
        s
    }
}

/// The display name of a frame with raw symbol name `raw`.
pub open spec fn frame_name(raw: Seq<char>) -> Seq<char> {
    strip_hash(demangled_of(raw))
}

/// Is the character at position `i` of `s` a hexadecimal digit?
fn char_at_is_hex(s: &str, i: usize) -> (r: bool)
    requires
        i < s@.len(),
    ensures
        r == is_hex_digit(s@[i as int]),
{
    let c = s.get_char(i);
    ('0' <= c && c <= '9') || ('a' <= c && c <= 'f') || ('A' <= c && c <= 'F')
}

/// Demangles a raw symbol name and strips its trailing disambiguation
/// hash, if the demangled form carries one.  Never fails: a name that is
/// no recognizable mangled symbol is kept as it is.
pub fn demangle(function: &str) -> (r: String)
    ensures
        r@ == frame_name(function@),
{
    let demangled = demangle_raw(function);
    let n = demangled.as_str().unicode_len();
    if n < 19 {
        return demangled;
    }
    let s = demangled.as_str();
    if !(s.get_char(n - 19) == ':' && s.get_char(n - 18) == ':' && s.get_char(n - 17) == 'h') {
        proof {
            assert(!has_hash_suffix(demangled@));
        }
        return demangled;
    }
    let mut i: usize = n - 16;
    while i < n
        invariant
            demangled@ == demangled_of(function@),
            n == demangled@.len(),
            n >= 19,
            n - 16 <= i <= n,
            s@ == demangled@,
            forall|j: int| n - 16 <= j < i ==> is_hex_digit(#[trigger] demangled@[j]),
        decreases n - i,
    {
        if !char_at_is_hex(s, i) {
            proof {
                assert(!has_hash_suffix(demangled@));
            }
            return demangled;
        }
        i = i + 1;
    }
    proof {
        assert(has_hash_suffix(demangled@));
    }
    let stripped = s.substring_char(0, n - 19);
    let r = String::from_str(stripped);
    proof {
        assert(r@ =~= strip_hash(demangled@));
    }
    r
}

} // verus!
