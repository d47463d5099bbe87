//! Strings as the player inspects and orders them: lower-casing, the
//! lexicographic order of byte strings, and the extension of a file name.

use vstd::prelude::*;
use vstd::string::StrSliceExecFns;
use vstd::string::StringSliceAdditionalSpecFns;

verus! {

/// The lower-case form of a string, as `str::to_lowercase` computes it.
pub uninterp spec fn lowercase_of(s: Seq<char>) -> Seq<char>;

/// Calls `str::to_lowercase`. The result is the Unicode lower-case form of
/// the argument; nothing is proved of it, the contract only gives it its name.
#[verifier::external_body]
pub(crate) fn to_lowercase(s: &str) -> (lower: String)
    ensures
        lower@ == lowercase_of(s@),
{
    s.to_lowercase()
}

/// Lexicographic order of byte strings: the first differing byte decides,
/// and a proper prefix comes before its extensions.
pub open spec fn bytes_le(a: Seq<u8>, b: Seq<u8>) -> bool
    decreases a.len(),
{
    if a.len() == 0 {
        true
    } else if b.len() == 0 {
        false
    } else if a[0] != b[0] {
        a[0] < b[0]
    } else {
        bytes_le(a.drop_first(), b.drop_first())
    }
}

/// Any two byte strings are comparable.
pub proof fn lemma_bytes_le_total(a: Seq<u8>, b: Seq<u8>)
    ensures
        bytes_le(a, b) || bytes_le(b, a),
    decreases a.len(),
{
    if a.len() > 0 && b.len() > 0 && a[0] == b[0] {
        lemma_bytes_le_total(a.drop_first(), b.drop_first());
    }
}

/// The order is transitive.
pub proof fn lemma_bytes_le_transitive(a: Seq<u8>, b: Seq<u8>, c: Seq<u8>)
    requires
        bytes_le(a, b),
        bytes_le(b, c),
    ensures
        bytes_le(a, c),
    decreases a.len(),
{
    if a.len() > 0 && b.len() > 0 && c.len() > 0 && a[0] == b[0] && b[0] == c[0] {
        lemma_bytes_le_transitive(a.drop_first(), b.drop_first(), c.drop_first());
    }
}

/// Two byte strings that precede each other are the same string.
pub proof fn lemma_bytes_le_antisymmetric(a: Seq<u8>, b: Seq<u8>)
    requires
        bytes_le(a, b),
        bytes_le(b, a),
    ensures
        a == b,
    decreases a.len(),
{
    if a.len() > 0 && b.len() > 0 {
        lemma_bytes_le_antisymmetric(a.drop_first(), b.drop_first());
        assert(a =~= seq![a[0]] + a.drop_first());
        assert(b =~= seq![b[0]] + b.drop_first());
    } else {
        assert(a =~= b);
    }
}

/// Decides `bytes_le` by walking both strings up to the first difference.
pub fn bytes_precede(a: &[u8], b: &[u8]) -> (r: bool)
    ensures
        r == bytes_le(a@, b@),
{
    let mut i: usize = 0;
    proof {
        assert(a@.skip(0) =~= a@);
        assert(b@.skip(0) =~= b@);
    }
    while i < a.len() && i < b.len() && a[i] == b[i]
        invariant
            i <= a@.len(),
            i <= b@.len(),
            bytes_le(a@, b@) == bytes_le(a@.skip(i as int), b@.skip(i as int)),
        decreases a@.len() - i,
    {
        proof {
            assert(a@.skip(i as int).drop_first() =~= a@.skip(i as int + 1));
            assert(b@.skip(i as int).drop_first() =~= b@.skip(i as int + 1));
        }
        i = i + 1;
    }
    if i == a.len() {
        true
    } else if i == b.len() {
        false
    } else {
        a[i] < b[i]
    }
}

/// Decides whether two strings hold the same characters.
pub fn same_text(a: &str, b: &str) -> (r: bool)
    ensures
        r == (a@ == b@),
{
    let r = bytes_precede(a.as_bytes(), b.as_bytes()) && bytes_precede(b.as_bytes(), a.as_bytes());
    proof {
        vstd::utf8::encode_utf8_decode_utf8(a@);
        vstd::utf8::encode_utf8_decode_utf8(b@);
        if r {
            lemma_bytes_le_antisymmetric(a.spec_bytes(), b.spec_bytes());
        } else {
            lemma_bytes_le_total(a.spec_bytes(), b.spec_bytes());
        }
    }
    r
}

/// `i` is the position of the last `.` of `name`.
pub open spec fn is_last_dot(name: Seq<char>, i: int) -> bool {
    &&& 0 <= i < name.len()
    &&& name[i] == '.'
    &&& forall|j: int| i < j < name.len() ==> name[j] != '.'
}

/// The extension of a file name: what follows its last `.`, unless the name
/// has no `.` or its only `.` is the first character.
pub open spec fn extension_of(name: Seq<char>) -> Option<Seq<char>> {
    if exists|i: int| 0 < i && is_last_dot(name, i) {
        let i = choose|i: int| 0 < i && is_last_dot(name, i);
        Some(name.subrange(i + 1, name.len() as int))
    } else {
        None
    }
}

/// The last `.` of a name is unique, so it alone decides the extension.
pub proof fn lemma_extension_at(name: Seq<char>, i: int)
    requires
        is_last_dot(name, i),
    ensures
        i > 0 ==> extension_of(name) == Some(name.subrange(i + 1, name.len() as int)),
        i == 0 ==> extension_of(name) is None,
{
    if exists|k: int| 0 < k && is_last_dot(name, k) {
        let k = choose|k: int| 0 < k && is_last_dot(name, k);
        assert(k == i) by {
            if k < i {
                assert(name[i] != '.');
            } else if i < k {
                assert(name[k] != '.');
            }
        }
    }
}

/// A name without any `.` has no extension.
pub proof fn lemma_extension_none(name: Seq<char>)
    requires
        forall|j: int| 0 <= j < name.len() ==> name[j] != '.',
    ensures
        extension_of(name) is None,
{
}

/// Finds the extension of a file name.
pub fn extension(name: &str) -> (ext: Option<&str>)
    ensures
        ext is Some <==> extension_of(name@) is Some,
        ext matches Some(e) ==> extension_of(name@) == Some(e@),
{
    let len = name.unicode_len();
    let mut dot: Option<usize> = None;
    let mut n: usize = 0;
    for c in it: name.chars()
        invariant
            it.seq() == name@,
            len == name@.len(),
            n == it.index(),
            n <= len,
            dot matches Some(i) ==> i < n && name@[i as int] == '.' && forall|j: int|
                i < j < n ==> name@[j] != '.',
            dot is None ==> forall|j: int| 0 <= j < n ==> name@[j] != '.',
    {
        if c == '.' {
            dot = Some(n);
        }
        n = n + 1;
    }
    match dot {
        Some(i) => {
            proof {
                lemma_extension_at(name@, i as int);
            }
            if i > 0 {
                Some(name.substring_char(i + 1, len))
            } else {
                None
            }
        },
        None => {
            proof {
                lemma_extension_none(name@);
            }
            None
        },
    }
}

} // verus!
