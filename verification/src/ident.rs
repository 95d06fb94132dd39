use vstd::prelude::*;
use vstd::string::StrSliceExecFns;

verus! {

/// A catalog identifier is the 24-character hexadecimal rendering of a
/// 12-byte object id. Parsing accepts either letter case; the canonical
/// (stored) form is lower case.
pub open spec fn is_hex_digit(c: char) -> bool {
    ('0' <= c && c <= '9') || ('a' <= c && c <= 'f') || ('A' <= c && c <= 'F')
}

/// The lower-case form of one hexadecimal digit.
pub open spec fn canon_hex_digit(c: char) -> char {
    if c == 'A' {
        'a'
    } else if c == 'B' {
        'b'
    } else if c == 'C' {
        'c'
    } else if c == 'D' {
        'd'
    } else if c == 'E' {
        'e'
    } else if c == 'F' {
        'f'
    } else {
        c
    }
}

/// A well-formed identifier: exactly 24 hexadecimal digits.
pub open spec fn is_object_id(s: Seq<char>) -> bool {
    s.len() == 24 && forall|i: int| 0 <= i < s.len() ==> is_hex_digit(#[trigger] s[i])
}

/// The canonical (lower-case) form of an identifier.
pub open spec fn canon_id(s: Seq<char>) -> Seq<char> {
    s.map(|i: int, c: char| canon_hex_digit(c))
}

/// A canonical identifier: well-formed and already lower case.
pub open spec fn is_canonical_id(s: Seq<char>) -> bool {
    is_object_id(s) && canon_id(s) == s
}

pub proof fn lemma_canon_id_reflects_form(s: Seq<char>)
    requires
        is_object_id(canon_id(s)),
    ensures
        is_object_id(s),
{
    assert forall|i: int| 0 <= i < s.len() implies is_hex_digit(#[trigger] s[i]) by {
        assert(is_hex_digit(canon_id(s)[i]));
    }
}

/// Decides whether a client-supplied identifier is well-formed.
pub fn check_object_id(s: &str) -> (r: bool)
    ensures
        r == is_object_id(s@),
{
    let n = s.unicode_len();
    if n != 24 {
        return false;
    }
    let mut i: usize = 0;
    while i < n
        invariant
            n == s@.len(),
            0 <= i <= n,
            forall|j: int| 0 <= j < i ==> is_hex_digit(#[trigger] s@[j]),
        decreases n - i,
    {
        let c = s.get_char(i);
        let ok = ('0' <= c && c <= '9') || ('a' <= c && c <= 'f') || ('A' <= c && c <= 'F');
        if !ok {
            return false;
        }
        i += 1;
    }
    true
}

/// The lower-case form of one hexadecimal digit, executable.
pub fn lower_hex_digit(c: char) -> (r: char)
    ensures
        r == canon_hex_digit(c),
{
    match c {
        'A' => 'a',
        'B' => 'b',
        'C' => 'c',
        'D' => 'd',
        'E' => 'e',
        'F' => 'f',
        _ => c,
    }
}

/// Compares two identifiers up to letter case.
pub fn id_equal(a: &str, b: &str) -> (r: bool)
    ensures
        r == (canon_id(a@) == canon_id(b@)),
{
    let alen = a.unicode_len();
    let blen = b.unicode_len();
    if alen != blen {
        proof {
            assert(canon_id(a@).len() == a@.len());
            assert(canon_id(b@).len() == b@.len());
        }
        return false;
    }
    let mut i: usize = 0;
    while i < alen
        invariant
            alen == a@.len(),
            blen == b@.len(),
            alen == blen,
            0 <= i <= alen,
            forall|j: int| 0 <= j < i ==> canon_hex_digit(a@[j]) == canon_hex_digit(b@[j]),
        decreases alen - i,
    {
        let ca = lower_hex_digit(a.get_char(i));
        let cb = lower_hex_digit(b.get_char(i));
        if ca != cb {
            proof {
                assert(canon_id(a@)[i as int] != canon_id(b@)[i as int]);
            }
            return false;
        }
        i += 1;
    }
    proof {
        assert(canon_id(a@) =~= canon_id(b@));
    }
    true
}

/// Names the RFC 3339 rendering of the creation instant embedded in an
/// identifier; computed outside the library, a function of the identifier
/// alone.
pub uninterp spec fn rfc3339_of_id(id: Seq<char>) -> Seq<char>;

/// Relies on `bson::oid::ObjectId::new` and `ObjectId::to_hex`: a freshly
/// generated object id rendered as 24 lower-case hexadecimal digits
/// (`to_hex` encodes the 12 bytes with lower-case `hex::encode`).
#[verifier::external_body]
pub(crate) fn generate_object_id_hex() -> (r: String)
    ensures
        is_canonical_id(r@),
{
    bson::oid::ObjectId::new().to_hex()
}

/// Relies on `bson::oid::ObjectId::parse_str` (case-insensitive hexadecimal
/// decoding), `ObjectId::timestamp` and `bson::DateTime::try_to_rfc3339_string`:
/// the creation instant embedded in a well-formed identifier, rendered as
/// RFC 3339 text — a function of the identifier's canonical form alone.
#[verifier::external_body]
pub(crate) fn object_id_created_at(id: &str) -> (r: String)
    requires
        is_object_id(id@),
    ensures
        r@ == rfc3339_of_id(canon_id(id@)),
{
    match bson::oid::ObjectId::parse_str(id) {
        Ok(oid) => oid.timestamp().try_to_rfc3339_string().unwrap_or_default(),
        Err(_) => String::new(),
    }
}

} // verus!
