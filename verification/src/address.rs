//! The syntax of OSC addresses.

use vstd::prelude::*;
use rosc::OscError;
use crate::error::SendError;

verus! {

/// A character that may stand inside a part of an address: printable ASCII
/// other than the space and the characters that address patterns reserve.
pub open spec fn is_address_char(c: char) -> bool {
    &&& '!' <= c <= '~'
    &&& c != '#'
    &&& c != '*'
    &&& c != ','
    &&& c != '/'
    &&& c != '?'
    &&& c != '['
    &&& c != ']'
    &&& c != '{'
    &&& c != '}'
}

/// A well-formed address: one or more parts, each a `/` followed by at least
/// one address character.
pub open spec fn valid_address(s: Seq<char>) -> bool {
    &&& s.len() > 0
    &&& s[0] == '/'
    &&& s[s.len() - 1] != '/'
    &&& forall|i: int| 0 <= i < s.len() ==> s[i] == '/' || is_address_char(#[trigger] s[i])
    &&& forall|i: int| 0 <= i < s.len() - 1 ==> !(#[trigger] s[i] == '/' && s[i + 1] == '/')
}

/// `rosc::address::verify_address` accepts exactly the well-formed addresses.
pub assume_specification[ rosc::address::verify_address ](input: &str) -> (r: Result<(), OscError>)
    ensures
        r is Ok <==> valid_address(input@),
;

/// Checks the destination address before anything else is done with it.
pub fn check_address(address: &str) -> (r: Result<(), SendError>)
    ensures
        r is Ok <==> valid_address(address@),
        r is Err ==> r == Err::<(), SendError>(SendError::InvalidAddress),
{
    match rosc::address::verify_address(address) {
        Ok(_) => Ok(()),
        Err(_) => Err(SendError::InvalidAddress),
    }
}

/// One part of an address: a `/` and then one or more address characters.
pub open spec fn is_address_part(p: Seq<char>) -> bool {
    &&& p.len() >= 2
    &&& p[0] == '/'
    &&& forall|i: int| 1 <= i < p.len() ==> is_address_char(#[trigger] p[i])
}

/// An address that is empty, or whose first character is not `/`, is
/// rejected.
pub proof fn lemma_missing_leading_slash_rejected(s: Seq<char>)
    requires
        s.len() == 0 || s[0] != '/',
    ensures
        !valid_address(s),
{
}

/// An address that holds, anywhere, a character that is neither `/` nor an
/// address character is rejected.
pub proof fn lemma_disallowed_char_rejected(s: Seq<char>, i: int)
    requires
        0 <= i < s.len(),
        s[i] != '/',
        !is_address_char(s[i]),
    ensures
        !valid_address(s),
{
}

/// A single part is a well-formed address.
pub proof fn lemma_part_accepted(p: Seq<char>)
    requires
        is_address_part(p),
    ensures
        valid_address(p),
{
}

/// Two well-formed addresses, one after the other, are a well-formed address:
/// with the law of the single part, every run of parts is accepted.
pub proof fn lemma_joined_accepted(a: Seq<char>, b: Seq<char>)
    requires
        valid_address(a),
        valid_address(b),
    ensures
        valid_address(a + b),
{
    let s = a + b;
    assert forall|i: int| 0 <= i < s.len() implies s[i] == '/' || is_address_char(
        #[trigger] s[i],
    ) by {
        if i < a.len() {
            assert(s[i] == a[i]);
        } else {
            assert(s[i] == b[i - a.len()]);
        }
    }
    assert forall|i: int| 0 <= i < s.len() - 1 implies !(#[trigger] s[i] == '/' && s[i + 1]
        == '/') by {
        if i + 1 < a.len() {
            assert(s[i] == a[i] && s[i + 1] == a[i + 1]);
        } else if i + 1 == a.len() {
            assert(s[i] == a[a.len() - 1]);
        } else {
            assert(s[i] == b[i - a.len()] && s[i + 1] == b[i - a.len() + 1]);
        }
    }
}

/// A well-formed address is a single part, or ends in a part that follows a
/// shorter well-formed address: nothing but runs of parts is accepted.
pub proof fn lemma_accepted_is_parts(s: Seq<char>) -> (k: int)
    requires
        valid_address(s),
    ensures
        0 <= k < s.len(),
        is_address_part(s.subrange(k, s.len() as int)),
        k == 0 || valid_address(s.subrange(0, k)),
{
    let k = last_slash(s, s.len() - 1);
    let tail = s.subrange(k, s.len() as int);
    assert(tail[0] == s[k]);
    assert forall|i: int| 1 <= i < tail.len() implies is_address_char(#[trigger] tail[i]) by {
        assert(tail[i] == s[k + i]);
    }
    if k > 0 {
        let head = s.subrange(0, k);
        assert(head[0] == s[0]);
        assert(head[k - 1] == s[k - 1]);
        assert forall|i: int| 0 <= i < head.len() implies head[i] == '/' || is_address_char(
            #[trigger] head[i],
        ) by {
            assert(head[i] == s[i]);
        }
        assert forall|i: int| 0 <= i < head.len() - 1 implies !(#[trigger] head[i] == '/'
            && head[i + 1] == '/') by {
            assert(head[i] == s[i] && head[i + 1] == s[i + 1]);
        }
    }
    k
}

/// The place of the last `/` at or before `from`.
proof fn last_slash(s: Seq<char>, from: int) -> (k: int)
    requires
        valid_address(s),
        0 <= from < s.len(),
    ensures
        0 <= k <= from,
        s[k] == '/',
        forall|i: int| k < i <= from ==> s[i] != '/',
    decreases from,
{
    if s[from] == '/' {
        from
    } else {
        last_slash(s, from - 1)
    }
}

} // verus!
