//! Mention tokens: the argument syntax for channel and role references
//! (`<#1234>`, `<@&1234>`) and the rendering of identifiers back into
//! that syntax for outbound text.

use vstd::prelude::*;
use vstd::string::StrSliceExecFns;
use vstd::string::StringExecFns;

use crate::text::parse_dec;
use crate::text::parse_u64;
use crate::text::spec_dec;
use crate::text::u64_to_dec;

verus! {

/// `s` is shaped like a mention token: the given prefix, at least one
/// inner character, and a closing `'>'`.
pub open spec fn is_mention(s: Seq<char>, prefix: Seq<char>) -> bool {
    &&& s.len() >= prefix.len() + 2
    &&& s.subrange(0, prefix.len() as int) == prefix
    &&& s[s.len() - 1] == '>'
}

/// The characters of a mention token between its prefix and the
/// closing `'>'`.
pub open spec fn mention_inner(s: Seq<char>, prefix_len: int) -> Seq<char> {
    s.subrange(prefix_len, s.len() - 1)
}

/// The identifier a mention token denotes: defined exactly when the
/// token has the mention shape and its inner characters denote a
/// number.
pub open spec fn spec_parse_mention(s: Seq<char>, prefix: Seq<char>) -> Option<u64> {
    if is_mention(s, prefix) {
        parse_dec(mention_inner(s, prefix.len() as int))
    } else {
        None
    }
}

/// The channel identifier a `<#1234>` token denotes.
pub open spec fn spec_parse_channel(s: Seq<char>) -> Option<u64> {
    spec_parse_mention(s, "<#"@)
}

/// The role identifier a `<@&1234>` token denotes.
pub open spec fn spec_parse_role(s: Seq<char>) -> Option<u64> {
    spec_parse_mention(s, "<@&"@)
}

/// Parses a token of the form `prefix` + digits + `'>'`.
fn parse_mention(s: &str, prefix: &str) -> (r: Option<u64>)
    requires
        prefix@.len() <= 8,
    ensures
        r == spec_parse_mention(s@, prefix@),
{
    let plen = prefix.unicode_len();
    let slen = s.unicode_len();
    if slen < plen + 2 {
        return None;
    }
    let mut i: usize = 0;
    while i < plen
        invariant
            0 <= i <= plen,
            plen == prefix@.len(),
            slen == s@.len(),
            slen >= plen + 2,
            forall|j: int| 0 <= j < i ==> s@[j] == prefix@[j],
        decreases plen - i,
    {
        if s.get_char(i) != prefix.get_char(i) {
            proof {
                assert(s@.subrange(0, plen as int)[i as int] != prefix@[i as int]);
            }
            return None;
        }
        i = i + 1;
    }
    if s.get_char(slen - 1) != '>' {
        return None;
    }
    let inner = s.substring_char(plen, slen - 1);
    proof {
        assert(s@.subrange(0, plen as int) =~= prefix@);
        assert(inner@ == mention_inner(s@, plen as int));
    }
    parse_u64(inner)
}

/// Parses a channel reference token, `<#` + digits + `>`.
pub fn parse_channel_token(s: &str) -> (r: Option<u64>)
    ensures
        r == spec_parse_channel(s@),
{
    proof {
        reveal_strlit("<#");
    }
    parse_mention(s, "<#")
}

/// Parses a role reference token, `<@&` + digits + `>`.
pub fn parse_role_token(s: &str) -> (r: Option<u64>)
    ensures
        r == spec_parse_role(s@),
{
    proof {
        reveal_strlit("<@&");
    }
    parse_mention(s, "<@&")
}

/// The rendered channel mention for an identifier.
pub open spec fn spec_channel_mention(id: int) -> Seq<char> {
    "<#"@ + spec_dec(id) + ">"@
}

/// The rendered role mention for an identifier.
pub open spec fn spec_role_mention(id: int) -> Seq<char> {
    "<@&"@ + spec_dec(id) + ">"@
}

/// Round trip: a rendered mention token parses back to the identifier
/// it was rendered from.
pub proof fn lemma_mention_round_trip(id: u64)
    ensures
        spec_parse_channel(spec_channel_mention(id as int)) == Some(id),
        spec_parse_role(spec_role_mention(id as int)) == Some(id),
{
    reveal_strlit("<#");
    reveal_strlit("<@&");
    reveal_strlit(">");
    crate::text::lemma_spec_dec_digits(id as int);
    let d = spec_dec(id as int);
    let c = spec_channel_mention(id as int);
    assert(c.subrange(0, 2) =~= "<#"@);
    assert(c[c.len() - 1] == '>');
    assert(mention_inner(c, 2) =~= d);
    crate::text::lemma_dec_round_trip(id);
    let r = spec_role_mention(id as int);
    assert(r.subrange(0, 3) =~= "<@&"@);
    assert(r[r.len() - 1] == '>');
    assert(mention_inner(r, 3) =~= d);
}

/// Renders a channel identifier as a channel mention.
pub fn channel_mention(id: u64) -> (r: String)
    ensures
        r@ == spec_channel_mention(id as int),
{
    let mut s = "<#".to_owned();
    let digits = u64_to_dec(id);
    s.append(digits.as_str());
    s.append(">");
    s
}

/// Renders a role identifier as a role mention.
pub fn role_mention(id: u64) -> (r: String)
    ensures
        r@ == spec_role_mention(id as int),
{
    let mut s = "<@&".to_owned();
    let digits = u64_to_dec(id);
    s.append(digits.as_str());
    s.append(">");
    s
}

} // verus!
