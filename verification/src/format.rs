//! Outbound text composition: prefixing a message body with the
//! mention its community's policy calls for, and displaying a policy.

use vstd::prelude::*;
use vstd::string::StrSliceExecFns;
use vstd::string::StringExecFns;

use crate::config::MentionPolicy;
use crate::poll::PollBody;
use crate::repo::Record;
use crate::text::spec_dec;
use crate::text::u64_to_dec;
use crate::tokens::role_mention;
use crate::tokens::spec_role_mention;

verus! {

/// The mention text a policy puts before a message body.
pub open spec fn mention_prefix(p: MentionPolicy) -> Seq<char> {
    match p {
        MentionPolicy::NoPing => Seq::empty(),
        MentionPolicy::Everyone => "@everyone "@,
        MentionPolicy::Role(id) => spec_role_mention(id as int) + " "@,
    }
}

/// A message body with its community's mention prefixed.
pub open spec fn spec_format(p: MentionPolicy, body: Seq<char>) -> Seq<char> {
    mention_prefix(p) + body
}

/// Prefixes the message with the mention the policy calls for: nothing,
/// `@everyone`, or the configured role's mention. No validation happens
/// here; role validity was checked when the policy was stored.
pub fn format_for_pings(p: MentionPolicy, message: &str) -> (r: String)
    ensures
        r@ == spec_format(p, message@),
{
    match p {
        MentionPolicy::NoPing => {
            let r = message.to_owned();
            proof {
                assert(r@ =~= spec_format(p, message@));
            }
            r
        },
        MentionPolicy::Everyone => {
            let mut r = "@everyone ".to_owned();
            r.append(message);
            r
        },
        MentionPolicy::Role(id) => {
            let mut r = role_mention(id);
            r.append(" ");
            r.append(message);
            proof {
                assert(r@ =~= spec_format(p, message@));
            }
            r
        },
    }
}

/// The stored form of a policy: `0` for no ping, `1` for everyone, the
/// role's mention otherwise.
pub open spec fn spec_policy_display(p: MentionPolicy) -> Seq<char> {
    match p {
        MentionPolicy::NoPing => "0"@,
        MentionPolicy::Everyone => "1"@,
        MentionPolicy::Role(id) => spec_role_mention(id as int),
    }
}

/// Renders a policy for display.
pub fn policy_display(p: MentionPolicy) -> (r: String)
    ensures
        r@ == spec_policy_display(p),
{
    match p {
        MentionPolicy::NoPing => "0".to_owned(),
        MentionPolicy::Everyone => "1".to_owned(),
        MentionPolicy::Role(id) => role_mention(id),
    }
}

/// One line of a listing: the id, a separator, and the entry's text.
pub open spec fn line_text(id: u64, text: Seq<char>) -> Seq<char> {
    spec_dec(id as int) + " - "@ + text + " \n"@
}

/// The listing lines for `(id, text)` pairs, in order.
pub open spec fn pair_lines(ps: Seq<(u64, Seq<char>)>) -> Seq<char>
    decreases ps.len(),
{
    if ps.len() == 0 {
        Seq::empty()
    } else {
        pair_lines(ps.drop_last()) + line_text(ps.last().0, ps.last().1)
    }
}

/// The `(id, text)` pairs of a community's question entries.
pub open spec fn question_pairs(rs: Seq<Record<String>>) -> Seq<(u64, Seq<char>)> {
    Seq::new(rs.len(), |k: int| (rs[k].id, rs[k].body@))
}

/// The `(id, prompt)` pairs of a community's poll entries.
pub open spec fn poll_pairs(rs: Seq<Record<PollBody>>) -> Seq<(u64, Seq<char>)> {
    Seq::new(rs.len(), |k: int| (rs[k].id, rs[k].body.prompt@))
}

/// Renders a header line followed by one listing line per entry.
pub fn render_listing(header: &str, items: &Vec<(u64, &String)>) -> (r: String)
    ensures
        r@ == header@ + pair_lines(
            Seq::new(items@.len(), |k: int| (items@[k].0, items@[k].1@)),
        ),
{
    let ghost ps = Seq::new(items@.len(), |k: int| (items@[k].0, items@[k].1@));
    let mut out = header.to_owned();
    let len = items.len();
    let mut i: usize = 0;
    proof {
        assert(ps.take(0) =~= Seq::<(u64, Seq<char>)>::empty());
        assert(out@ =~= header@ + pair_lines(ps.take(0)));
    }
    while i < len
        invariant
            0 <= i <= len,
            len == items@.len(),
            ps == Seq::new(items@.len(), |k: int| (items@[k].0, items@[k].1@)),
            out@ == header@ + pair_lines(ps.take(i as int)),
        decreases len - i,
    {
        let entry = items[i];
        let digits = u64_to_dec(entry.0);
        out.append(digits.as_str());
        out.append(" - ");
        out.append(entry.1.as_str());
        out.append(" \n");
        proof {
            assert(ps.take(i + 1).drop_last() =~= ps.take(i as int));
            assert(ps.take(i + 1).last() == ps[i as int]);
            assert(out@ =~= header@ + pair_lines(ps.take(i + 1)));
        }
        i = i + 1;
    }
    proof {
        assert(ps.take(len as int) =~= ps);
    }
    out
}

} // verus!
