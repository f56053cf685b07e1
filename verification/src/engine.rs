//! The command layer: one verified function per inbound command. Each
//! takes the community identifier and the already-separated argument
//! text, decides everything the command decides, and returns a
//! structured outcome for the transport layer to render.

use vstd::prelude::*;

use crate::config::ConfigRow;
use crate::config::ConfigStore;
use crate::config::MentionPolicy;
use crate::config::set_channel_post;
use crate::config::set_policy_post;
use crate::config::spec_channel;
use crate::config::spec_policy;
use crate::config::unique_communities;
use crate::format::format_for_pings;
use crate::format::pair_lines;
use crate::format::policy_display;
use crate::format::poll_pairs;
use crate::format::question_pairs;
use crate::format::render_listing;
use crate::format::spec_format;
use crate::format::spec_policy_display;
use crate::poll::PollBody;
use crate::poll::poll_lines_ok;
use crate::poll::validate_poll_body;
use crate::repo::ContentRepository;
use crate::repo::CuratedItem;
use crate::repo::DeletionOutcome;
use crate::repo::Record;
use crate::repo::RepoModel;
use crate::repo::actives;
use crate::repo::has_record;
use crate::repo::owned_by;
use crate::repo::repo_wf;
use crate::repo::spec_get;
use crate::repo::without_id;
use crate::select::Selection;
use crate::select::select_custom;
use crate::text::parse_dec;
use crate::text::parse_u64;
use crate::text::str_eq;
use crate::tokens::parse_channel_token;
use crate::tokens::parse_role_token;
use crate::tokens::spec_channel_mention;
use crate::tokens::spec_parse_channel;
use crate::tokens::spec_parse_role;
use crate::tokens::channel_mention;
use crate::CUSTOM_CAPACITY;

verus! {

/// The whole engine state: configuration and both content pools.
pub struct EngineModel {
    pub config: Seq<ConfigRow>,
    pub questions: RepoModel<String>,
    pub polls: RepoModel<PollBody>,
}

/// The engine: per-community configuration and the two repositories,
/// questions and polls.
pub struct Engine {
    config: ConfigStore,
    questions: ContentRepository<String>,
    polls: ContentRepository<PollBody>,
}

impl View for Engine {
    type V = EngineModel;

    closed spec fn view(&self) -> EngineModel {
        EngineModel { config: self.config@, questions: self.questions@, polls: self.polls@ }
    }
}

/// Outcome of the set-channel command.
#[derive(Clone, Copy, Debug, PartialEq, Eq, Structural)]
pub enum SetChannelOutcome {
    ChannelSet,
    InvalidChannel,
    NotInCommunity,
}

/// Outcome of the get-channel command.
#[derive(Debug, PartialEq, Eq)]
pub enum ChannelReply {
    /// The configured channel, rendered as a channel mention.
    SetTo(String),
    NotSet,
}

/// Outcome of the custom question-of-the-day command.
#[derive(Debug, PartialEq, Eq)]
pub enum CustomQotdOutcome {
    /// Deliver this text to this channel.
    Post { channel: u64, text: String },
    /// The argument is not a decimal identifier.
    InvalidId,
    /// No entry under that id is owned by the requester.
    NotFound,
    /// The community has no custom questions to draw from.
    NoCustomQuestions,
    ChannelNotSet,
}

/// Outcome of a question submission.
#[derive(Clone, Copy, Debug, PartialEq, Eq, Structural)]
pub enum SubmitOutcome {
    /// Accepted, under this identifier.
    Submitted(u64),
    /// The community's pool is at its capacity limit.
    CapacityExceeded,
    /// The body is empty.
    InvalidSubmission,
}

/// Outcome of a listing command.
#[derive(Debug, PartialEq, Eq)]
pub enum ListOutcome {
    /// The rendered listing, one line per entry.
    Listing(String),
    /// The community has no custom entries.
    Empty,
}

/// Outcome of the delete-question command.
#[derive(Debug, PartialEq, Eq)]
pub enum DeleteQuestionOutcome {
    Deleted,
    /// The id is absent or owned by another community.
    NotFound,
    /// The argument is not a decimal identifier.
    InvalidId,
    /// No id was given: the rendered listing to choose from.
    Prompt(String),
    /// No id was given and there is nothing to delete.
    NoCustomQuestions,
}

/// Outcome of the curated question-of-the-day command.
#[derive(Debug, PartialEq, Eq)]
pub enum QotdOutcome {
    /// Deliver this text to this channel.
    Post { channel: u64, text: String },
    ChannelNotSet,
    /// The curated pool has no active entry: a fatal configuration
    /// problem, never silently substituted.
    EmptyPool,
}

impl Engine {
    /// Unique configuration rows and well-formed pools.
    pub open spec fn wf(self) -> bool {
        &&& unique_communities(self@.config)
        &&& repo_wf(self@.questions)
        &&& repo_wf(self@.polls)
    }

    /// An engine over the given curated pools, with empty
    /// configuration and no custom entries.
    pub fn new(
        curated_questions: Vec<CuratedItem<String>>,
        curated_polls: Vec<CuratedItem<PollBody>>,
    ) -> (r: Engine)
        ensures
            r.wf(),
            r@.config =~= Seq::<ConfigRow>::empty(),
            r@.questions.curated == curated_questions@,
            r@.questions.custom =~= Seq::<Record<String>>::empty(),
            r@.questions.next_id == 1,
            r@.polls.curated == curated_polls@,
            r@.polls.custom =~= Seq::<Record<PollBody>>::empty(),
            r@.polls.next_id == 1,
    {
        Engine {
            config: ConfigStore::new(),
            questions: ContentRepository::new(curated_questions),
            polls: ContentRepository::new(curated_polls),
        }
    }

    /// Sets the delivery channel from a channel reference token, after
    /// checking that the referenced channel is one of the requesting
    /// community's own (`community_channels` lists them).
    pub fn set_channel(&mut self, g: u64, token: &str, community_channels: &Vec<u64>) -> (r:
        SetChannelOutcome)
        requires
            old(self).wf(),
        ensures
            final(self).wf(),
            spec_parse_channel(token@) is None ==> r == SetChannelOutcome::InvalidChannel
                && final(self)@ == old(self)@,
            spec_parse_channel(token@) matches Some(cid) ==> {
                &&& !community_channels@.contains(cid) ==> r == SetChannelOutcome::NotInCommunity
                    && final(self)@ == old(self)@
                &&& community_channels@.contains(cid) ==> r == SetChannelOutcome::ChannelSet
                    && set_channel_post(old(self)@.config, final(self)@.config, g, cid)
                    && final(self)@.questions == old(self)@.questions
                    && final(self)@.polls == old(self)@.polls
            },
    {
        let cid = match parse_channel_token(token) {
            Some(cid) => cid,
            None => {
                return SetChannelOutcome::InvalidChannel;
            },
        };
        if !vec_contains(community_channels, cid) {
            return SetChannelOutcome::NotInCommunity;
        }
        let _ = self.config.set_channel(g, cid);
        SetChannelOutcome::ChannelSet
    }

    /// The mention policy configured for `g`; no ping when unset.
    pub fn mention_policy_of(&self, g: u64) -> (r: MentionPolicy)
        ensures
            r == spec_policy(self@.config, g),
    {
        self.config.get_mention_policy(g)
    }

    /// Reports the configured delivery channel as a mention token, or
    /// that none is set.
    pub fn channel(&self, g: u64) -> (r: ChannelReply)
        ensures
            spec_channel(self@.config, g) is None ==> r == ChannelReply::NotSet,
            spec_channel(self@.config, g) matches Some(c) ==> (r matches ChannelReply::SetTo(m)
                && m@ == spec_channel_mention(c as int)),
    {
        match self.config.get_channel(g) {
            Some(c) => ChannelReply::SetTo(channel_mention(c)),
            None => ChannelReply::NotSet,
        }
    }

    /// The question-of-the-day command: draws an active curated
    /// question, prefixes the community's mention, and addresses it to
    /// the community's channel. An empty curated pool is fatal; an
    /// unset channel is reported.
    pub fn qotd(&self, g: u64, entropy: u64) -> (r: QotdOutcome)
        ensures
            actives(self@.questions.curated).len() == 0 ==> r == QotdOutcome::EmptyPool,
            actives(self@.questions.curated).len() > 0 && spec_channel(self@.config, g) is None
                ==> r == QotdOutcome::ChannelNotSet,
            actives(self@.questions.curated).len() > 0 ==> (spec_channel(self@.config, g)
                matches Some(c) ==> (r matches QotdOutcome::Post { channel, text } && channel == c
                && text@ == spec_format(
                spec_policy(self@.config, g),
                actives(self@.questions.curated)[entropy as int % actives(
                    self@.questions.curated,
                ).len() as int].body@,
            ))),
    {
        let q = match self.questions.random_curated(entropy) {
            Ok(b) => b,
            Err(_) => {
                return QotdOutcome::EmptyPool;
            },
        };
        let c = match self.config.get_channel(g) {
            Some(c) => c,
            None => {
                return QotdOutcome::ChannelNotSet;
            },
        };
        let policy = self.config.get_mention_policy(g);
        let text = format_for_pings(policy, q.as_str());
        QotdOutcome::Post { channel: c, text }
    }

    /// The custom question-of-the-day command: a given id is looked
    /// up, an absent argument draws from the community's own entries,
    /// and the selected question is addressed to the community's
    /// channel with its mention prefixed.
    pub fn custom_qotd(&self, g: u64, arg: Option<&str>, entropy: u64) -> (r: CustomQotdOutcome)
        ensures
            arg matches Some(t) ==> {
                &&& parse_dec(t@) is None ==> r == CustomQotdOutcome::InvalidId
                &&& parse_dec(t@) matches Some(id) ==> {
                    &&& spec_get(self@.questions.custom, g, id) is None ==> r
                        == CustomQotdOutcome::NotFound
                    &&& spec_get(self@.questions.custom, g, id) matches Some(q) ==> {
                        &&& spec_channel(self@.config, g) is None ==> r
                            == CustomQotdOutcome::ChannelNotSet
                        &&& spec_channel(self@.config, g) matches Some(c) ==> (r matches
                            CustomQotdOutcome::Post { channel, text } && channel == c && text@
                            == spec_format(spec_policy(self@.config, g), q@))
                    }
                }
            },
            arg is None ==> {
                &&& owned_by(self@.questions.custom, g).len() == 0 ==> r
                    == CustomQotdOutcome::NoCustomQuestions
                &&& owned_by(self@.questions.custom, g).len() > 0 ==> {
                    &&& spec_channel(self@.config, g) is None ==> r
                        == CustomQotdOutcome::ChannelNotSet
                    &&& spec_channel(self@.config, g) matches Some(c) ==> (r matches
                        CustomQotdOutcome::Post { channel, text } && channel == c && text@
                        == spec_format(
                        spec_policy(self@.config, g),
                        owned_by(self@.questions.custom, g)[entropy as int % owned_by(
                            self@.questions.custom,
                            g,
                        ).len() as int].body@,
                    ))
                }
            },
    {
        let sel = match arg {
            Some(t) => match parse_u64(t) {
                Some(id) => select_custom(&self.questions, g, Some(id), entropy),
                None => {
                    return CustomQotdOutcome::InvalidId;
                },
            },
            None => select_custom(&self.questions, g, None, entropy),
        };
        let q = match sel {
            Selection::Chosen(b) => b,
            Selection::NotFoundById => {
                return CustomQotdOutcome::NotFound;
            },
            Selection::NoCustomContent => {
                return CustomQotdOutcome::NoCustomQuestions;
            },
        };
        let c = match self.config.get_channel(g) {
            Some(c) => c,
            None => {
                return CustomQotdOutcome::ChannelNotSet;
            },
        };
        let policy = self.config.get_mention_policy(g);
        let text = format_for_pings(policy, q.as_str());
        CustomQotdOutcome::Post { channel: c, text }
    }

    /// Accepts a community's question submission: a non-empty body,
    /// stored under the next identifier unless the community's pool is
    /// at its capacity limit.
    pub fn submit_qotd(&mut self, g: u64, body: &str) -> (r: SubmitOutcome)
        requires
            old(self).wf(),
            old(self)@.questions.next_id < u64::MAX,
        ensures
            final(self).wf(),
            body@.len() == 0 ==> r == SubmitOutcome::InvalidSubmission && final(self)@ == old(self)@,
            body@.len() > 0 ==> {
                &&& owned_by(old(self)@.questions.custom, g).len() >= CUSTOM_CAPACITY ==> r
                    == SubmitOutcome::CapacityExceeded && final(self)@ == old(self)@
                &&& owned_by(old(self)@.questions.custom, g).len() < CUSTOM_CAPACITY ==> {
                    &&& r == SubmitOutcome::Submitted(old(self)@.questions.next_id)
                    &&& final(self)@.questions.custom.len() == old(self)@.questions.custom.len()
                        + 1
                    &&& final(self)@.questions.custom.drop_last() == old(self)@.questions.custom
                    &&& final(self)@.questions.custom.last().id == old(self)@.questions.next_id
                    &&& final(self)@.questions.custom.last().owner == g
                    &&& final(self)@.questions.custom.last().body@ == body@
                    &&& final(self)@.questions.next_id == old(self)@.questions.next_id + 1
                    &&& final(self)@.questions.curated == old(self)@.questions.curated
                    &&& final(self)@.polls == old(self)@.polls
                    &&& final(self)@.config == old(self)@.config
                }
            },
    {
        if body.is_empty() {
            return SubmitOutcome::InvalidSubmission;
        }
        let stored = body.to_owned();
        match self.questions.submit_custom(g, stored) {
            Ok(id) => {
                proof {
                    assert(final(self)@.questions.custom.drop_last() =~= old(self)@.questions.custom);
                }
                SubmitOutcome::Submitted(id)
            },
            Err(_) => SubmitOutcome::CapacityExceeded,
        }
    }

    /// Lists the community's own questions, ordered by id, as rendered
    /// text under a header line.
    pub fn list_qotd(&self, g: u64) -> (r: ListOutcome)
        ensures
            owned_by(self@.questions.custom, g).len() == 0 ==> r == ListOutcome::Empty,
            owned_by(self@.questions.custom, g).len() > 0 ==> (r matches ListOutcome::Listing(text)
                && text@ == "ID - Question\n"@ + pair_lines(
                question_pairs(owned_by(self@.questions.custom, g)),
            )),
    {
        let items = self.questions.list_custom(g);
        if items.len() == 0 {
            return ListOutcome::Empty;
        }
        let text = render_listing("ID - Question\n", &items);
        proof {
            assert(Seq::new(items@.len(), |k: int| (items@[k].0, items@[k].1@)) =~~= question_pairs(
                owned_by(self@.questions.custom, g),
            ));
        }
        ListOutcome::Listing(text)
    }

    /// The delete-question command: with an id, deletes the entry only
    /// if the requester owns it; without one, renders the requester's
    /// own entries to choose from.
    pub fn delete_question(&mut self, g: u64, arg: Option<&str>) -> (r: DeleteQuestionOutcome)
        requires
            old(self).wf(),
        ensures
            final(self).wf(),
            arg matches Some(t) ==> {
                &&& parse_dec(t@) is None ==> r == DeleteQuestionOutcome::InvalidId && final(self)@
                    == old(self)@
                &&& parse_dec(t@) matches Some(id) ==> {
                    &&& has_record(old(self)@.questions.custom, g, id) ==> r
                        == DeleteQuestionOutcome::Deleted && final(self)@.questions.custom
                        == without_id(old(self)@.questions.custom, id)
                        && final(self)@.questions.curated == old(self)@.questions.curated
                        && final(self)@.questions.next_id == old(self)@.questions.next_id
                        && final(self)@.polls == old(self)@.polls && final(self)@.config == old(self)@.config
                    &&& !has_record(old(self)@.questions.custom, g, id) ==> r
                        == DeleteQuestionOutcome::NotFound && final(self)@ == old(self)@
                }
            },
            arg is None ==> final(self)@ == old(self)@ && {
                &&& owned_by(old(self)@.questions.custom, g).len() == 0 ==> r
                    == DeleteQuestionOutcome::NoCustomQuestions
                &&& owned_by(old(self)@.questions.custom, g).len() > 0 ==> (r matches
                    DeleteQuestionOutcome::Prompt(text) && text@ == "ID - Question\n"@ + pair_lines(
                    question_pairs(owned_by(old(self)@.questions.custom, g)),
                ))
            },
    {
        match arg {
            Some(t) => {
                let id = match parse_u64(t) {
                    Some(id) => id,
                    None => {
                        return DeleteQuestionOutcome::InvalidId;
                    },
                };
                match self.questions.delete_custom(g, id) {
                    DeletionOutcome::Deleted => DeleteQuestionOutcome::Deleted,
                    DeletionOutcome::NotFoundOrNotOwned => DeleteQuestionOutcome::NotFound,
                }
            },
            None => {
                let items = self.questions.list_custom(g);
                if items.len() == 0 {
                    return DeleteQuestionOutcome::NoCustomQuestions;
                }
                let text = render_listing("ID - Question\n", &items);
                proof {
                    assert(Seq::new(items@.len(), |k: int| (items@[k].0, items@[k].1@))
                        =~~= question_pairs(owned_by(self@.questions.custom, g)));
                }
                DeleteQuestionOutcome::Prompt(text)
            },
        }
    }

    /// The ping-role command: `0` turns pings off, `1` pings everyone,
    /// a role token pings that role, and no argument reports the
    /// current setting in its stored form.
    pub fn ping_role(&mut self, g: u64, arg: Option<&str>) -> (r: PingRoleOutcome)
        requires
            old(self).wf(),
        ensures
            final(self).wf(),
            arg is None ==> final(self)@ == old(self)@ && (r matches PingRoleOutcome::Show(text)
                && text@ == spec_policy_display(spec_policy(old(self)@.config, g))),
            arg matches Some(t) ==> {
                &&& t@ == "0"@ ==> r == PingRoleOutcome::Updated && set_policy_post(
                    old(self)@.config,
                    final(self)@.config,
                    g,
                    MentionPolicy::NoPing,
                ) && final(self)@.questions == old(self)@.questions && final(self)@.polls == old(self)@.polls
                &&& t@ == "1"@ ==> r == PingRoleOutcome::Updated && set_policy_post(
                    old(self)@.config,
                    final(self)@.config,
                    g,
                    MentionPolicy::Everyone,
                ) && final(self)@.questions == old(self)@.questions && final(self)@.polls == old(self)@.polls
                &&& t@ != "0"@ && t@ != "1"@ ==> {
                    &&& spec_parse_role(t@) is None ==> r == PingRoleOutcome::InvalidRole && final(self)@ == old(self)@
                    &&& spec_parse_role(t@) matches Some(rid) ==> r == PingRoleOutcome::Updated
                        && set_policy_post(
                        old(self)@.config,
                        final(self)@.config,
                        g,
                        MentionPolicy::Role(rid),
                    ) && final(self)@.questions == old(self)@.questions && final(self)@.polls
                        == old(self)@.polls
                }
            },
    {
        proof {
            reveal_strlit("0");
            reveal_strlit("1");
            assert("0"@ != "1"@) by {
                assert("0"@[0] != "1"@[0]);
            }
        }
        let t = match arg {
            Some(t) => t,
            None => {
                let current = self.config.get_mention_policy(g);
                return PingRoleOutcome::Show(policy_display(current));
            },
        };
        if str_eq(t, "0") {
            let _ = self.config.set_mention_policy(g, MentionPolicy::NoPing);
            return PingRoleOutcome::Updated;
        }
        if str_eq(t, "1") {
            let _ = self.config.set_mention_policy(g, MentionPolicy::Everyone);
            return PingRoleOutcome::Updated;
        }
        match parse_role_token(t) {
            Some(rid) => {
                let _ = self.config.set_mention_policy(g, MentionPolicy::Role(rid));
                PingRoleOutcome::Updated
            },
            None => PingRoleOutcome::InvalidRole,
        }
    }

    /// The poll-of-the-day command: draws an active curated poll and
    /// addresses the announcement line, with the community's mention
    /// prefixed, to the community's channel along with the poll.
    pub fn poll(&self, g: u64, entropy: u64) -> (r: PollOutcome)
        ensures
            actives(self@.polls.curated).len() == 0 ==> r == PollOutcome::EmptyPool,
            actives(self@.polls.curated).len() > 0 && spec_channel(self@.config, g) is None ==> r
                == PollOutcome::ChannelNotSet,
            actives(self@.polls.curated).len() > 0 ==> (spec_channel(self@.config, g) matches Some(
                c,
            ) ==> (r matches PollOutcome::Post { channel, text, poll } && channel == c && text@
                == spec_format(spec_policy(self@.config, g), "Poll of the day!"@) && poll == actives(
                self@.polls.curated,
            )[entropy as int % actives(self@.polls.curated).len() as int].body)),
    {
        let p = match self.polls.random_curated(entropy) {
            Ok(b) => b,
            Err(_) => {
                return PollOutcome::EmptyPool;
            },
        };
        let c = match self.config.get_channel(g) {
            Some(c) => c,
            None => {
                return PollOutcome::ChannelNotSet;
            },
        };
        let policy = self.config.get_mention_policy(g);
        let text = format_for_pings(policy, "Poll of the day!");
        PollOutcome::Post { channel: c, text, poll: p.duplicate() }
    }

    /// Accepts a community's poll submission: a body of exactly three
    /// non-empty lines, stored under the next identifier unless the
    /// community's pool is at its capacity limit. A malformed body is
    /// rejected before any repository is consulted.
    pub fn submit_poll(&mut self, g: u64, body: &str) -> (r: SubmitPollOutcome)
        requires
            old(self).wf(),
            old(self)@.polls.next_id < u64::MAX,
        ensures
            final(self).wf(),
            !(exists|i: int, j: int| #[trigger] poll_lines_ok(body@, i, j)) ==> r
                == SubmitPollOutcome::WrongFormat && final(self)@ == old(self)@,
            (exists|i: int, j: int| #[trigger] poll_lines_ok(body@, i, j)) ==> {
                &&& owned_by(old(self)@.polls.custom, g).len() >= CUSTOM_CAPACITY ==> r
                    == SubmitPollOutcome::CapacityExceeded && final(self)@ == old(self)@
                &&& owned_by(old(self)@.polls.custom, g).len() < CUSTOM_CAPACITY ==> {
                    &&& r == SubmitPollOutcome::Submitted(old(self)@.polls.next_id)
                    &&& final(self)@.polls.custom.len() == old(self)@.polls.custom.len() + 1
                    &&& final(self)@.polls.custom.drop_last() == old(self)@.polls.custom
                    &&& final(self)@.polls.custom.last().id == old(self)@.polls.next_id
                    &&& final(self)@.polls.custom.last().owner == g
                    &&& forall|i: int, j: int|
                        #[trigger] poll_lines_ok(body@, i, j) ==> final(self)@.polls.custom.last().body.prompt@ == body@.subrange(0, i) && final(self)@.polls.custom.last().body.option_a@ == body@.subrange(i + 1, j) && final(self)@.polls.custom.last().body.option_b@ == body@.subrange(
                            j + 1,
                            body@.len() as int,
                        )
                    &&& final(self)@.polls.next_id == old(self)@.polls.next_id + 1
                    &&& final(self)@.polls.curated == old(self)@.polls.curated
                    &&& final(self)@.questions == old(self)@.questions
                    &&& final(self)@.config == old(self)@.config
                }
            },
    {
        let p = match validate_poll_body(body) {
            Some(p) => p,
            None => {
                return SubmitPollOutcome::WrongFormat;
            },
        };
        match self.polls.submit_custom(g, p) {
            Ok(id) => {
                proof {
                    assert(final(self)@.polls.custom.drop_last() =~= old(self)@.polls.custom);
                }
                SubmitPollOutcome::Submitted(id)
            },
            Err(_) => SubmitPollOutcome::CapacityExceeded,
        }
    }

    /// The custom poll command: a given id is looked up, an absent
    /// argument draws from the community's own polls, and the
    /// announcement line plus the poll are addressed to the
    /// community's channel.
    pub fn custom_poll(&self, g: u64, arg: Option<&str>, entropy: u64) -> (r: CustomPollOutcome)
        ensures
            arg matches Some(t) ==> {
                &&& parse_dec(t@) is None ==> r == CustomPollOutcome::InvalidId
                &&& parse_dec(t@) matches Some(id) ==> {
                    &&& spec_get(self@.polls.custom, g, id) is None ==> r
                        == CustomPollOutcome::NotFound
                    &&& spec_get(self@.polls.custom, g, id) matches Some(p) ==> {
                        &&& spec_channel(self@.config, g) is None ==> r
                            == CustomPollOutcome::ChannelNotSet
                        &&& spec_channel(self@.config, g) matches Some(c) ==> (r matches
                            CustomPollOutcome::Post { channel, text, poll } && channel == c
                            && text@ == spec_format(
                            spec_policy(self@.config, g),
                            "Poll of the day!"@,
                        ) && poll == p)
                    }
                }
            },
            arg is None ==> {
                &&& owned_by(self@.polls.custom, g).len() == 0 ==> r
                    == CustomPollOutcome::NoCustomPolls
                &&& owned_by(self@.polls.custom, g).len() > 0 ==> {
                    &&& spec_channel(self@.config, g) is None ==> r
                        == CustomPollOutcome::ChannelNotSet
                    &&& spec_channel(self@.config, g) matches Some(c) ==> (r matches
                        CustomPollOutcome::Post { channel, text, poll } && channel == c && text@
                        == spec_format(spec_policy(self@.config, g), "Poll of the day!"@) && poll
                        == owned_by(self@.polls.custom, g)[entropy as int % owned_by(
                        self@.polls.custom,
                        g,
                    ).len() as int].body)
                }
            },
    {
        let sel = match arg {
            Some(t) => match parse_u64(t) {
                Some(id) => select_custom(&self.polls, g, Some(id), entropy),
                None => {
                    return CustomPollOutcome::InvalidId;
                },
            },
            None => select_custom(&self.polls, g, None, entropy),
        };
        let p = match sel {
            Selection::Chosen(b) => b,
            Selection::NotFoundById => {
                return CustomPollOutcome::NotFound;
            },
            Selection::NoCustomContent => {
                return CustomPollOutcome::NoCustomPolls;
            },
        };
        let c = match self.config.get_channel(g) {
            Some(c) => c,
            None => {
                return CustomPollOutcome::ChannelNotSet;
            },
        };
        let policy = self.config.get_mention_policy(g);
        let text = format_for_pings(policy, "Poll of the day!");
        CustomPollOutcome::Post { channel: c, text, poll: p.duplicate() }
    }

    /// Lists the community's own polls by id and prompt, ordered by
    /// id, as rendered text under a header line.
    pub fn list_polls(&self, g: u64) -> (r: ListOutcome)
        ensures
            owned_by(self@.polls.custom, g).len() == 0 ==> r == ListOutcome::Empty,
            owned_by(self@.polls.custom, g).len() > 0 ==> (r matches ListOutcome::Listing(text)
                && text@ == "ID - Poll Question\n"@ + pair_lines(
                poll_pairs(owned_by(self@.polls.custom, g)),
            )),
    {
        let items = self.polls.list_custom(g);
        if items.len() == 0 {
            return ListOutcome::Empty;
        }
        let mut prompts: Vec<(u64, &String)> = Vec::new();
        let len = items.len();
        let mut i: usize = 0;
        while i < len
            invariant
                0 <= i <= len,
                len == items@.len(),
                prompts@.len() == i,
                forall|k: int|
                    0 <= k < i ==> (#[trigger] prompts@[k]).0 == items@[k].0 && prompts@[k].1
                        == &items@[k].1.prompt,
            decreases len - i,
        {
            let entry = items[i];
            prompts.push((entry.0, &entry.1.prompt));
            i = i + 1;
        }
        let text = render_listing("ID - Poll Question\n", &prompts);
        proof {
            assert(Seq::new(prompts@.len(), |k: int| (prompts@[k].0, prompts@[k].1@)) =~~= poll_pairs(
                owned_by(self@.polls.custom, g),
            ));
        }
        ListOutcome::Listing(text)
    }
}

/// Outcome of the ping-role command.
#[derive(Debug, PartialEq, Eq)]
pub enum PingRoleOutcome {
    Updated,
    /// The argument is neither a preset nor a role token.
    InvalidRole,
    /// No argument was given: the current setting, rendered.
    Show(String),
}

/// Outcome of the curated poll-of-the-day command.
#[derive(Debug, PartialEq, Eq)]
pub enum PollOutcome {
    /// Deliver the announcement text and this poll to this channel.
    Post { channel: u64, text: String, poll: PollBody },
    ChannelNotSet,
    /// The curated pool has no active entry: a fatal configuration
    /// problem, never silently substituted.
    EmptyPool,
}

/// Outcome of a poll submission.
#[derive(Clone, Copy, Debug, PartialEq, Eq, Structural)]
pub enum SubmitPollOutcome {
    /// Accepted, under this identifier.
    Submitted(u64),
    /// The community's pool is at its capacity limit.
    CapacityExceeded,
    /// The body does not decompose into three non-empty lines.
    WrongFormat,
}

/// Outcome of the custom poll command.
#[derive(Debug, PartialEq, Eq)]
pub enum CustomPollOutcome {
    /// Deliver the announcement text and this poll to this channel.
    Post { channel: u64, text: String, poll: PollBody },
    /// The argument is not a decimal identifier.
    InvalidId,
    /// No entry under that id is owned by the requester.
    NotFound,
    /// The community has no custom polls to draw from.
    NoCustomPolls,
    ChannelNotSet,
}

/// Whether a vector holds the given identifier.
fn vec_contains(v: &Vec<u64>, x: u64) -> (r: bool)
    ensures
        r == v@.contains(x),
{
    let mut i: usize = 0;
    let len = v.len();
    while i < len
        invariant
            0 <= i <= len,
            len == v@.len(),
            forall|j: int| 0 <= j < i ==> v@[j] != x,
        decreases len - i,
    {
        if v[i] == x {
            return true;
        }
        i = i + 1;
    }
    false
}

} // verus!
