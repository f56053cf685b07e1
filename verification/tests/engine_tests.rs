use qotd_core::engine::ChannelReply;
use qotd_core::engine::CustomPollOutcome;
use qotd_core::engine::CustomQotdOutcome;
use qotd_core::engine::DeleteQuestionOutcome;
use qotd_core::engine::Engine;
use qotd_core::engine::ListOutcome;
use qotd_core::engine::PingRoleOutcome;
use qotd_core::engine::PollOutcome;
use qotd_core::engine::QotdOutcome;
use qotd_core::engine::SetChannelOutcome;
use qotd_core::engine::SubmitOutcome;
use qotd_core::engine::SubmitPollOutcome;
use qotd_core::poll::PollBody;
use qotd_core::repo::CuratedItem;

fn engine_with_curated() -> Engine {
    let mut questions = Vec::new();
    questions.push(CuratedItem { id: 1, body: String::from("What's up?"), active: true });
    let mut polls = Vec::new();
    polls.push(CuratedItem {
        id: 1,
        body: PollBody {
            prompt: String::from("Tea or coffee?"),
            option_a: String::from("Tea"),
            option_b: String::from("Coffee"),
        },
        active: true,
    });
    Engine::new(questions, polls)
}

fn bare_engine() -> Engine {
    Engine::new(Vec::new(), Vec::new())
}

#[test]
fn set_channel_accepts_a_known_channel() {
    let mut e = bare_engine();
    let channels = vec![42, 43];
    assert_eq!(e.set_channel(1, "<#42>", &channels), SetChannelOutcome::ChannelSet);
    match e.channel(1) {
        ChannelReply::SetTo(m) => assert_eq!(m.as_str(), "<#42>"),
        other => panic!("unexpected reply: {:?}", other),
    }
}

#[test]
fn set_channel_rejects_bad_tokens() {
    let mut e = bare_engine();
    let channels = vec![42];
    assert_eq!(e.set_channel(1, "42", &channels), SetChannelOutcome::InvalidChannel);
    assert_eq!(e.set_channel(1, "<#nope>", &channels), SetChannelOutcome::InvalidChannel);
    assert_eq!(e.channel(1), ChannelReply::NotSet);
}

#[test]
fn set_channel_rejects_foreign_channels() {
    let mut e = bare_engine();
    let channels = vec![42];
    assert_eq!(e.set_channel(1, "<#99>", &channels), SetChannelOutcome::NotInCommunity);
    assert_eq!(e.channel(1), ChannelReply::NotSet);
}

#[test]
fn qotd_needs_a_channel() {
    let e = engine_with_curated();
    assert_eq!(e.qotd(1, 0), QotdOutcome::ChannelNotSet);
}

#[test]
fn qotd_empty_pool_is_fatal() {
    let mut e = bare_engine();
    let channels = vec![42];
    assert_eq!(e.set_channel(1, "<#42>", &channels), SetChannelOutcome::ChannelSet);
    assert_eq!(e.qotd(1, 0), QotdOutcome::EmptyPool);
}

#[test]
fn qotd_posts_with_mention() {
    let mut e = engine_with_curated();
    let channels = vec![42];
    assert_eq!(e.set_channel(1, "<#42>", &channels), SetChannelOutcome::ChannelSet);
    assert_eq!(e.ping_role(1, Some("1")), PingRoleOutcome::Updated);
    match e.qotd(1, 7) {
        QotdOutcome::Post { channel, text } => {
            assert_eq!(channel, 42);
            assert_eq!(text.as_str(), "@everyone What's up?");
        },
        other => panic!("unexpected outcome: {:?}", other),
    }
}

#[test]
fn submit_and_fetch_custom_question() {
    let mut e = bare_engine();
    let channels = vec![42];
    assert_eq!(e.set_channel(1, "<#42>", &channels), SetChannelOutcome::ChannelSet);
    assert_eq!(e.submit_qotd(1, "Favourite book?"), SubmitOutcome::Submitted(1));
    match e.custom_qotd(1, Some("1"), 0) {
        CustomQotdOutcome::Post { channel, text } => {
            assert_eq!(channel, 42);
            assert_eq!(text.as_str(), "Favourite book?");
        },
        other => panic!("unexpected outcome: {:?}", other),
    }
}

#[test]
fn custom_qotd_outcomes_are_distinct() {
    let mut e = bare_engine();
    assert_eq!(e.custom_qotd(1, Some("oops"), 0), CustomQotdOutcome::InvalidId);
    assert_eq!(e.custom_qotd(1, Some("5"), 0), CustomQotdOutcome::NotFound);
    assert_eq!(e.custom_qotd(1, None, 0), CustomQotdOutcome::NoCustomQuestions);
    assert_eq!(e.submit_qotd(1, "Q"), SubmitOutcome::Submitted(1));
    assert_eq!(e.custom_qotd(1, None, 0), CustomQotdOutcome::ChannelNotSet);
}

#[test]
fn empty_submission_is_rejected() {
    let mut e = bare_engine();
    assert_eq!(e.submit_qotd(1, ""), SubmitOutcome::InvalidSubmission);
}

#[test]
fn delete_question_flow() {
    let mut e = bare_engine();
    assert_eq!(e.submit_qotd(1, "one"), SubmitOutcome::Submitted(1));
    assert_eq!(e.submit_qotd(1, "two"), SubmitOutcome::Submitted(2));
    assert_eq!(e.delete_question(1, Some("x")), DeleteQuestionOutcome::InvalidId);
    assert_eq!(e.delete_question(1, Some("9")), DeleteQuestionOutcome::NotFound);
    assert_eq!(e.delete_question(2, Some("1")), DeleteQuestionOutcome::NotFound);
    assert_eq!(e.delete_question(1, Some("1")), DeleteQuestionOutcome::Deleted);
    assert_eq!(e.custom_qotd(1, Some("1"), 0), CustomQotdOutcome::NotFound);
}

#[test]
fn delete_question_prompt_lists_entries() {
    let mut e = bare_engine();
    assert_eq!(e.delete_question(1, None), DeleteQuestionOutcome::NoCustomQuestions);
    assert_eq!(e.submit_qotd(1, "one"), SubmitOutcome::Submitted(1));
    match e.delete_question(1, None) {
        DeleteQuestionOutcome::Prompt(text) => {
            assert_eq!(text.as_str(), "ID - Question\n1 - one \n");
        },
        other => panic!("unexpected outcome: {:?}", other),
    }
}

#[test]
fn list_qotd_renders_in_order() {
    let mut e = bare_engine();
    assert_eq!(e.list_qotd(1), ListOutcome::Empty);
    assert_eq!(e.submit_qotd(1, "first"), SubmitOutcome::Submitted(1));
    assert_eq!(e.submit_qotd(2, "other community"), SubmitOutcome::Submitted(2));
    assert_eq!(e.submit_qotd(1, "second"), SubmitOutcome::Submitted(3));
    match e.list_qotd(1) {
        ListOutcome::Listing(text) => {
            assert_eq!(text.as_str(), "ID - Question\n1 - first \n3 - second \n");
        },
        other => panic!("unexpected outcome: {:?}", other),
    }
}

#[test]
fn ping_role_flow() {
    let mut e = bare_engine();
    match e.ping_role(1, None) {
        PingRoleOutcome::Show(text) => assert_eq!(text.as_str(), "0"),
        other => panic!("unexpected outcome: {:?}", other),
    }
    assert_eq!(e.ping_role(1, Some("1")), PingRoleOutcome::Updated);
    match e.ping_role(1, None) {
        PingRoleOutcome::Show(text) => assert_eq!(text.as_str(), "1"),
        other => panic!("unexpected outcome: {:?}", other),
    }
    assert_eq!(e.ping_role(1, Some("<@&555>")), PingRoleOutcome::Updated);
    match e.ping_role(1, None) {
        PingRoleOutcome::Show(text) => assert_eq!(text.as_str(), "<@&555>"),
        other => panic!("unexpected outcome: {:?}", other),
    }
    assert_eq!(e.ping_role(1, Some("not a role")), PingRoleOutcome::InvalidRole);
    assert_eq!(e.ping_role(1, Some("0")), PingRoleOutcome::Updated);
    match e.ping_role(1, None) {
        PingRoleOutcome::Show(text) => assert_eq!(text.as_str(), "0"),
        other => panic!("unexpected outcome: {:?}", other),
    }
}

#[test]
fn poll_posts_announcement_and_poll() {
    let mut e = engine_with_curated();
    let channels = vec![42];
    assert_eq!(e.set_channel(1, "<#42>", &channels), SetChannelOutcome::ChannelSet);
    match e.poll(1, 3) {
        PollOutcome::Post { channel, text, poll } => {
            assert_eq!(channel, 42);
            assert_eq!(text.as_str(), "Poll of the day!");
            assert_eq!(poll.prompt.as_str(), "Tea or coffee?");
            assert_eq!(poll.option_a.as_str(), "Tea");
            assert_eq!(poll.option_b.as_str(), "Coffee");
        },
        other => panic!("unexpected outcome: {:?}", other),
    }
}

#[test]
fn poll_needs_a_channel() {
    let e = engine_with_curated();
    assert_eq!(e.poll(1, 0), PollOutcome::ChannelNotSet);
}

#[test]
fn custom_poll_needs_a_channel() {
    let mut e = bare_engine();
    assert_eq!(e.submit_poll(1, "A or B?\nA\nB"), SubmitPollOutcome::Submitted(1));
    assert_eq!(e.custom_poll(1, None, 0), CustomPollOutcome::ChannelNotSet);
}

#[test]
fn poll_capacity_limit_is_enforced() {
    let mut e = bare_engine();
    for n in 0..qotd_core::CUSTOM_CAPACITY {
        let body = format!("Question {}?\nYes\nNo", n);
        assert!(matches!(e.submit_poll(1, &body), SubmitPollOutcome::Submitted(_)));
    }
    assert_eq!(e.submit_poll(1, "One more?\nYes\nNo"), SubmitPollOutcome::CapacityExceeded);
}

#[test]
fn poll_empty_pool_is_fatal() {
    let mut e = bare_engine();
    let channels = vec![42];
    assert_eq!(e.set_channel(1, "<#42>", &channels), SetChannelOutcome::ChannelSet);
    assert_eq!(e.poll(1, 0), PollOutcome::EmptyPool);
}

#[test]
fn submit_poll_validates_format_first() {
    let mut e = bare_engine();
    assert_eq!(e.submit_poll(1, "only two\nlines"), SubmitPollOutcome::WrongFormat);
    assert_eq!(e.list_polls(1), ListOutcome::Empty);
    assert_eq!(e.submit_poll(1, "Cats or dogs?\n🐱\n🐶"), SubmitPollOutcome::Submitted(1));
}

#[test]
fn custom_poll_flow() {
    let mut e = bare_engine();
    let channels = vec![42];
    assert_eq!(e.set_channel(1, "<#42>", &channels), SetChannelOutcome::ChannelSet);
    assert_eq!(e.custom_poll(1, None, 0), CustomPollOutcome::NoCustomPolls);
    assert_eq!(e.custom_poll(1, Some("2"), 0), CustomPollOutcome::NotFound);
    assert_eq!(e.custom_poll(1, Some("two"), 0), CustomPollOutcome::InvalidId);
    assert_eq!(e.submit_poll(1, "A or B?\nA\nB"), SubmitPollOutcome::Submitted(1));
    match e.custom_poll(1, Some("1"), 0) {
        CustomPollOutcome::Post { channel, text, poll } => {
            assert_eq!(channel, 42);
            assert_eq!(text.as_str(), "Poll of the day!");
            assert_eq!(poll.prompt.as_str(), "A or B?");
        },
        other => panic!("unexpected outcome: {:?}", other),
    }
    match e.custom_poll(2, Some("1"), 0) {
        CustomPollOutcome::NotFound => {},
        other => panic!("unexpected outcome: {:?}", other),
    }
}

#[test]
fn list_polls_renders_prompts() {
    let mut e = bare_engine();
    assert_eq!(e.submit_poll(1, "A or B?\nA\nB"), SubmitPollOutcome::Submitted(1));
    assert_eq!(e.submit_poll(1, "C or D?\nC\nD"), SubmitPollOutcome::Submitted(2));
    match e.list_polls(1) {
        ListOutcome::Listing(text) => {
            assert_eq!(text.as_str(), "ID - Poll Question\n1 - A or B? \n2 - C or D? \n");
        },
        other => panic!("unexpected outcome: {:?}", other),
    }
}
