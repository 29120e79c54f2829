use prompt_session::backend::{CompletionRequest, ConversationTurn, Role};
use prompt_session::onboarding::{
    banners, format_general_answers, gather_answers, general_questions, generate_questions,
    is_vague, parse_questions, verdict_is_vague, Onboarding, OnboardingAction, OnboardingEvent,
    Stage, Vagueness,
};
use prompt_session::profile::BusinessProfile;
use prompt_session::prompt::QAPair;

const LONG_DESCRIPTION: &str =
    "We are a family-run hair salon in the old town. We are a family-run hair salon in \
        the old town. We are a family-run hair salon in the old town. We are a family-run \
        hair salon in the old town. We are a family-run hair salon in the old town. We are \
        a family-run hair salon in the old town. We are a family-run hair salon in the old \
        town.";

const GENERAL_BLOCK: &str =
    "Q: What are the primary products or services your business offers? A: Haircuts and \
        colouring\nQ: How long have you been in business? A: Ten years";

fn salon(description: &str) -> BusinessProfile {
    BusinessProfile::collect("Shear Bliss", "Personal Care Services", description)
}

fn texts(items: &[&str]) -> Vec<String> {
    items.iter().map(|s| s.to_string()).collect()
}

fn pair(question: &str, answer: &str) -> QAPair {
    QAPair { question: question.to_string(), answer: answer.to_string() }
}

fn instruction(text: &str, max_tokens: u16) -> CompletionRequest {
    CompletionRequest {
        model: "gpt-3.5-turbo".to_string(),
        max_tokens,
        messages: vec![ConversationTurn { role: Role::System, content: text.to_string() }],
    }
}

/// A backend that counts how often it is asked, and never answers.
struct CountingBackend {
    calls: usize,
}

impl CountingBackend {
    fn ask(&mut self, _request: &CompletionRequest) {
        self.calls += 1;
    }
}

#[test]
fn a_short_description_is_vague_without_asking_the_backend() {
    let mut backend = CountingBackend { calls: 0 };
    for length in [0usize, 1, 50, 299] {
        let description = "x".repeat(length);
        match is_vague(&salon(&description)) {
            Vagueness::Vague => {}
            Vagueness::Ask { request } => backend.ask(&request),
        }
    }
    assert_eq!(backend.calls, 0);
}

#[test]
fn the_length_of_a_description_counts_characters() {
    // 299 characters that take 598 bytes.
    let description = "é".repeat(299);
    assert_eq!(is_vague(&salon(&description)), Vagueness::Vague);
    let description = "é".repeat(300);
    assert!(matches!(is_vague(&salon(&description)), Vagueness::Ask { .. }));
}

#[test]
fn a_long_description_is_put_to_the_model() {
    assert!(LONG_DESCRIPTION.chars().count() >= 300);
    let check = is_vague(&salon(LONG_DESCRIPTION));
    let expected = instruction(
        "You are a customer helper AI, designed to assist with customer service for a \
        business called Shear Bliss, in the industry Personal Care Services. Your role is \
        to ensure that customer queries are answered correctly, including questions about \
        pricing, services/products offered, appointment bookings and queries regarding \
        appointments as well as any general questions about the nature of the business. The \
        manager of this business has provided you with the following description of the \
        business: We are a family-run hair salon in the old town. We are a family-run hair \
        salon in the old town. We are a family-run hair salon in the old town. We are a \
        family-run hair salon in the old town. We are a family-run hair salon in the old \
        town. We are a family-run hair salon in the old town. We are a family-run hair \
        salon in the old town.. By replying with a simple 'Yes' or 'No', please answer the \
        following question: Is this description too basic and vague (where \"No\" means you \
        would like more information about the business) for you to be able to perform your \
        duties as a customer helper AI?",
        10,
    );
    assert_eq!(check, Vagueness::Ask { request: expected });
}

#[test]
fn only_a_yes_calls_the_description_vague() {
    for verdict in ["yes", "Yes", "YES", " yes\n", "\tyEs "] {
        assert!(verdict_is_vague(&Some(verdict.to_string())), "{:?}", verdict);
    }
    for verdict in ["no", "No", "", "yes.", "Yes, it is", "y", "yess", "oui"] {
        assert!(!verdict_is_vague(&Some(verdict.to_string())), "{:?}", verdict);
    }
    assert!(!verdict_is_vague(&None));
}

#[test]
fn the_general_questions_are_eight_in_a_fixed_order() {
    assert_eq!(
        general_questions(),
        vec![
            "What are the primary products or services your business offers?",
            "Who are your target customers or audience?",
            "Do you have physical locations, or is your business primarily online?",
            "If you do have a physical location, what is the address? (type \"NA if you do \
                not\")",
            "How do customers typically interact with your business?",
            "What are the most common questions customers ask?",
            "How long have you been in business?",
            "What is your most popular product or service?",
        ]
    );
}

#[test]
fn format_general_answers_drops_the_skip_token_in_its_own_case_only() {
    let questions = texts(&["First?", "Second?", "Third?", "Fourth?", "Fifth?", "Sixth?"]);
    let answers = texts(&["  one \n", "NA\n", "na\n", " NA \n", "Na\n", "NAx\n"]);
    assert_eq!(
        format_general_answers(&questions, &answers),
        "Q: First? A: one\nQ: Third? A: na\nQ: Fifth? A: Na\nQ: Sixth? A: NAx"
    );
}

#[test]
fn format_general_answers_reads_a_line_with_or_without_its_ending() {
    let questions = texts(&["First?", "Second?"]);
    for ending in ["", "\n", "\r\n", " ", "\t\n"] {
        let answers = vec![format!("NA{}", ending), format!("two{}", ending)];
        assert_eq!(
            format_general_answers(&questions, &answers),
            "Q: Second? A: two",
            "{:?}",
            ending
        );
    }
    assert_eq!(format_general_answers(&questions, &texts(&["NA\n"])), "");
}

#[test]
fn the_skipped_general_question_leaves_seven_lines_in_their_order() {
    let questions = general_questions();
    let answers: Vec<String> = (1..=8)
        .map(|i| if i == 4 { "NA\n".to_string() } else { format!("answer {}\n", i) })
        .collect();
    let block = format_general_answers(&questions, &answers);
    let lines: Vec<&str> = block.split('\n').collect();
    assert_eq!(lines.len(), 7);
    let kept = [1usize, 2, 3, 5, 6, 7, 8];
    for (line, i) in lines.iter().zip(kept) {
        assert_eq!(*line, format!("Q: {} A: answer {}", questions[i - 1], i));
    }
    assert!(lines.iter().all(|line| !line.ends_with(" A: NA")));
}

#[test]
fn format_general_answers_of_nothing_is_empty() {
    assert_eq!(format_general_answers(&general_questions(), &Vec::new()), "");
    assert_eq!(format_general_answers(&general_questions(), &texts(&["NA\n"; 8])), "");
}

#[test]
fn format_general_answers_pairs_as_far_as_there_are_answers() {
    let questions = texts(&["First?", "Second?"]);
    assert_eq!(format_general_answers(&questions, &texts(&["one\n"])), "Q: First? A: one");
    assert_eq!(
        format_general_answers(&questions, &texts(&["one\n", "two\n", "three\n"])),
        "Q: First? A: one\nQ: Second? A: two"
    );
}

#[test]
fn generate_questions_without_general_answers_rests_on_the_description() {
    let request = generate_questions(&salon(LONG_DESCRIPTION), false, "is not used");
    assert_eq!(
        request,
        instruction(
            "You are a customer helper AI, designed to assist with customer service related to a \
        business named Shear Bliss, in the industry Personal Care Services. Your job is to \
        learn and understand as much information about this business as possible so that \
        you may help out as well as possible. Big parts of this are learning about what \
        services the business provides, how a booking system (if any) works for the \
        business, how long services take, how much money they cost, etc., it is your job to \
        figure these out for the business. The business has provided you with this summary \
        of their business: 'We are a family-run hair salon in the old town. We are a \
        family-run hair salon in the old town. We are a family-run hair salon in the old \
        town. We are a family-run hair salon in the old town. We are a family-run hair \
        salon in the old town. We are a family-run hair salon in the old town. We are a \
        family-run hair salon in the old town.'. Based on this provided brief description \
        of the business, what specific do you wish to ask the business to better understand \
        it so that you may help out customers at a better level. IN YOUR ANSWER, please \
        provide the questions in order, do not use numerical order (\"1.\", \"2.\", etc.), \
        simply just provide the question like so: \"- Question?\". Please for now ensure a \
        maximum of 15 questions, try to cover essiental information that may not have been \
        specified before getting into other questions.",
            512,
        )
    );
}

#[test]
fn generate_questions_embeds_the_general_answers() {
    let request = generate_questions(&salon("A hair salon."), true, GENERAL_BLOCK);
    assert_eq!(
        request,
        instruction(
            "You are a customer helper AI, designed to assist with customer service for a \
        business named Shear Bliss, which is in the industry Personal Care Services. Your \
        job is to learn and understand as much information about this business as possible \
        so that you may help out as well as possible. Big parts of this are learning about \
        what services the business provides, how a booking system (if any) works for the \
        business, how long services take, how much money they cost, etc., it is your job to \
        figure these out for the business. The business has provided you with this summary \
        of their business: 'A hair salon.'. Additionally, we have asked more questions to \
        refine your knowledge of the business, which you can view here: 'Q: What are the \
        primary products or services your business offers? A: Haircuts and colouring\nQ: \
        How long have you been in business? A: Ten years'. Based on this provided brief \
        description (as well as the questions provided) of the business, what specific \
        questions do you wish to ask the business to better understand it so that you may \
        help out customers at a better level? IN YOUR ANSWER, please provide the questions \
        in order, do not use numerical order (\"1.\", \"2.\", etc.), simply just provide \
        the question like so: \"- Question?\". Please for now ensure a maximum of 15 \
        questions, try to cover essiental information that may not have been specified \
        before getting into other questions.",
            512,
        )
    );
}

#[test]
fn parse_questions_reads_one_question_from_each_line() {
    let reply = "- What services do you offer?\n- How do bookings work?\n-How long does a cut take?";
    assert_eq!(
        parse_questions(&Some(reply.to_string())),
        texts(&[
            "What services do you offer?",
            "How do bookings work?",
            "How long does a cut take?",
        ])
    );
}

#[test]
fn parse_questions_passes_over_lines_without_a_question() {
    let reply = "\n- First?\r\n\r\n--  Second?  \n-\n   \n - Third?\n";
    assert_eq!(
        parse_questions(&Some(reply.to_string())),
        texts(&["First?", "Second?", "- Third?"])
    );
}

#[test]
fn parse_questions_strips_dashes_in_front_only() {
    let reply = "- Walk-ins - yes or no?\nNo dash at all";
    assert_eq!(
        parse_questions(&Some(reply.to_string())),
        texts(&["Walk-ins - yes or no?", "No dash at all"])
    );
}

#[test]
fn parse_questions_of_no_content_is_empty() {
    assert_eq!(parse_questions(&None), Vec::<String>::new());
    assert_eq!(parse_questions(&Some(String::new())), Vec::<String>::new());
    assert_eq!(parse_questions(&Some("\n\n".to_string())), Vec::<String>::new());
}

#[test]
fn parse_questions_does_not_cap_the_number_of_questions() {
    let reply: Vec<String> = (1..=20).map(|i| format!("- Question {}?", i)).collect();
    let questions = parse_questions(&Some(reply.join("\n")));
    assert_eq!(questions.len(), 20);
    assert_eq!(questions[19], "Question 20?");
}

#[test]
fn banners_number_the_questions_from_one() {
    let questions: Vec<String> = (1..=11).map(|i| format!("Question {}?", i)).collect();
    let lines = banners(&questions);
    assert_eq!(lines.len(), 11);
    assert_eq!(lines[0], "AI Question (1 of 11): Question 1?");
    assert_eq!(lines[9], "AI Question (10 of 11): Question 10?");
    assert_eq!(lines[10], "AI Question (11 of 11): Question 11?");
    assert_eq!(banners(&Vec::new()), Vec::<String>::new());
}

#[test]
fn gather_answers_drops_the_skip_token_in_any_case() {
    let questions = texts(&["One?", "Two?", "Three?", "Four?", "Five?", "Six?"]);
    let answers = texts(&["NA\n", "na\n", "  Na \n", "nA\n", "NAx\n", "N/A\n"]);
    assert_eq!(
        gather_answers(&questions, &answers),
        vec![pair("Five?", "NAx"), pair("Six?", "N/A")]
    );
}

#[test]
fn gather_answers_keeps_order_and_trims_the_answers() {
    let questions = texts(&["One?", "Two?", "Three?"]);
    let answers = texts(&[" first \n", "", "third\n"]);
    assert_eq!(
        gather_answers(&questions, &answers),
        vec![pair("One?", "first"), pair("Two?", ""), pair("Three?", "third")]
    );
}

#[test]
fn gather_answers_pairs_as_far_as_there_are_answers() {
    let questions = texts(&["One?", "Two?"]);
    assert_eq!(gather_answers(&questions, &texts(&["a"])), vec![pair("One?", "a")]);
    assert_eq!(
        gather_answers(&questions, &texts(&["a", "b", "c"])),
        vec![pair("One?", "a"), pair("Two?", "b")]
    );
    assert_eq!(gather_answers(&Vec::new(), &texts(&["a"])), Vec::<QAPair>::new());
}

#[test]
fn a_fifty_character_description_brings_the_general_questions_first() {
    let description = "A small hair salon in the old town, open weekdays.";
    assert_eq!(description.chars().count(), 50);
    let mut calls = 0;
    let (onboarding, action) = Onboarding::begin(salon(description));
    assert_eq!(onboarding.stage(), Stage::GeneralQuestions);
    assert_eq!(action, OnboardingAction::AskGeneral { questions: general_questions() });

    let mut answers = texts(&["NA\n"; 8]);
    answers[0] = "Haircuts and colouring\n".to_string();
    answers[6] = "Ten years\n".to_string();
    let (onboarding, action) = onboarding.step(OnboardingEvent::Answers(answers));
    assert_eq!(onboarding.stage(), Stage::AwaitingQuestions);
    assert_eq!(onboarding.general_answers(), GENERAL_BLOCK);
    match &action {
        OnboardingAction::Complete { request } => {
            calls += 1;
            assert_eq!(request, &generate_questions(&salon(description), true, GENERAL_BLOCK));
        }
        other => panic!("{:?}", other),
    }
    assert_eq!(calls, 1);

    let reply = "- What do you charge?\n- Do you take walk-ins?".to_string();
    let (onboarding, action) = onboarding.step(OnboardingEvent::Reply(vec![Some(reply)]));
    assert_eq!(onboarding.stage(), Stage::Questions);
    assert_eq!(onboarding.questions(), &texts(&["What do you charge?", "Do you take walk-ins?"]));
    assert_eq!(
        action,
        OnboardingAction::AskQuestions {
            banners: texts(&[
                "AI Question (1 of 2): What do you charge?",
                "AI Question (2 of 2): Do you take walk-ins?",
            ]),
        }
    );

    let (onboarding, action) =
        onboarding.step(OnboardingEvent::Answers(texts(&["From 20 euros\n", "na\n"])));
    assert_eq!(action, OnboardingAction::Finished);
    assert_eq!(onboarding.stage(), Stage::Done);
    assert_eq!(onboarding.answered(), &vec![pair("What do you charge?", "From 20 euros")]);
    assert_eq!(onboarding.profile(), &salon(description));

    let now = "2023-09-14T10:20:30.123456+02:00";
    let prompt = onboarding.compose(now);
    assert_eq!(
        prompt,
        prompt_session::prompt::compose(
            &salon(description),
            &[pair("What do you charge?", "From 20 euros")],
            GENERAL_BLOCK,
            now,
        )
    );
    let generated = onboarding.generate_prompt();
    assert_eq!(generated.len(), prompt.len());
}

#[test]
fn a_long_description_that_the_model_accepts_skips_the_general_questions() {
    let (onboarding, action) = Onboarding::begin(salon(LONG_DESCRIPTION));
    assert_eq!(onboarding.stage(), Stage::AwaitingVerdict);
    match action {
        OnboardingAction::Complete { request } => {
            assert_eq!(Vagueness::Ask { request }, is_vague(&salon(LONG_DESCRIPTION)));
        }
        other => panic!("{:?}", other),
    }
    let (onboarding, action) = onboarding.step(OnboardingEvent::Reply(vec![Some("No.".to_string())]));
    assert_eq!(onboarding.stage(), Stage::AwaitingQuestions);
    assert_eq!(
        action,
        OnboardingAction::Complete {
            request: generate_questions(&salon(LONG_DESCRIPTION), false, ""),
        }
    );
    assert_eq!(onboarding.general_answers(), "");

    let (onboarding, action) = onboarding.step(OnboardingEvent::Reply(vec![None]));
    assert_eq!(onboarding.stage(), Stage::Questions);
    assert_eq!(action, OnboardingAction::AskQuestions { banners: Vec::new() });
    let (onboarding, action) = onboarding.step(OnboardingEvent::Answers(Vec::new()));
    assert_eq!(action, OnboardingAction::Finished);
    assert_eq!(onboarding.answered(), &Vec::<QAPair>::new());
}

#[test]
fn a_long_description_that_the_model_calls_vague_brings_the_general_questions() {
    let (onboarding, _) = Onboarding::begin(salon(LONG_DESCRIPTION));
    let (onboarding, action) = onboarding.step(OnboardingEvent::Reply(vec![Some(" Yes\n".to_string())]));
    assert_eq!(onboarding.stage(), Stage::GeneralQuestions);
    assert_eq!(action, OnboardingAction::AskGeneral { questions: general_questions() });
    let mut answers = texts(&["NA\n"; 8]);
    answers[0] = "Haircuts and colouring\n".to_string();
    answers[6] = "Ten years\n".to_string();
    let (_, action) = onboarding.step(OnboardingEvent::Answers(answers));
    assert_eq!(
        action,
        OnboardingAction::Complete {
            request: instruction(
                "You are a customer helper AI, designed to assist with customer service for a \
        business named Shear Bliss, which is in the industry Personal Care Services. Your \
        job is to learn and understand as much information about this business as possible \
        so that you may help out as well as possible. Big parts of this are learning about \
        what services the business provides, how a booking system (if any) works for the \
        business, how long services take, how much money they cost, etc., it is your job to \
        figure these out for the business. The business has provided you with this summary \
        of their business: 'We are a family-run hair salon in the old town. We are a \
        family-run hair salon in the old town. We are a family-run hair salon in the old \
        town. We are a family-run hair salon in the old town. We are a family-run hair \
        salon in the old town. We are a family-run hair salon in the old town. We are a \
        family-run hair salon in the old town.'. Additionally, we have asked more questions \
        to refine your knowledge of the business, which you can view here: 'Q: What are the \
        primary products or services your business offers? A: Haircuts and colouring\nQ: \
        How long have you been in business? A: Ten years'. Based on this provided brief \
        description (as well as the questions provided) of the business, what specific \
        questions do you wish to ask the business to better understand it so that you may \
        help out customers at a better level? IN YOUR ANSWER, please provide the questions \
        in order, do not use numerical order (\"1.\", \"2.\", etc.), simply just provide \
        the question like so: \"- Question?\". Please for now ensure a maximum of 15 \
        questions, try to cover essiental information that may not have been specified \
        before getting into other questions.",
                512,
            ),
        }
    );
}

#[test]
fn an_onboarding_event_that_is_not_awaited_changes_nothing() {
    let (onboarding, _) = Onboarding::begin(salon("Short."));
    let (onboarding, action) = onboarding.step(OnboardingEvent::Reply(vec![Some("yes".to_string())]));
    assert_eq!(action, OnboardingAction::Unexpected);
    assert_eq!(onboarding.stage(), Stage::GeneralQuestions);
    let (onboarding, _) = onboarding.step(OnboardingEvent::Answers(Vec::new()));
    let (onboarding, action) = onboarding.step(OnboardingEvent::Answers(texts(&["x"])));
    assert_eq!(action, OnboardingAction::Unexpected);
    assert_eq!(onboarding.stage(), Stage::AwaitingQuestions);
    let (onboarding, _) = onboarding.step(OnboardingEvent::Reply(vec![Some("- Q?".to_string())]));
    let (onboarding, _) = onboarding.step(OnboardingEvent::Answers(texts(&["a"])));
    let (onboarding, action) = onboarding.step(OnboardingEvent::Answers(texts(&["b"])));
    assert_eq!(action, OnboardingAction::Unexpected);
    assert_eq!(onboarding.stage(), Stage::Done);
    assert_eq!(onboarding.answered(), &vec![pair("Q?", "a")]);
}

#[test]
fn a_reply_without_a_choice_stops_the_onboarding_where_it_is() {
    let (onboarding, _) = Onboarding::begin(salon(LONG_DESCRIPTION));
    let (onboarding, action) = onboarding.step(OnboardingEvent::Reply(Vec::new()));
    assert_eq!(action, OnboardingAction::NoChoice);
    assert_eq!(onboarding.stage(), Stage::AwaitingVerdict);
    let (onboarding, _) = onboarding.step(OnboardingEvent::Reply(vec![Some("no".to_string())]));
    let (onboarding, action) = onboarding.step(OnboardingEvent::Reply(Vec::new()));
    assert_eq!(action, OnboardingAction::NoChoice);
    assert_eq!(onboarding.stage(), Stage::AwaitingQuestions);
}

#[test]
fn only_the_first_choice_of_a_reply_is_read() {
    let (onboarding, _) = Onboarding::begin(salon(LONG_DESCRIPTION));
    let (onboarding, _) = onboarding.step(OnboardingEvent::Reply(vec![
        Some("No".to_string()),
        Some("Yes".to_string()),
    ]));
    assert_eq!(onboarding.stage(), Stage::AwaitingQuestions);
    let (onboarding, _) = onboarding.step(OnboardingEvent::Reply(vec![
        Some("- First?".to_string()),
        Some("- Second?".to_string()),
    ]));
    assert_eq!(onboarding.questions(), &texts(&["First?"]));
}
