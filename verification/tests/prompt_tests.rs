use prompt_session::clock::is_timestamp_text;
use prompt_session::profile::BusinessProfile;
use prompt_session::prompt::{
    compose, format_directive, format_qa, generate_prompt, update_prompt, QAPair,
    PROMPT_OPENING, TRAILER_HEADER,
};

fn salon() -> BusinessProfile {
    BusinessProfile::collect("Shear Bliss", "Personal Care Services", "A hair salon.")
}

fn pair(question: &str, answer: &str) -> QAPair {
    QAPair { question: question.to_string(), answer: answer.to_string() }
}

fn occurrences(text: &str, pattern: &str) -> usize {
    text.match_indices(pattern).count()
}

const NOW: &str = "2023-09-14T10:20:30.123456+02:00";

#[test]
fn format_qa_writes_question_and_answer_on_one_line() {
    assert_eq!(format_qa("Open on Sundays?", "No"), "Q: Open on Sundays? A: No");
    assert_eq!(format_qa("", ""), "Q:  A: ");
}

#[test]
fn compose_writes_the_whole_prompt() {
    let answered = vec![
        pair("Do you take walk-ins?", "Yes"),
        pair("What are your opening hours?", "9 to 6"),
    ];
    let prompt = compose(
        &salon(),
        &answered,
        "Q: How long have you been in business? A: Ten years",
        NOW,
    );
    assert_eq!(
        prompt,
        "The current date and time is 2023-09-14T10:20:30.123456+02:00, in the format \
        YYYY-MM-DDTHH:MM:SS.SSSSSS±HH:MM. You are a customer helper AI, designed to assist \
        with all customer service matters related to a business named Shear Bliss, working \
        in the industry Personal Care Services. The description given for this business is \
        \"A hair salon.\" by your manager.\n        You are currently enagaged with a \
        customer or potential customer of the business, your role is to ensure that \
        customer queries are answered correctly, including questions about pricing, \
        services/products offered, appointment bookings and queries regarding appointments \
        as well as any\n        general questions about the nature of the business. Here is \
        a list of more exhaustive information, through questioning the manager, about the \
        business to ensure you are clearly knowledgable about it: Q: Do you take walk-ins? \
        A: Yes\nQ: What are your opening hours? A: 9 to 6\nQ: How long have you been in \
        business? A: Ten years.\n        Other directives for you are as follows:\n        \
        **Human**: Act natural and human, don't be too robotic or mechanical in your \
        responses - you can reveal your identity if inquired about, but other than that act \
        as natural as possible. Instead of using robotic words like \"assist\" use words \
        like \"help\", etc.\n        **Stay Ontopic**: Don't leave the topic of the \
        business, try to stay on topic and answer questions related to the business, if \
        they try to move off topic, bring them back on topic.\n        **Professionalism**: \
        Always maintain a courteous and professional demeanor. Your responses should \
        reflect the business's values and standards.\n        **Transparency**: If a \
        customer inquires about your nature, be honest. Inform them that you are an AI \
        designed to assist and make their experience smoother.\n        **Constraints**: \
        Ensure never to give out links to non-business provided material, if there is no \
        context to a question (for example 'how can i buy x?') assume that they are trying \
        to use or buy something from the business\n        **Training**: If the message \
        [TRAINDATA] is given to you, this is for your training by a developer. Ensure that \
        you listen to what is told and reply with nothing. This is to ensure that you are \
        trained to respond to certain prompts in a certain way.\n        However, try to \
        act as normal and human as possible, do not mention that you are an AI in any way \
        whatsoever asides from if directly asked by the customer. \n        Your ultimate \
        goal is to ensure customer satisfaction by providing them with accurate, timely, \
        and helpful responses. If you are confused and do not know an answer, \n        \
        feel free to direct the user to a human employee by simply letting them know that \
        you have raised their query to an employee and that they will be in contact with \
        them shortly.\n        Every interaction should instill confidence in the customer \
        about the business's capability and professionalism. Feel free to proceed while \
        adhering to these guidelines."
    );
}

#[test]
fn compose_without_answers_leaves_the_line_break_between_the_two_blocks() {
    let prompt = compose(&salon(), &[], "", NOW);
    assert_eq!(
        prompt,
        "The current date and time is 2023-09-14T10:20:30.123456+02:00, in the format \
        YYYY-MM-DDTHH:MM:SS.SSSSSS±HH:MM. You are a customer helper AI, designed to assist \
        with all customer service matters related to a business named Shear Bliss, working \
        in the industry Personal Care Services. The description given for this business is \
        \"A hair salon.\" by your manager.\n        You are currently enagaged with a \
        customer or potential customer of the business, your role is to ensure that \
        customer queries are answered correctly, including questions about pricing, \
        services/products offered, appointment bookings and queries regarding appointments \
        as well as any\n        general questions about the nature of the business. Here is \
        a list of more exhaustive information, through questioning the manager, about the \
        business to ensure you are clearly knowledgable about it: \n.\n        Other \
        directives for you are as follows:\n        **Human**: Act natural and human, don't \
        be too robotic or mechanical in your responses - you can reveal your identity if \
        inquired about, but other than that act as natural as possible. Instead of using \
        robotic words like \"assist\" use words like \"help\", etc.\n        **Stay \
        Ontopic**: Don't leave the topic of the business, try to stay on topic and answer \
        questions related to the business, if they try to move off topic, bring them back \
        on topic.\n        **Professionalism**: Always maintain a courteous and \
        professional demeanor. Your responses should reflect the business's values and \
        standards.\n        **Transparency**: If a customer inquires about your nature, be \
        honest. Inform them that you are an AI designed to assist and make their experience \
        smoother.\n        **Constraints**: Ensure never to give out links to non-business \
        provided material, if there is no context to a question (for example 'how can i buy \
        x?') assume that they are trying to use or buy something from the business\n        \
        **Training**: If the message [TRAINDATA] is given to you, this is for your training \
        by a developer. Ensure that you listen to what is told and reply with nothing. This \
        is to ensure that you are trained to respond to certain prompts in a certain \
        way.\n        However, try to act as normal and human as possible, do not mention \
        that you are an AI in any way whatsoever asides from if directly asked by the \
        customer. \n        Your ultimate goal is to ensure customer satisfaction by \
        providing them with accurate, timely, and helpful responses. If you are confused \
        and do not know an answer, \n        feel free to direct the user to a human \
        employee by simply letting them know that you have raised their query to an \
        employee and that they will be in contact with them shortly.\n        Every \
        interaction should instill confidence in the customer about the business's \
        capability and professionalism. Feel free to proceed while adhering to these \
        guidelines."
    );
}

#[test]
fn compose_gives_the_same_prompt_for_the_same_inputs() {
    let answered = vec![pair("Do you take walk-ins?", "Yes")];
    let first = compose(&salon(), &answered, "Q: a A: b", NOW);
    let second = compose(&salon(), &answered.clone(), "Q: a A: b", NOW);
    assert_eq!(first.as_bytes(), second.as_bytes());
}

#[test]
fn compose_with_another_timestamp_differs_in_the_timestamp_alone() {
    let answered = vec![pair("Do you take walk-ins?", "Yes")];
    let later = "2024-01-01T00:00:00.000000+00:00";
    let first = compose(&salon(), &answered, "", NOW);
    let second = compose(&salon(), &answered, "", later);
    assert_ne!(first, second);
    let opening = PROMPT_OPENING.len();
    assert_eq!(&first[..opening], &second[..opening]);
    assert_eq!(&first[opening..opening + NOW.len()], NOW);
    assert_eq!(&second[opening..opening + later.len()], later);
    assert_eq!(&first[opening + NOW.len()..], &second[opening + later.len()..]);
}

#[test]
fn generate_prompt_is_compose_with_the_time_of_the_call() {
    let answered = vec![pair("Do you take walk-ins?", "Yes")];
    let prompt = generate_prompt(&salon(), &answered, "Q: a A: b".to_string());
    assert!(prompt.starts_with(PROMPT_OPENING));
    // In this century the timestamp takes 32 characters.
    let stamp = &prompt[PROMPT_OPENING.len()..PROMPT_OPENING.len() + 32];
    assert!(is_timestamp_text(stamp), "{}", stamp);
    assert_eq!(prompt, compose(&salon(), &answered, "Q: a A: b", stamp));
}

#[test]
fn a_timestamp_is_a_year_and_the_fixed_form_after_it() {
    for stamp in [
        "2023-09-14T10:20:30.123456+02:00",
        "0001-01-01T00:00:00.000000-00:00",
        "+12345-12-31T23:59:60.999999-23:59",
        "-0044-03-15T12:00:00.000000+00:50",
    ] {
        assert!(is_timestamp_text(stamp), "{}", stamp);
    }
    for stamp in [
        "",
        "2023-09-14 10:20:30.123456 +02:00",
        "2023-09-14T10:20:30.123456Z",
        "2023-09-14T10:20:30+02:00",
        "2023-09-14T10:20:30.123456789+02:00",
        "23-09-14T10:20:30.123456+02:00",
        "12023-09-14T10:20:30.123456+02:00",
        "+023-09-14T10:20:30.123456+02:00",
        "2023-09-14T10:20:30.123456+0200",
        "2023-09-14t10:20:30.123456+02:00",
        "2023-O9-14T10:20:30.123456+02:00",
    ] {
        assert!(!is_timestamp_text(stamp), "{}", stamp);
    }
}

#[test]
fn a_correction_is_written_once() {
    let once = update_prompt(
        "You help customers.".to_string(),
        "When do you close?".to_string(),
        "We close at 6pm".to_string(),
    );
    let line = "For: When do you close?\nReply: We close at 6pm";
    assert_eq!(occurrences(&once, line), 1);
    assert!(once.ends_with(line));
    let twice = update_prompt(once, "Do you do beards?".to_string(), "Yes".to_string());
    assert_eq!(occurrences(&twice, "For: Do you do beards?\nReply: Yes"), 1);
    assert_eq!(occurrences(&twice, line), 1);
}

#[test]
fn format_directive_writes_input_and_reply_on_two_lines() {
    assert_eq!(
        format_directive("When do you close?", "We close at 6pm"),
        "For: When do you close?\nReply: We close at 6pm"
    );
}

#[test]
fn update_prompt_brings_the_header_with_the_first_correction() {
    let updated = update_prompt(
        "You help customers.".to_string(),
        "When do you close?".to_string(),
        "We close at 6pm".to_string(),
    );
    assert_eq!(
        updated,
        "You help customers.\n\nMAKE SURE YOU REPLY IN THIS WAY FOR THESE PROMPTS::\n\
         For: When do you close?\nReply: We close at 6pm"
    );
}

#[test]
fn update_prompt_appends_a_later_correction_below() {
    let once = update_prompt(
        "You help customers.".to_string(),
        "When do you close?".to_string(),
        "We close at 6pm".to_string(),
    );
    let twice = update_prompt(once.clone(), "Do you do beards?".to_string(), "Yes".to_string());
    assert_eq!(twice, format!("{}\nFor: Do you do beards?\nReply: Yes", once));
}

#[test]
fn update_prompt_twice_writes_the_header_once() {
    let once = update_prompt("Base.".to_string(), "a".to_string(), "b".to_string());
    let twice = update_prompt(once.clone(), "c".to_string(), "d".to_string());
    assert_eq!(occurrences(&once, TRAILER_HEADER), 1);
    assert_eq!(occurrences(&twice, TRAILER_HEADER), 1);
}

#[test]
fn update_prompt_never_rewrites_an_earlier_correction() {
    let once = update_prompt("Base.".to_string(), "a".to_string(), "b".to_string());
    let twice = update_prompt(once.clone(), "a".to_string(), "c".to_string());
    assert!(twice.starts_with(&once));
    assert_eq!(occurrences(&twice, "For: a"), 2);
}

#[test]
fn update_prompt_takes_a_header_in_the_prompt_for_the_trailer() {
    let prompt = format!("Base that quotes {} itself.", TRAILER_HEADER);
    let updated = update_prompt(prompt.clone(), "a".to_string(), "b".to_string());
    assert_eq!(updated, format!("{}\nFor: a\nReply: b", prompt));
}

#[test]
fn a_correction_that_spells_the_header_out_doubles_it() {
    let once = update_prompt("Base.".to_string(), TRAILER_HEADER.to_string(), "b".to_string());
    assert_eq!(occurrences(&once, TRAILER_HEADER), 2);
}
