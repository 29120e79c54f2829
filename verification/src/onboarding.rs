//! Taking an operator on board: judging whether the description of the
//! business is too vague, asking the general questions if it is, having the
//! model propose further questions, and collecting the answers.
//!
//! The model is asked outside this library. The functions here decide
//! whether and what to ask, and read what came back.

use crate::backend::{
    content_text, instruct, instruction_request, CompletionRequest, RequestView, ANSWER_TOKENS,
    VERDICT_TOKENS,
};
use crate::clock::is_timestamp;
use crate::number::{decimal, decimal_text};
use crate::profile::{BusinessProfile, ProfileView};
use crate::prompt::{compose, format_qa, generate_prompt, qa_line, system_prompt_text, QAPair,
    QAPairView};
use crate::text::{
    chars_of, eq_ignore_ascii_case, join, joined, lemma_trimmed, same_ignoring_ascii_case,
    same_text, strip_leading, trim, trimmed, without_leading,
};
use crate::views::lemma_push_deep_view;
use vstd::prelude::*;
use vstd::string::*;

verus! {

/// Opens the vagueness question; the business name follows it.
pub const VAGUE_OPENING: &'static str =
    "You are a customer helper AI, designed to assist with customer service for a business \
    called ";

/// Stands between the business name and the industry.
pub const VAGUE_BEFORE_INDUSTRY: &'static str = ", in the industry ";

/// Stands between the industry and the description.
pub const VAGUE_BEFORE_DESCRIPTION: &'static str =
    ". Your role is to ensure that customer queries are answered correctly, including \
    questions about pricing, services/products offered, appointment bookings and queries \
    regarding appointments as well as any general questions about the nature of the \
    business. The manager of this business has provided you with the following description \
    of the business: ";

/// Closes the vagueness question.
pub const VAGUE_CLOSING: &'static str =
    ". By replying with a simple 'Yes' or 'No', please answer the following question: Is \
    this description too basic and vague (where \"No\" means you would like more \
    information about the business) for you to be able to perform your duties as a customer \
    helper AI?";

/// Opens the request for questions that embeds the general answers.
pub const ASK_REFINED_OPENING: &'static str =
    "You are a customer helper AI, designed to assist with customer service for a business \
    named ";

/// Stands between the business name and the industry.
pub const ASK_REFINED_BEFORE_INDUSTRY: &'static str = ", which is in the industry ";

/// Stands between the industry and the description, in both requests for
/// questions.
pub const ASK_BEFORE_DESCRIPTION: &'static str =
    ". Your job is to learn and understand as much information about this business as \
    possible so that you may help out as well as possible. Big parts of this are learning \
    about what services the business provides, how a booking system (if any) works for the \
    business, how long services take, how much money they cost, etc., it is your job to \
    figure these out for the business. The business has provided you with this summary of \
    their business: '";

/// Stands between the description and the general answers.
pub const ASK_REFINED_BEFORE_ANSWERS: &'static str =
    "'. Additionally, we have asked more questions to refine your knowledge of the business, \
    which you can view here: '";

/// Closes the request that embeds the general answers.
pub const ASK_REFINED_CLOSING: &'static str =
    "'. Based on this provided brief description (as well as the questions provided) of the \
    business, what specific questions do you wish to ask the business to better understand \
    it so that you may help out customers at a better level? IN YOUR ANSWER, please provide \
    the questions in order, do not use numerical order (\"1.\", \"2.\", etc.), simply just \
    provide the question like so: \"- Question?\". Please for now ensure a maximum of 15 \
    questions, try to cover essiental information that may not have been specified before \
    getting into other questions.";

/// Opens the request for questions that rests on the description alone.
pub const ASK_PLAIN_OPENING: &'static str =
    "You are a customer helper AI, designed to assist with customer service related to a \
    business named ";

/// Stands between the business name and the industry.
pub const ASK_PLAIN_BEFORE_INDUSTRY: &'static str = ", in the industry ";

/// Closes the request that rests on the description alone.
pub const ASK_PLAIN_CLOSING: &'static str =
    "'. Based on this provided brief description of the business, what specific do you wish \
    to ask the business to better understand it so that you may help out customers at a \
    better level. IN YOUR ANSWER, please provide the questions in order, do not use \
    numerical order (\"1.\", \"2.\", etc.), simply just provide the question like so: \"- \
    Question?\". Please for now ensure a maximum of 15 questions, try to cover essiental \
    information that may not have been specified before getting into other questions.";

/// The first general question.
pub const GENERAL_QUESTION_1: &'static str =
    "What are the primary products or services your business offers?";

/// The second general question.
pub const GENERAL_QUESTION_2: &'static str = "Who are your target customers or audience?";

/// The third general question.
pub const GENERAL_QUESTION_3: &'static str =
    "Do you have physical locations, or is your business primarily online?";

/// The fourth general question.
pub const GENERAL_QUESTION_4: &'static str =
    "If you do have a physical location, what is the address? (type \"NA if you do not\")";

/// The fifth general question.
pub const GENERAL_QUESTION_5: &'static str =
    "How do customers typically interact with your business?";

/// The sixth general question.
pub const GENERAL_QUESTION_6: &'static str = "What are the most common questions customers ask?";

/// The seventh general question.
pub const GENERAL_QUESTION_7: &'static str = "How long have you been in business?";

/// The eighth general question.
pub const GENERAL_QUESTION_8: &'static str = "What is your most popular product or service?";

/// A description with fewer characters than this is vague without asking.
pub const VAGUE_BELOW: usize = 300;

/// The verdict that calls a description vague, in small letters.
pub const YES: &'static str = "yes";

/// The answer that skips a question.
pub const SKIP_TOKEN: &'static str = "NA";

/// The question that asks the model whether the description is too vague.
pub open spec fn vagueness_question(profile: ProfileView) -> Seq<char> {
    VAGUE_OPENING@ + profile.name + VAGUE_BEFORE_INDUSTRY@ + profile.industry
        + VAGUE_BEFORE_DESCRIPTION@ + profile.description + VAGUE_CLOSING@
}

/// The verdict calls the description vague: apart from white space around
/// it and the case of its letters it is the word `yes`. Any other verdict
/// does not.
pub open spec fn says_vague(verdict: Seq<char>) -> bool {
    same_ignoring_ascii_case(trimmed(verdict), YES@)
}

/// What the check of a description came to before the model was asked.
#[derive(Debug, Clone, PartialEq, Eq)]
pub enum Vagueness {
    /// The description is vague; there is nothing to ask.
    Vague,
    /// The model is to judge: send `request` and read the reply with
    /// `verdict_is_vague`.
    Ask { request: CompletionRequest },
}

/// Checks whether the description of the business is too vague. A
/// description of fewer than `VAGUE_BELOW` characters is; for a longer one
/// the model is to be asked, with a budget of `VERDICT_TOKENS`.
pub fn is_vague(business: &BusinessProfile) -> (check: Vagueness)
    ensures
        business@.description.len() < VAGUE_BELOW ==> check is Vague,
        business@.description.len() >= VAGUE_BELOW ==> (check matches Vagueness::Ask { request }
            && request@ == instruction_request(vagueness_question(business@), VERDICT_TOKENS)),
{
    if business.description.as_str().unicode_len() < VAGUE_BELOW {
        return Vagueness::Vague;
    }
    let mut question = String::from_str(VAGUE_OPENING);
    question.append(business.name.as_str());
    question.append(VAGUE_BEFORE_INDUSTRY);
    question.append(business.industry.as_str());
    question.append(VAGUE_BEFORE_DESCRIPTION);
    question.append(business.description.as_str());
    question.append(VAGUE_CLOSING);
    Vagueness::Ask { request: instruct(question, VERDICT_TOKENS) }
}

/// Reads the model's verdict on the description. A reply without content
/// counts as empty, and so as "not vague".
pub fn verdict_is_vague(verdict: &Option<String>) -> (vague: bool)
    ensures
        vague == says_vague(content_text(verdict.deep_view())),
{
    match verdict {
        Some(text) => eq_ignore_ascii_case(trim(text.as_str()), YES),
        None => {
            proof {
                // Nothing is left of the empty text, and `yes` is not empty.
                reveal_strlit("yes");
                lemma_trimmed(Seq::<char>::empty());
            }
            false
        },
    }
}

/// The general questions, in the order in which they are asked.
pub open spec fn general_question_texts() -> Seq<Seq<char>> {
    seq![
        GENERAL_QUESTION_1@,
        GENERAL_QUESTION_2@,
        GENERAL_QUESTION_3@,
        GENERAL_QUESTION_4@,
        GENERAL_QUESTION_5@,
        GENERAL_QUESTION_6@,
        GENERAL_QUESTION_7@,
        GENERAL_QUESTION_8@,
    ]
}

/// The general questions that are put to the operator when the description
/// is vague, in their fixed order.
pub fn general_questions() -> (questions: Vec<String>)
    ensures
        questions.deep_view() == general_question_texts(),
{
    let mut questions: Vec<String> = Vec::new();
    questions.push(String::from_str(GENERAL_QUESTION_1));
    questions.push(String::from_str(GENERAL_QUESTION_2));
    questions.push(String::from_str(GENERAL_QUESTION_3));
    questions.push(String::from_str(GENERAL_QUESTION_4));
    questions.push(String::from_str(GENERAL_QUESTION_5));
    questions.push(String::from_str(GENERAL_QUESTION_6));
    questions.push(String::from_str(GENERAL_QUESTION_7));
    questions.push(String::from_str(GENERAL_QUESTION_8));
    questions
}

/// How many questions have an answer: as many as there are of the fewer.
pub open spec fn answered_count(questions: Seq<Seq<char>>, answers: Seq<Seq<char>>) -> nat {
    if questions.len() <= answers.len() {
        questions.len()
    } else {
        answers.len()
    }
}

/// The answer skips a general question: without the white space around
/// it, it is the skip token, letter for letter.
pub open spec fn skips_general(answer: Seq<char>) -> bool {
    trimmed(answer) == SKIP_TOKEN@
}

/// The lines that the first `n` general questions leave: one for each
/// answer that does not skip its question, with the answer trimmed.
pub open spec fn general_lines(questions: Seq<Seq<char>>, answers: Seq<Seq<char>>, n: nat) -> Seq<
    Seq<char>,
>
    decreases n,
{
    if n == 0 {
        Seq::empty()
    } else {
        let earlier = general_lines(questions, answers, (n - 1) as nat);
        if skips_general(answers[n - 1]) {
            earlier
        } else {
            earlier.push(qa_line(questions[n - 1], trimmed(answers[n - 1])))
        }
    }
}

/// The block of general answers: the lines that the questions leave, one
/// below the other.
pub open spec fn general_answers_text(questions: Seq<Seq<char>>, answers: Seq<Seq<char>>) -> Seq<
    char,
> {
    joined(general_lines(questions, answers, answered_count(questions, answers)), "\n"@)
}

/// Formats the answers to the general questions as the block that goes
/// into the prompts. `answers` holds the lines as the operator typed them,
/// with or without their line ending, in the order of `questions`. Each
/// answer is read without the white space around it. One that is then the
/// skip token leaves no line; letters of another case do not make it the
/// token.
pub fn format_general_answers(questions: &Vec<String>, answers: &Vec<String>) -> (block: String)
    ensures
        block@ == general_answers_text(questions.deep_view(), answers.deep_view()),
{
    let n = if questions.len() <= answers.len() {
        questions.len()
    } else {
        answers.len()
    };
    let mut lines: Vec<String> = Vec::new();
    let mut i: usize = 0;
    while i < n
        invariant
            i <= n,
            n <= questions.len(),
            n <= answers.len(),
            lines.deep_view() == general_lines(
                questions.deep_view(),
                answers.deep_view(),
                i as nat,
            ),
        decreases n - i,
    {
        let answer = trim(answers[i].as_str());
        if !same_text(answer, SKIP_TOKEN) {
            let line = format_qa(questions[i].as_str(), answer);
            lines.push(line);
        }
        i = i + 1;
    }
    join(&lines, "\n")
}

/// The request for questions, as text. With `vague` set it embeds the
/// general answers; without, it rests on the description alone.
pub open spec fn question_request_text(
    profile: ProfileView,
    vague: bool,
    general_answers: Seq<char>,
) -> Seq<char> {
    if vague {
        ASK_REFINED_OPENING@ + profile.name + ASK_REFINED_BEFORE_INDUSTRY@ + profile.industry
            + ASK_BEFORE_DESCRIPTION@ + profile.description + ASK_REFINED_BEFORE_ANSWERS@
            + general_answers + ASK_REFINED_CLOSING@
    } else {
        ASK_PLAIN_OPENING@ + profile.name + ASK_PLAIN_BEFORE_INDUSTRY@ + profile.industry
            + ASK_BEFORE_DESCRIPTION@ + profile.description + ASK_PLAIN_CLOSING@
    }
}

/// Builds the request that has the model propose questions about the
/// business, with a budget of `ANSWER_TOKENS`. The reply is read with
/// `parse_questions`.
pub fn generate_questions(
    business: &BusinessProfile,
    vague: bool,
    general_answers: &str,
) -> (request: CompletionRequest)
    ensures
        request@ == instruction_request(
            question_request_text(business@, vague, general_answers@),
            ANSWER_TOKENS,
        ),
{
    let mut text;
    if vague {
        text = String::from_str(ASK_REFINED_OPENING);
        text.append(business.name.as_str());
        text.append(ASK_REFINED_BEFORE_INDUSTRY);
        text.append(business.industry.as_str());
        text.append(ASK_BEFORE_DESCRIPTION);
        text.append(business.description.as_str());
        text.append(ASK_REFINED_BEFORE_ANSWERS);
        text.append(general_answers);
        text.append(ASK_REFINED_CLOSING);
    } else {
        text = String::from_str(ASK_PLAIN_OPENING);
        text.append(business.name.as_str());
        text.append(ASK_PLAIN_BEFORE_INDUSTRY);
        text.append(business.industry.as_str());
        text.append(ASK_BEFORE_DESCRIPTION);
        text.append(business.description.as_str());
        text.append(ASK_PLAIN_CLOSING);
    }
    instruct(text, ANSWER_TOKENS)
}

/// The lines of a text: what stands between its line feeds. A text
/// without a line feed is one line; a text that ends in a line feed ends
/// in an empty line.
pub open spec fn lines_of(text: Seq<char>) -> Seq<Seq<char>>
    decreases text.len(),
{
    if text.len() == 0 {
        seq![Seq::empty()]
    } else if text.last() == '\n' {
        lines_of(text.drop_last()).push(Seq::empty())
    } else {
        let before = lines_of(text.drop_last());
        before.drop_last().push(before.last().push(text.last()))
    }
}

/// The question that a line of the model's reply holds: the line without
/// the dashes in front and without the white space around what is left.
pub open spec fn question_of_line(line: Seq<char>) -> Seq<char> {
    trimmed(without_leading(line, '-'))
}

/// The questions that the lines hold, in order; a line that holds none is
/// passed over.
pub open spec fn questions_in(lines: Seq<Seq<char>>) -> Seq<Seq<char>>
    decreases lines.len(),
{
    if lines.len() == 0 {
        Seq::empty()
    } else {
        let earlier = questions_in(lines.drop_last());
        let question = question_of_line(lines.last());
        if question.len() > 0 {
            earlier.push(question)
        } else {
            earlier
        }
    }
}

/// The questions that the model's reply holds.
pub open spec fn parsed_questions(reply: Seq<char>) -> Seq<Seq<char>> {
    questions_in(lines_of(reply))
}

/// The lines of a text are what its line feeds divide it into: no line
/// holds a line feed, and the lines with a line feed between each two are
/// the text.
pub proof fn lemma_lines_of(text: Seq<char>)
    ensures
        lines_of(text).len() > 0,
        joined(lines_of(text), "\n"@) == text,
        forall|k: int, j: int|
            0 <= k < lines_of(text).len() && 0 <= j < lines_of(text)[k].len() ==> lines_of(
                text,
            )[k][j] != '\n',
    decreases text.len(),
{
    reveal_strlit("\n");
    let lines = lines_of(text);
    if text.len() == 0 {
        assert(joined(lines, "\n"@) =~= text);
    } else {
        let before = lines_of(text.drop_last());
        lemma_lines_of(text.drop_last());
        if text.last() == '\n' {
            assert(lines.drop_last() =~= before);
            assert(joined(lines, "\n"@) =~= text);
        } else if before.len() == 1 {
            assert(joined(lines, "\n"@) =~= text);
        } else {
            let earlier = joined(before.drop_last(), "\n"@);
            assert(lines.drop_last() =~= before.drop_last());
            assert(joined(before, "\n"@) == earlier + "\n"@ + before.last());
            assert(joined(lines, "\n"@) == earlier + "\n"@ + before.last().push(text.last()));
            assert(joined(lines, "\n"@) =~= text.drop_last().push(text.last()));
            assert(text.drop_last().push(text.last()) =~= text);
        }
        assert forall|k: int, j: int|
            0 <= k < lines.len() && 0 <= j < lines[k].len() implies lines[k][j] != '\n' by {
            if k < before.len() - 1 {
                assert(lines[k] == before[k]);
            } else if text.last() != '\n' && j < before.last().len() {
                assert(lines[k][j] == before.last()[j]);
            }
        }
    }
}

/// No question that is read out of lines is empty, and there are at most
/// as many questions as lines.
pub proof fn lemma_questions_in(lines: Seq<Seq<char>>)
    ensures
        questions_in(lines).len() <= lines.len(),
        forall|k: int| 0 <= k < questions_in(lines).len() ==> questions_in(lines)[k].len() > 0,
    decreases lines.len(),
{
    if lines.len() > 0 {
        lemma_questions_in(lines.drop_last());
    }
}

/// Reads the questions out of the model's reply: one to a line, each
/// without the dashes in front and the white space around it, empty lines
/// passed over. A reply without content holds no question.
pub fn parse_questions(reply: &Option<String>) -> (questions: Vec<String>)
    ensures
        questions.deep_view() == parsed_questions(content_text(reply.deep_view())),
{
    let mut questions: Vec<String> = Vec::new();
    let text: &str = match reply {
        Some(text) => text.as_str(),
        None => "",
    };
    let chars = chars_of(text);
    let n = chars.len();
    // The lines that are complete, and where the line that is being read
    // begins.
    let ghost mut done: Seq<Seq<char>> = Seq::empty();
    let mut start: usize = 0;
    let mut i: usize = 0;
    proof {
        reveal_strlit("");
        assert(text@.take(0) =~= Seq::<char>::empty());
    }
    while i < n
        invariant
            start <= i <= n,
            n == chars.len(),
            chars@ == text@,
            lines_of(text@.take(i as int)) == done.push(text@.subrange(start as int, i as int)),
            questions.deep_view() == questions_in(done),
        decreases n - i,
    {
        let ghost line = text@.subrange(start as int, i as int);
        proof {
            let longer = text@.take(i + 1);
            assert(longer.drop_last() =~= text@.take(i as int));
            assert(done.push(line).drop_last() =~= done);
        }
        if chars[i] == '\n' {
            let question = trim(strip_leading(text.substring_char(start, i), '-'));
            if question.unicode_len() > 0 {
                questions.push(String::from_str(question));
            }
            proof {
                done = done.push(line);
                assert(text@.subrange(i + 1, i + 1) =~= Seq::<char>::empty());
            }
            start = i + 1;
        } else {
            proof {
                assert(text@.subrange(start as int, i + 1) =~= line.push(text@[i as int]));
            }
        }
        i = i + 1;
    }
    proof {
        assert(text@.take(n as int) =~= text@);
        assert(done.push(text@.subrange(start as int, n as int)).drop_last() =~= done);
    }
    let question = trim(strip_leading(text.substring_char(start, n), '-'));
    if question.unicode_len() > 0 {
        questions.push(String::from_str(question));
    }
    questions
}

/// The line that puts a generated question to the operator, with its
/// number among the questions, counted from 1.
pub open spec fn question_banner(number: nat, total: nat, question: Seq<char>) -> Seq<char> {
    "AI Question ("@ + decimal_text(number) + " of "@ + decimal_text(total) + "): "@ + question
}

/// The lines that put the questions to the operator, in order.
pub open spec fn question_banners(questions: Seq<Seq<char>>) -> Seq<Seq<char>> {
    Seq::new(
        questions.len(),
        |i: int| question_banner((i + 1) as nat, questions.len(), questions[i]),
    )
}

/// Writes the lines that put the questions to the operator, each with its
/// number and the number of questions.
pub fn banners(questions: &Vec<String>) -> (lines: Vec<String>)
    ensures
        lines.deep_view() == question_banners(questions.deep_view()),
{
    let n = questions.len();
    let mut lines: Vec<String> = Vec::new();
    let mut i: usize = 0;
    while i < n
        invariant
            i <= n,
            n == questions.len(),
            lines.deep_view() == question_banners(questions.deep_view()).take(i as int),
        decreases n - i,
    {
        let mut line = String::from_str("AI Question (");
        line.append(decimal(i + 1).as_str());
        line.append(" of ");
        line.append(decimal(n).as_str());
        line.append("): ");
        line.append(questions[i].as_str());
        let ghost before = lines;
        let ghost written = line;
        lines.push(line);
        proof {
            lemma_push_deep_view(before, lines, written);
            assert(lines.deep_view() =~= question_banners(questions.deep_view()).take(i + 1));
        }
        i = i + 1;
    }
    assert(lines.deep_view() =~= question_banners(questions.deep_view()));
    lines
}

/// The answer skips its question: apart from the case of its letters it
/// is the skip token.
pub open spec fn is_skip(answer: Seq<char>) -> bool {
    same_ignoring_ascii_case(answer, SKIP_TOKEN@)
}

/// The pairs that the first `n` questions leave: one for each answer that,
/// trimmed, does not skip its question.
pub open spec fn gathered(questions: Seq<Seq<char>>, answers: Seq<Seq<char>>, n: nat) -> Seq<
    QAPairView,
>
    decreases n,
{
    if n == 0 {
        Seq::empty()
    } else {
        let earlier = gathered(questions, answers, (n - 1) as nat);
        let answer = trimmed(answers[n - 1]);
        if is_skip(answer) {
            earlier
        } else {
            earlier.push(QAPairView { question: questions[n - 1], answer })
        }
    }
}

/// Pairs each question with the operator's answer. `answers` holds the
/// lines as the operator typed them, in the order of `questions`. An
/// answer is kept without the white space around it; one that is the skip
/// token, in letters of any case, leaves no pair. The pairs keep the order
/// of the questions.
pub fn gather_answers(questions: &Vec<String>, answers: &Vec<String>) -> (pairs: Vec<QAPair>)
    ensures
        pairs.deep_view() == gathered(
            questions.deep_view(),
            answers.deep_view(),
            answered_count(questions.deep_view(), answers.deep_view()),
        ),
{
    let n = if questions.len() <= answers.len() {
        questions.len()
    } else {
        answers.len()
    };
    let mut pairs: Vec<QAPair> = Vec::new();
    let mut i: usize = 0;
    while i < n
        invariant
            i <= n,
            n <= questions.len(),
            n <= answers.len(),
            pairs.deep_view() == gathered(questions.deep_view(), answers.deep_view(), i as nat),
        decreases n - i,
    {
        let answer = trim(answers[i].as_str());
        if !eq_ignore_ascii_case(answer, SKIP_TOKEN) {
            pairs.push(
                QAPair { question: questions[i].clone(), answer: String::from_str(answer) },
            );
        }
        i = i + 1;
    }
    pairs
}

/// The answers that skip a question are the four spellings of the skip
/// token and no others: a longer answer that begins with the token does
/// not skip.
pub proof fn lemma_skip_spellings(answer: Seq<char>)
    ensures
        is_skip(answer) <==> (answer.len() == 2 && (answer[0] == 'N' || answer[0] == 'n') && (
        answer[1] == 'A' || answer[1] == 'a')),
{
    reveal_strlit("NA");
}

/// How far the onboarding has come.
#[derive(Debug, Clone, Copy, PartialEq, Eq, Structural)]
pub enum Stage {
    /// The model is judging whether the description is vague.
    AwaitingVerdict,
    /// The operator is answering the general questions.
    GeneralQuestions,
    /// The model is proposing questions.
    AwaitingQuestions,
    /// The operator is answering the proposed questions.
    Questions,
    /// Everything is collected.
    Done,
}

/// What happened outside the onboarding since its last step.
#[derive(Debug, Clone, PartialEq, Eq)]
pub enum OnboardingEvent {
    /// The backend replied; these are its choices in order, each with
    /// or without content. The first choice is the one that is read.
    Reply(Vec<Option<String>>),
    /// The operator answered the questions that were put; these are the
    /// lines as typed, in the order of the questions.
    Answers(Vec<String>),
}

/// The mathematical value of an `OnboardingEvent`.
pub ghost enum OnboardingEventView {
    Reply(Seq<Option<Seq<char>>>),
    Answers(Seq<Seq<char>>),
}

impl View for OnboardingEvent {
    type V = OnboardingEventView;

    open spec fn view(&self) -> OnboardingEventView {
        match self {
            OnboardingEvent::Reply(reply) => OnboardingEventView::Reply(reply.deep_view()),
            OnboardingEvent::Answers(answers) => OnboardingEventView::Answers(
                answers.deep_view(),
            ),
        }
    }
}

/// What the caller is to do after a step of the onboarding.
#[derive(Debug, Clone, PartialEq, Eq)]
pub enum OnboardingAction {
    /// Send `request` to the backend; then hand in `OnboardingEvent::Reply`.
    Complete { request: CompletionRequest },
    /// Put the general questions to the operator, in this order; then
    /// hand in `OnboardingEvent::Answers`.
    AskGeneral { questions: Vec<String> },
    /// Put the proposed questions to the operator, each under its line of
    /// `banners`; then hand in `OnboardingEvent::Answers`.
    AskQuestions { banners: Vec<String> },
    /// Everything is collected: the prompt can be composed.
    Finished,
    /// The backend's reply holds no choice at all. The onboarding cannot
    /// go on from such a reply; nothing changed.
    NoChoice,
    /// The event is not one that the onboarding was waiting for; nothing
    /// changed.
    Unexpected,
}

/// The mathematical value of an `OnboardingAction`.
pub ghost enum OnboardingActionView {
    Complete { request: RequestView },
    AskGeneral { questions: Seq<Seq<char>> },
    AskQuestions { banners: Seq<Seq<char>> },
    Finished,
    NoChoice,
    Unexpected,
}

impl View for OnboardingAction {
    type V = OnboardingActionView;

    open spec fn view(&self) -> OnboardingActionView {
        match self {
            OnboardingAction::Complete { request } => OnboardingActionView::Complete {
                request: request@,
            },
            OnboardingAction::AskGeneral { questions } => OnboardingActionView::AskGeneral {
                questions: questions.deep_view(),
            },
            OnboardingAction::AskQuestions { banners } => OnboardingActionView::AskQuestions {
                banners: banners.deep_view(),
            },
            OnboardingAction::Finished => OnboardingActionView::Finished,
            OnboardingAction::NoChoice => OnboardingActionView::NoChoice,
            OnboardingAction::Unexpected => OnboardingActionView::Unexpected,
        }
    }
}

/// The mathematical value of an `Onboarding`.
pub ghost struct OnboardingView {
    pub profile: ProfileView,
    pub stage: Stage,
    /// The block of general answers; empty unless the description was
    /// found vague and the general questions were answered.
    pub general_answers: Seq<char>,
    /// The questions that the model proposed.
    pub questions: Seq<Seq<char>>,
    /// The proposed questions that were answered, with their answers.
    pub answered: Seq<QAPairView>,
}

/// The request for questions that an onboarding sends.
pub open spec fn question_request(
    profile: ProfileView,
    vague: bool,
    general_answers: Seq<char>,
) -> RequestView {
    instruction_request(question_request_text(profile, vague, general_answers), ANSWER_TOKENS)
}

/// The description was found vague: the general questions go to the
/// operator.
pub open spec fn to_general_questions(pre: OnboardingView) -> (
    OnboardingView,
    OnboardingActionView,
) {
    (
        OnboardingView { stage: Stage::GeneralQuestions, ..pre },
        OnboardingActionView::AskGeneral { questions: general_question_texts() },
    )
}

/// How an onboarding begins. A short description is vague without asking:
/// the general questions come first and the backend is not called. For a
/// longer one the model is asked for its verdict.
pub open spec fn begin_spec(profile: ProfileView) -> (OnboardingView, OnboardingActionView) {
    let fresh = OnboardingView {
        profile,
        stage: Stage::AwaitingVerdict,
        general_answers: Seq::empty(),
        questions: Seq::empty(),
        answered: Seq::empty(),
    };
    if profile.description.len() < VAGUE_BELOW {
        to_general_questions(fresh)
    } else {
        (
            fresh,
            OnboardingActionView::Complete {
                request: instruction_request(vagueness_question(profile), VERDICT_TOKENS),
            },
        )
    }
}

/// The model's verdict is in: on "vague" the general questions go to the
/// operator, on anything else the model is asked for questions at once.
pub open spec fn on_verdict(pre: OnboardingView, reply: Option<Seq<char>>) -> (
    OnboardingView,
    OnboardingActionView,
) {
    if says_vague(content_text(reply)) {
        to_general_questions(pre)
    } else {
        (
            OnboardingView { stage: Stage::AwaitingQuestions, ..pre },
            OnboardingActionView::Complete {
                request: question_request(pre.profile, false, Seq::empty()),
            },
        )
    }
}

/// The general questions are answered: the model is asked for questions,
/// with the answers before it.
pub open spec fn on_general_answers(pre: OnboardingView, answers: Seq<Seq<char>>) -> (
    OnboardingView,
    OnboardingActionView,
) {
    let block = general_answers_text(general_question_texts(), answers);
    (
        OnboardingView { stage: Stage::AwaitingQuestions, general_answers: block, ..pre },
        OnboardingActionView::Complete { request: question_request(pre.profile, true, block) },
    )
}

/// The model has proposed its questions: they go to the operator.
pub open spec fn on_proposal(pre: OnboardingView, reply: Option<Seq<char>>) -> (
    OnboardingView,
    OnboardingActionView,
) {
    let questions = parsed_questions(content_text(reply));
    (
        OnboardingView { stage: Stage::Questions, questions, ..pre },
        OnboardingActionView::AskQuestions { banners: question_banners(questions) },
    )
}

/// The proposed questions are answered: the pairs are kept and the
/// onboarding is done.
pub open spec fn on_answers(pre: OnboardingView, answers: Seq<Seq<char>>) -> (
    OnboardingView,
    OnboardingActionView,
) {
    (
        OnboardingView {
            stage: Stage::Done,
            answered: gathered(pre.questions, answers, answered_count(pre.questions, answers)),
            ..pre
        },
        OnboardingActionView::Finished,
    )
}

/// The onboarding after an event, and what is to be done next. Of a reply
/// of the backend the first choice is read; a reply without a choice
/// changes nothing and is reported. An event that the onboarding is not
/// waiting for changes nothing either.
pub open spec fn onboarding_step(pre: OnboardingView, event: OnboardingEventView) -> (
    OnboardingView,
    OnboardingActionView,
) {
    match (pre.stage, event) {
        (Stage::AwaitingVerdict, OnboardingEventView::Reply(choices)) => if choices.len() == 0 {
            (pre, OnboardingActionView::NoChoice)
        } else {
            on_verdict(pre, choices[0])
        },
        (Stage::GeneralQuestions, OnboardingEventView::Answers(answers)) => on_general_answers(
            pre,
            answers,
        ),
        (Stage::AwaitingQuestions, OnboardingEventView::Reply(choices)) => if choices.len() == 0 {
            (pre, OnboardingActionView::NoChoice)
        } else {
            on_proposal(pre, choices[0])
        },
        (Stage::Questions, OnboardingEventView::Answers(answers)) => on_answers(pre, answers),
        _ => (pre, OnboardingActionView::Unexpected),
    }
}

/// An onboarding in progress: the profile with what has been collected
/// for it so far.
pub struct Onboarding {
    profile: BusinessProfile,
    stage: Stage,
    general_answers: String,
    questions: Vec<String>,
    answered: Vec<QAPair>,
}

impl View for Onboarding {
    type V = OnboardingView;

    closed spec fn view(&self) -> OnboardingView {
        OnboardingView {
            profile: self.profile@,
            stage: self.stage,
            general_answers: self.general_answers@,
            questions: self.questions.deep_view(),
            answered: self.answered.deep_view(),
        }
    }
}

impl Onboarding {
    /// Begins the onboarding of the business with this profile.
    pub fn begin(profile: BusinessProfile) -> (next: (Onboarding, OnboardingAction))
        ensures
            (next.0@, next.1@) == begin_spec(profile@),
    {
        let check = is_vague(&profile);
        let fresh = Onboarding {
            profile,
            stage: Stage::AwaitingVerdict,
            general_answers: String::new(),
            questions: Vec::new(),
            answered: Vec::new(),
        };
        assert(fresh.questions.deep_view() =~= Seq::<Seq<char>>::empty());
        assert(fresh.answered.deep_view() =~= Seq::<QAPairView>::empty());
        match check {
            Vagueness::Vague => fresh.ask_general(),
            Vagueness::Ask { request } => (fresh, OnboardingAction::Complete { request }),
        }
    }

    fn ask_general(self) -> (next: (Onboarding, OnboardingAction))
        ensures
            (next.0@, next.1@) == to_general_questions(self@),
    {
        (
            Onboarding {
                profile: self.profile,
                stage: Stage::GeneralQuestions,
                general_answers: self.general_answers,
                questions: self.questions,
                answered: self.answered,
            },
            OnboardingAction::AskGeneral { questions: general_questions() },
        )
    }

    /// Takes the onboarding one step: from its state and an event to the
    /// next state and to what the caller is to do next.
    pub fn step(self, event: OnboardingEvent) -> (next: (Onboarding, OnboardingAction))
        ensures
            (next.0@, next.1@) == onboarding_step(self@, event@),
    {
        match (self.stage, event) {
            (Stage::AwaitingVerdict, OnboardingEvent::Reply(choices)) => {
                if choices.len() == 0 {
                    return (self, OnboardingAction::NoChoice);
                }
                if verdict_is_vague(&choices[0]) {
                    self.ask_general()
                } else {
                    let request = generate_questions(&self.profile, false, "");
                    proof {
                        reveal_strlit("");
                    }
                    (
                        Onboarding {
                            profile: self.profile,
                            stage: Stage::AwaitingQuestions,
                            general_answers: self.general_answers,
                            questions: self.questions,
                            answered: self.answered,
                        },
                        OnboardingAction::Complete { request },
                    )
                }
            },
            (Stage::GeneralQuestions, OnboardingEvent::Answers(answers)) => {
                let block = format_general_answers(&general_questions(), &answers);
                let request = generate_questions(&self.profile, true, block.as_str());
                (
                    Onboarding {
                        profile: self.profile,
                        stage: Stage::AwaitingQuestions,
                        general_answers: block,
                        questions: self.questions,
                        answered: self.answered,
                    },
                    OnboardingAction::Complete { request },
                )
            },
            (Stage::AwaitingQuestions, OnboardingEvent::Reply(choices)) => {
                if choices.len() == 0 {
                    return (self, OnboardingAction::NoChoice);
                }
                let questions = parse_questions(&choices[0]);
                let lines = banners(&questions);
                (
                    Onboarding {
                        profile: self.profile,
                        stage: Stage::Questions,
                        general_answers: self.general_answers,
                        questions,
                        answered: self.answered,
                    },
                    OnboardingAction::AskQuestions { banners: lines },
                )
            },
            (Stage::Questions, OnboardingEvent::Answers(answers)) => {
                let answered = gather_answers(&self.questions, &answers);
                (
                    Onboarding {
                        profile: self.profile,
                        stage: Stage::Done,
                        general_answers: self.general_answers,
                        questions: self.questions,
                        answered,
                    },
                    OnboardingAction::Finished,
                )
            },
            (_, _) => (self, OnboardingAction::Unexpected),
        }
    }

    /// The profile that is being taken on board.
    pub fn profile(&self) -> (profile: &BusinessProfile)
        ensures
            profile@ == self@.profile,
    {
        &self.profile
    }

    /// How far the onboarding has come.
    pub fn stage(&self) -> (stage: Stage)
        ensures
            stage == self@.stage,
    {
        self.stage
    }

    /// The block of general answers.
    pub fn general_answers(&self) -> (block: &String)
        ensures
            block@ == self@.general_answers,
    {
        &self.general_answers
    }

    /// The questions that the model proposed.
    pub fn questions(&self) -> (questions: &Vec<String>)
        ensures
            questions.deep_view() == self@.questions,
    {
        &self.questions
    }

    /// The proposed questions that were answered, with their answers.
    pub fn answered(&self) -> (answered: &Vec<QAPair>)
        ensures
            answered.deep_view() == self@.answered,
    {
        &self.answered
    }

    /// Composes the system prompt from what was collected, for the
    /// timestamp `now`.
    pub fn compose(&self, now: &str) -> (prompt: String)
        ensures
            prompt@ == system_prompt_text(
                self@.profile,
                self@.answered,
                self@.general_answers,
                now@,
            ),
    {
        let answered = self.answered.as_slice();
        compose(&self.profile, answered, self.general_answers.as_str(), now)
    }

    /// Composes the system prompt from what was collected, as of now.
    /// Reading the clock can fail by panic, as `prompt::generate_prompt`
    /// says; `compose` takes the timestamp from the caller and cannot.
    pub fn generate_prompt(&self) -> (prompt: String)
        ensures
            exists|now: Seq<char>|
                is_timestamp(now) && prompt@ == #[trigger] system_prompt_text(
                    self@.profile,
                    self@.answered,
                    self@.general_answers,
                    now,
                ),
    {
        let answered = self.answered.as_slice();
        let general_answers = self.general_answers.clone();
        let prompt = generate_prompt(&self.profile, answered, general_answers);
        proof {
            let now = choose|now: Seq<char>|
                is_timestamp(now) && prompt@ == #[trigger] system_prompt_text(
                    self.profile@,
                    answered.deep_view(),
                    general_answers@,
                    now,
                );
            assert(prompt@ == system_prompt_text(
                self@.profile,
                self@.answered,
                self@.general_answers,
                now,
            ));
        }
        prompt
    }
}

/// A description of fewer than `VAGUE_BELOW` characters is vague without
/// the backend being asked: the onboarding begins with the general
/// questions, and the first request to the backend is the one that the
/// answers to them bring about.
pub proof fn lemma_short_description_skips_verdict(profile: ProfileView, answers: Seq<Seq<char>>)
    requires
        profile.description.len() < VAGUE_BELOW,
    ensures
        begin_spec(profile).1 == (OnboardingActionView::AskGeneral {
            questions: general_question_texts(),
        }),
        begin_spec(profile).0.stage == Stage::GeneralQuestions,
        onboarding_step(begin_spec(profile).0, OnboardingEventView::Answers(answers)).1
            == (OnboardingActionView::Complete {
            request: question_request(
                profile,
                true,
                general_answers_text(general_question_texts(), answers),
            ),
        }),
{
}

/// An answer that skips its question leaves the pairs as they are; any
/// other answer adds one pair, the question with the trimmed answer, at
/// the end.
pub proof fn lemma_skipped_answer_leaves_no_pair(
    questions: Seq<Seq<char>>,
    answers: Seq<Seq<char>>,
    n: nat,
)
    requires
        n > 0,
    ensures
        is_skip(trimmed(answers[n - 1])) ==> gathered(questions, answers, n) == gathered(
            questions,
            answers,
            (n - 1) as nat,
        ),
        !is_skip(trimmed(answers[n - 1])) ==> gathered(questions, answers, n) == gathered(
            questions,
            answers,
            (n - 1) as nat,
        ).push(QAPairView { question: questions[n - 1], answer: trimmed(answers[n - 1]) }),
{
}

/// No pair that was gathered holds an answer that skips: the skip token,
/// in letters of whatever case, never becomes an answer.
pub proof fn lemma_gathered_holds_no_skip(
    questions: Seq<Seq<char>>,
    answers: Seq<Seq<char>>,
    n: nat,
)
    ensures
        forall|k: int|
            0 <= k < gathered(questions, answers, n).len() ==> !is_skip(
                #[trigger] gathered(questions, answers, n)[k].answer,
            ),
    decreases n,
{
    if n > 0 {
        lemma_gathered_holds_no_skip(questions, answers, (n - 1) as nat);
        let earlier = gathered(questions, answers, (n - 1) as nat);
        let all = gathered(questions, answers, n);
        assert forall|k: int| 0 <= k < all.len() implies !is_skip(#[trigger] all[k].answer) by {
            if k < earlier.len() {
                assert(all[k] == earlier[k]);
            }
        }
    }
}

/// Every answer that does not skip its question is kept: its question and
/// the answer, trimmed, are among the pairs that were gathered.
pub proof fn lemma_gathered_keeps_other_answers(
    questions: Seq<Seq<char>>,
    answers: Seq<Seq<char>>,
    n: nat,
    k: int,
)
    requires
        0 <= k < n,
        !is_skip(trimmed(answers[k])),
    ensures
        gathered(questions, answers, n).contains(
            QAPairView { question: questions[k], answer: trimmed(answers[k]) },
        ),
    decreases n,
{
    let all = gathered(questions, answers, n);
    let earlier = gathered(questions, answers, (n - 1) as nat);
    let pair = QAPairView { question: questions[k], answer: trimmed(answers[k]) };
    if k == n - 1 {
        assert(all[all.len() - 1] == pair);
    } else {
        lemma_gathered_keeps_other_answers(questions, answers, (n - 1) as nat, k);
        let at = choose|i: int| 0 <= i < earlier.len() && earlier[i] == pair;
        assert(all[at] == pair);
    }
}

/// No line of the general answers is that of an answer that skips: each
/// line is the line of a question whose answer does not skip it, with the
/// answer trimmed.
pub proof fn lemma_general_lines_hold_no_skip(
    questions: Seq<Seq<char>>,
    answers: Seq<Seq<char>>,
    n: nat,
    j: int,
)
    requires
        0 <= j < general_lines(questions, answers, n).len(),
    ensures
        general_lines(questions, answers, n).len() <= n,
        exists|k: int|
            0 <= k < n && !skips_general(#[trigger] answers[k]) && general_lines(
                questions,
                answers,
                n,
            )[j] == qa_line(questions[k], trimmed(answers[k])),
    decreases n,
{
    let all = general_lines(questions, answers, n);
    let earlier = general_lines(questions, answers, (n - 1) as nat);
    if j < earlier.len() {
        lemma_general_lines_hold_no_skip(questions, answers, (n - 1) as nat, j);
        let k = choose|k: int|
            0 <= k < n - 1 && !skips_general(#[trigger] answers[k]) && earlier[j] == qa_line(
                questions[k],
                trimmed(answers[k]),
            );
        assert(!skips_general(answers[k]) && all[j] == qa_line(questions[k], trimmed(answers[k])));
    } else {
        if earlier.len() > 0 {
            lemma_general_lines_hold_no_skip(questions, answers, (n - 1) as nat, 0);
        }
        assert(!skips_general(answers[n - 1]));
    }
}

/// Every general answer that does not skip its question leaves its line.
pub proof fn lemma_general_lines_keep_other_answers(
    questions: Seq<Seq<char>>,
    answers: Seq<Seq<char>>,
    n: nat,
    k: int,
)
    requires
        0 <= k < n,
        !skips_general(answers[k]),
    ensures
        general_lines(questions, answers, n).contains(
            qa_line(questions[k], trimmed(answers[k])),
        ),
    decreases n,
{
    let all = general_lines(questions, answers, n);
    let earlier = general_lines(questions, answers, (n - 1) as nat);
    let line = qa_line(questions[k], trimmed(answers[k]));
    if k == n - 1 {
        assert(all[all.len() - 1] == line);
    } else {
        lemma_general_lines_keep_other_answers(questions, answers, (n - 1) as nat, k);
        let at = choose|i: int| 0 <= i < earlier.len() && earlier[i] == line;
        assert(all[at] == line);
    }
}

} // verus!
