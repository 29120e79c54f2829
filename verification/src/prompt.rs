//! The system prompt: how it is composed from what was collected, and how a
//! correction made in training mode is added to its text.

use crate::clock::{is_timestamp, lemma_timestamp_characters, local_timestamp};
use crate::profile::{BusinessProfile, ProfileView};
use crate::text::{
    contains, has_occurrence, join, joined, lemma_occurrence_beside, lemma_occurrence_extends,
    lemma_occurrence_past_prefix, lemma_occurrence_shifts, occurs_at, occurs_once,
};
use crate::views::lemma_push_deep_view;
use vstd::prelude::*;
use vstd::string::*;

verus! {

/// Opens the system prompt; the timestamp follows it.
pub const PROMPT_OPENING: &'static str = "The current date and time is ";

/// Stands between the timestamp and the business name.
pub const PROMPT_BEFORE_NAME: &'static str =
    ", in the format YYYY-MM-DDTHH:MM:SS.SSSSSS±HH:MM. You are a customer helper AI, \
    designed to assist with all customer service matters related to a business named ";

/// Stands between the business name and the industry.
pub const PROMPT_BEFORE_INDUSTRY: &'static str = ", working in the industry ";

/// Stands between the industry and the description.
pub const PROMPT_BEFORE_DESCRIPTION: &'static str =
    ". The description given for this business is \"";

/// Stands between the description and the collected answers.
pub const PROMPT_BEFORE_ANSWERS: &'static str =
    "\" by your manager.\n        You are currently enagaged with a customer or potential \
    customer of the business, your role is to ensure that customer queries are answered \
    correctly, including questions about pricing, services/products offered, appointment \
    bookings and queries regarding appointments as well as any\n        general questions \
    about the nature of the business. Here is a list of more exhaustive information, \
    through questioning the manager, about the business to ensure you are clearly \
    knowledgable about it: ";

/// The fixed policy block that closes the system prompt: natural tone, staying on
/// topic, professionalism, honesty about being an AI when asked, no links from
/// outside the business, and handing over to a human when no answer is known.
pub const PROMPT_POLICY: &'static str =
    ".\n        Other directives for you are as follows:\n        **Human**: Act natural and \
    human, don't be too robotic or mechanical in your responses - you can reveal your \
    identity if inquired about, but other than that act as natural as possible. Instead of \
    using robotic words like \"assist\" use words like \"help\", etc.\n        **Stay \
    Ontopic**: Don't leave the topic of the business, try to stay on topic and answer \
    questions related to the business, if they try to move off topic, bring them back on \
    topic.\n        **Professionalism**: Always maintain a courteous and professional \
    demeanor. Your responses should reflect the business's values and standards.\n        \
    **Transparency**: If a customer inquires about your nature, be honest. Inform them that \
    you are an AI designed to assist and make their experience smoother.\n        \
    **Constraints**: Ensure never to give out links to non-business provided material, if \
    there is no context to a question (for example 'how can i buy x?') assume that they are \
    trying to use or buy something from the business\n        **Training**: If the message \
    [TRAINDATA] is given to you, this is for your training by a developer. Ensure that you \
    listen to what is told and reply with nothing. This is to ensure that you are trained \
    to respond to certain prompts in a certain way.\n        However, try to act as normal \
    and human as possible, do not mention that you are an AI in any way whatsoever asides \
    from if directly asked by the customer. \n        Your ultimate goal is to ensure \
    customer satisfaction by providing them with accurate, timely, and helpful responses. \
    If you are confused and do not know an answer, \n        feel free to direct the user \
    to a human employee by simply letting them know that you have raised their query to an \
    employee and that they will be in contact with them shortly.\n        Every interaction \
    should instill confidence in the customer about the business's capability and \
    professionalism. Feel free to proceed while adhering to these guidelines.";

/// The header of the trailer that holds the corrections. It is written at
/// most once, before the first correction.
pub const TRAILER_HEADER: &'static str = "MAKE SURE YOU REPLY IN THIS WAY FOR THESE PROMPTS:";

/// A question of the onboarding session with the operator's answer.
#[derive(Debug, Clone, PartialEq, Eq)]
pub struct QAPair {
    pub question: String,
    pub answer: String,
}

/// The mathematical value of a `QAPair`.
pub ghost struct QAPairView {
    pub question: Seq<char>,
    pub answer: Seq<char>,
}

impl View for QAPair {
    type V = QAPairView;

    open spec fn view(&self) -> QAPairView {
        QAPairView { question: self.question@, answer: self.answer@ }
    }
}

impl DeepView for QAPair {
    type V = QAPairView;

    open spec fn deep_view(&self) -> QAPairView {
        self@
    }
}

/// One question and its answer as a line of the prompt.
pub open spec fn qa_line(question: Seq<char>, answer: Seq<char>) -> Seq<char> {
    "Q: "@ + question + " A: "@ + answer
}

/// The lines of all pairs, in order.
pub open spec fn qa_lines(pairs: Seq<QAPairView>) -> Seq<Seq<char>> {
    Seq::new(pairs.len(), |i: int| qa_line(pairs[i].question, pairs[i].answer))
}

/// What the prompt tells of the business beyond its description: the
/// answered questions, one line each, then a line break and the block of
/// general answers.
pub open spec fn answers_block(pairs: Seq<QAPairView>, general_answers: Seq<char>) -> Seq<char> {
    joined(qa_lines(pairs), "\n"@) + "\n"@ + general_answers
}

/// The part of the system prompt that follows the timestamp. It does not
/// depend on the time.
pub open spec fn prompt_body(
    profile: ProfileView,
    pairs: Seq<QAPairView>,
    general_answers: Seq<char>,
) -> Seq<char> {
    PROMPT_BEFORE_NAME@ + profile.name + PROMPT_BEFORE_INDUSTRY@ + profile.industry
        + PROMPT_BEFORE_DESCRIPTION@ + profile.description + PROMPT_BEFORE_ANSWERS@
        + answers_block(pairs, general_answers) + PROMPT_POLICY@
}

/// The system prompt for a business, its answers and a timestamp `now`.
pub open spec fn system_prompt_text(
    profile: ProfileView,
    pairs: Seq<QAPairView>,
    general_answers: Seq<char>,
    now: Seq<char>,
) -> Seq<char> {
    PROMPT_OPENING@ + now + prompt_body(profile, pairs, general_answers)
}

/// Writes one question and its answer as a line of the prompt.
pub fn format_qa(question: &str, answer: &str) -> (line: String)
    ensures
        line@ == qa_line(question@, answer@),
{
    let mut line = String::from_str("Q: ");
    line.append(question);
    line.append(" A: ");
    line.append(answer);
    line
}

fn format_answers(pairs: &[QAPair], general_answers: &str) -> (block: String)
    ensures
        block@ == answers_block(pairs.deep_view(), general_answers@),
{
    let mut lines: Vec<String> = Vec::new();
    let mut i: usize = 0;
    while i < pairs.len()
        invariant
            i <= pairs.len(),
            lines.deep_view() == qa_lines(pairs.deep_view()).take(i as int),
        decreases pairs.len() - i,
    {
        let line = format_qa(pairs[i].question.as_str(), pairs[i].answer.as_str());
        let ghost before = lines;
        let ghost written = line;
        lines.push(line);
        proof {
            lemma_push_deep_view(before, lines, written);
            assert(lines.deep_view() =~= qa_lines(pairs.deep_view()).take(i + 1));
        }
        i = i + 1;
    }
    assert(lines.deep_view() =~= qa_lines(pairs.deep_view()));
    let mut block = join(&lines, "\n");
    block.append("\n");
    block.append(general_answers);
    block
}

/// Composes the system prompt from the profile, the answered questions, the
/// block of general answers and the timestamp `now`. The text is fixed by
/// these four alone: the same inputs give the same prompt, character for
/// character.
pub fn compose(
    profile: &BusinessProfile,
    answered_questions: &[QAPair],
    general_answers: &str,
    now: &str,
) -> (prompt: String)
    ensures
        prompt@ == system_prompt_text(
            profile@,
            answered_questions.deep_view(),
            general_answers@,
            now@,
        ),
{
    let block = format_answers(answered_questions, general_answers);
    let mut body = String::from_str(PROMPT_BEFORE_NAME);
    body.append(profile.name.as_str());
    body.append(PROMPT_BEFORE_INDUSTRY);
    body.append(profile.industry.as_str());
    body.append(PROMPT_BEFORE_DESCRIPTION);
    body.append(profile.description.as_str());
    body.append(PROMPT_BEFORE_ANSWERS);
    body.append(block.as_str());
    body.append(PROMPT_POLICY);
    let mut prompt = String::from_str(PROMPT_OPENING);
    prompt.append(now);
    prompt.append(body.as_str());
    prompt
}

/// Composes the system prompt as of now: reads the clock and hands the
/// timestamp to `compose`. The prompt holds a timestamp in the form that
/// it announces; apart from the timestamp the text is fixed by the
/// arguments.
///
/// Reading the clock is the one step here that can fail, and it fails by
/// panic: where the machine's clock stands before 1970, where its time
/// zone gives an offset of a day or more, or where the moment lies beyond
/// the years that `chrono` counts. A caller that brings its own timestamp
/// calls `compose`, which cannot panic.
pub fn generate_prompt(
    business: &BusinessProfile,
    answered_questions: &[QAPair],
    generic_answers: String,
) -> (prompt: String)
    ensures
        exists|now: Seq<char>|
            is_timestamp(now) && prompt@ == #[trigger] system_prompt_text(
                business@,
                answered_questions.deep_view(),
                generic_answers@,
                now,
            ),
{
    let now = local_timestamp();
    compose(business, answered_questions, generic_answers.as_str(), now.as_str())
}

/// Two prompts composed from the same profile and answers are equal as soon
/// as their timestamps are, and otherwise differ in the timestamp alone:
/// both are the fixed opening, the timestamp, and one common body.
pub proof fn lemma_prompt_fixed_by_inputs(
    profile: ProfileView,
    pairs: Seq<QAPairView>,
    general_answers: Seq<char>,
    first: Seq<char>,
    second: Seq<char>,
)
    ensures
        first == second ==> system_prompt_text(profile, pairs, general_answers, first)
            == system_prompt_text(profile, pairs, general_answers, second),
        system_prompt_text(profile, pairs, general_answers, first) == PROMPT_OPENING@ + first
            + prompt_body(profile, pairs, general_answers),
        system_prompt_text(profile, pairs, general_answers, second) == PROMPT_OPENING@ + second
            + prompt_body(profile, pairs, general_answers),
{
}

/// A correction as it is written into the prompt: the input that it is for,
/// then the reply that it demands.
pub open spec fn directive_text(trigger: Seq<char>, reply: Seq<char>) -> Seq<char> {
    "For: "@ + trigger + "\nReply: "@ + reply
}

/// The prompt after a correction was added to its text. The first
/// correction brings the trailer header with it; a later one goes on a new
/// line below what is there.
pub open spec fn amended(prompt: Seq<char>, trigger: Seq<char>, reply: Seq<char>) -> Seq<char> {
    if has_occurrence(prompt, TRAILER_HEADER@) {
        prompt + "\n"@ + directive_text(trigger, reply)
    } else {
        prompt + "\n\n"@ + TRAILER_HEADER@ + ":\n"@ + directive_text(trigger, reply)
    }
}

/// Writes a correction as it stands in the prompt.
pub fn format_directive(trigger: &str, reply: &str) -> (text: String)
    ensures
        text@ == directive_text(trigger@, reply@),
{
    let mut text = String::from_str("For: ");
    text.append(trigger);
    text.append("\nReply: ");
    text.append(reply);
    text
}

/// Adds to the text of `current_prompt` the correction that `user_prompt`
/// is from now on to be answered with `new_reply`. Nothing that the prompt
/// already holds is changed or removed.
pub fn update_prompt(
    current_prompt: String,
    user_prompt: String,
    new_reply: String,
) -> (updated: String)
    ensures
        updated@ == amended(current_prompt@, user_prompt@, new_reply@),
{
    let specific_reply = format_directive(user_prompt.as_str(), new_reply.as_str());
    let has_header = contains(current_prompt.as_str(), TRAILER_HEADER);
    let mut updated = current_prompt;
    if has_header {
        updated.append("\n");
        updated.append(specific_reply.as_str());
    } else {
        updated.append("\n\n");
        updated.append(TRAILER_HEADER);
        updated.append(":\n");
        updated.append(specific_reply.as_str());
    }
    updated
}

/// `text` nowhere holds the trailer header.
pub open spec fn header_free(text: Seq<char>) -> bool {
    !has_occurrence(text, TRAILER_HEADER@)
}

/// What the proofs below need to know of the header's characters.
proof fn lemma_header_shape()
    ensures
        TRAILER_HEADER@.len() == 50,
        TRAILER_HEADER@[0] == 'M',
        TRAILER_HEADER@[1] == 'A',
        forall|k: int| 0 <= k < TRAILER_HEADER@.len() ==> TRAILER_HEADER@[k] != '\n',
{
    reveal_strlit("MAKE SURE YOU REPLY IN THIS WAY FOR THESE PROMPTS:");
}

/// A timestamp does not spell the header out: it holds no letter but `T`.
pub proof fn lemma_timestamp_header_free(now: Seq<char>)
    requires
        is_timestamp(now),
    ensures
        header_free(now),
{
    lemma_header_shape();
    lemma_timestamp_characters(now);
    assert forall|i: int| !occurs_at(now, TRAILER_HEADER@, i) by {
        if occurs_at(now, TRAILER_HEADER@, i) {
            assert(now.subrange(i, i + 50)[0] == now[i]);
        }
    }
}

/// A correction whose two parts are free of the header is free of it as
/// written.
pub proof fn lemma_directive_header_free(trigger: Seq<char>, reply: Seq<char>)
    requires
        header_free(trigger),
        header_free(reply),
    ensures
        header_free(directive_text(trigger, reply)),
{
    lemma_header_shape();
    reveal_strlit("For: ");
    reveal_strlit("\nReply: ");
    reveal_strlit("Reply: ");
    let header = TRAILER_HEADER@;
    let left = "For: "@ + trigger;
    let right = "Reply: "@ + reply;
    let written = directive_text(trigger, reply);
    assert(written =~= left + seq!['\n'] + right);
    assert forall|i: int| !occurs_at(written, header, i) by {
        if occurs_at(written, header, i) {
            lemma_occurrence_beside(left, '\n', right, header, i);
            if occurs_at(left, header, i) {
                lemma_occurrence_past_prefix("For: "@, trigger, header, i);
            } else {
                lemma_occurrence_past_prefix("Reply: "@, reply, header, i - left.len() - 1);
            }
        }
    }
}

/// The first correction that is added to a prompt brings the header with
/// it, once.
pub proof fn lemma_first_amendment_writes_header(
    prompt: Seq<char>,
    trigger: Seq<char>,
    reply: Seq<char>,
)
    requires
        header_free(prompt),
        header_free(trigger),
        header_free(reply),
    ensures
        occurs_once(amended(prompt, trigger, reply), TRAILER_HEADER@),
{
    lemma_header_shape();
    lemma_directive_header_free(trigger, reply);
    reveal_strlit("\n\n");
    reveal_strlit(":\n");
    let header = TRAILER_HEADER@;
    let written = directive_text(trigger, reply);
    let result = amended(prompt, trigger, reply);
    let headed = header + seq![':'];
    let trailer = headed + seq!['\n'] + written;
    let below = Seq::<char>::empty() + seq!['\n'] + trailer;
    assert(result =~= prompt + seq!['\n'] + below);
    let at = prompt.len() as int + 2;
    assert(occurs_at(result, header, at)) by {
        assert(headed.subrange(0, 50) =~= header);
        assert(trailer =~= headed + (seq!['\n'] + written));
        lemma_occurrence_extends(headed, seq!['\n'] + written, header, 0);
        lemma_occurrence_shifts(Seq::<char>::empty() + seq!['\n'], trailer, header, 0);
        lemma_occurrence_shifts(prompt + seq!['\n'], below, header, 1);
    }
    assert forall|j: int| occurs_at(result, header, j) implies j == at by {
        lemma_occurrence_beside(prompt, '\n', below, header, j);
        let j1 = j - prompt.len() - 1;
        lemma_occurrence_beside(Seq::<char>::empty(), '\n', trailer, header, j1);
        let j2 = j1 - 1;
        lemma_occurrence_beside(headed, '\n', written, header, j2);
        if j2 == 1 {
            // The header would begin with its own second character.
            assert(headed.subrange(1, 51)[0] == headed[1]);
        }
    }
}

/// A correction that is added to a prompt that holds the header once
/// leaves it at once.
pub proof fn lemma_later_amendment_keeps_header(
    prompt: Seq<char>,
    trigger: Seq<char>,
    reply: Seq<char>,
)
    requires
        occurs_once(prompt, TRAILER_HEADER@),
        header_free(trigger),
        header_free(reply),
    ensures
        occurs_once(amended(prompt, trigger, reply), TRAILER_HEADER@),
{
    lemma_header_shape();
    lemma_directive_header_free(trigger, reply);
    reveal_strlit("\n");
    let header = TRAILER_HEADER@;
    let written = directive_text(trigger, reply);
    let result = amended(prompt, trigger, reply);
    let at = choose|i: int|
        #[trigger] occurs_at(prompt, header, i) && forall|j: int|
            occurs_at(prompt, header, j) ==> j == i;
    assert(result =~= prompt + seq!['\n'] + written);
    assert(occurs_at(result, header, at)) by {
        lemma_occurrence_extends(prompt, seq!['\n'] + written, header, at);
        assert(result =~= prompt + (seq!['\n'] + written));
    }
    assert forall|j: int| occurs_at(result, header, j) implies j == at by {
        lemma_occurrence_beside(prompt, '\n', written, header, j);
    }
}

/// However often a prompt is amended, the header is inserted once: after
/// two corrections of a prompt that did not hold the header, the header
/// stands in it at exactly one position. The corrections themselves must
/// not spell the header out.
pub proof fn lemma_header_inserted_once(
    prompt: Seq<char>,
    first_trigger: Seq<char>,
    first_reply: Seq<char>,
    second_trigger: Seq<char>,
    second_reply: Seq<char>,
)
    requires
        header_free(prompt),
        header_free(first_trigger),
        header_free(first_reply),
        header_free(second_trigger),
        header_free(second_reply),
    ensures
        occurs_once(
            amended(amended(prompt, first_trigger, first_reply), second_trigger, second_reply),
            TRAILER_HEADER@,
        ),
{
    lemma_first_amendment_writes_header(prompt, first_trigger, first_reply);
    lemma_later_amendment_keeps_header(
        amended(prompt, first_trigger, first_reply),
        second_trigger,
        second_reply,
    );
}

/// `text` is one line: it holds no line feed.
pub open spec fn single_line(text: Seq<char>) -> bool {
    forall|k: int| 0 <= k < text.len() ==> text[k] != '\n'
}

/// A correction is written once: where input and reply are one line each
/// and the correction does not stand in the prompt already, it stands in
/// the amended prompt at one position, the last, and at no other.
pub proof fn lemma_amendment_writes_correction_once(
    prompt: Seq<char>,
    trigger: Seq<char>,
    reply: Seq<char>,
)
    requires
        single_line(trigger),
        single_line(reply),
        !has_occurrence(prompt, directive_text(trigger, reply)),
    ensures
        occurs_once(amended(prompt, trigger, reply), directive_text(trigger, reply)),
        occurs_at(
            amended(prompt, trigger, reply),
            directive_text(trigger, reply),
            amended(prompt, trigger, reply).len() - directive_text(trigger, reply).len(),
        ),
{
    lemma_header_shape();
    reveal_strlit("For: ");
    reveal_strlit("\nReply: ");
    reveal_strlit("\n");
    reveal_strlit("\n\n");
    reveal_strlit(":\n");
    let written = directive_text(trigger, reply);
    let result = amended(prompt, trigger, reply);
    let sep = if has_occurrence(prompt, TRAILER_HEADER@) {
        "\n"@
    } else {
        "\n\n"@ + TRAILER_HEADER@ + ":\n"@
    };
    let start = prompt.len() as int;
    let at = start + sep.len();
    // The one line feed of the correction, between input and reply.
    let feed = 5 + trigger.len() as int;
    assert(result =~= prompt + sep + written);
    assert(written[0] == 'F');
    assert(written[feed] == '\n');
    assert(written[feed + 1] == 'R');
    assert forall|k: int| 0 <= k < written.len() && k != feed implies written[k] != '\n' by {
        if k < 5 {
        } else if k < feed {
            assert(written[k] == trigger[k - 5]);
        } else if k < feed + 8 {
        } else {
            assert(written[k] == reply[k - feed - 8]);
        }
    }
    assert(occurs_at(result, written, at)) by {
        assert(result.subrange(at, at + written.len()) =~= written);
    }
    assert forall|j: int| occurs_at(result, written, j) implies j == at by {
        let window = result.subrange(j, j + written.len());
        assert forall|k: int| 0 <= k < written.len() implies result[j + k] == written[k] by {
            assert(window[k] == result[j + k]);
        }
        if j < at {
            if j + written.len() <= start {
                // It would stand in the prompt as it was.
                assert(prompt.subrange(j, j + written.len()) =~= window);
                assert(occurs_at(prompt, written, j));
            } else if j + written.len() > at - 1 {
                // It would reach across the line feed before the new
                // correction, and go on with the beginning of the new one.
                assert(result[at - 1] == '\n');
                assert(result[j + (at - 1 - j)] == written[at - 1 - j]);
                assert(at - 1 - j == feed);
                assert(result[j + (feed + 1)] == written[feed + 1]);
                assert(result[at] == written[0]);
            } else {
                // It would stand in the opening of the trailer, which holds
                // two line feeds in a row and then none.
                assert(sep.len() == 54);
                assert(result[start] == '\n' && result[start + 1] == '\n');
                if j <= start {
                    assert(result[j + (start - j)] == written[start - j]);
                    assert(start - j == feed);
                    assert(result[j + (feed + 1)] == written[feed + 1]);
                } else if j == start + 1 {
                    assert(result[j + 0] == written[0]);
                } else {
                    assert(result[j + feed] == written[feed]);
                    assert(result[j + feed] == sep[j + feed - start]);
                    assert(sep[j + feed - start] == (TRAILER_HEADER@ + ":\n"@)[j + feed - start - 2]);
                }
            }
        }
    }
}

} // verus!
