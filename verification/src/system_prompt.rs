//! The live system prompt of a session: the composed text and, below one
//! shared header, the corrections that training mode has made.
//!
//! The prompt is kept in parts and written out when it is sent. There is
//! one correction for each input: a later correction for an input takes
//! the place of the earlier one. Written out, the prompt is what amending
//! the composed text with each correction in turn gives: the header is
//! written before the first correction unless the composed text holds it
//! already.

use crate::prompt::{
    amended, directive_text, format_directive, header_free, lemma_first_amendment_writes_header,
    lemma_later_amendment_keeps_header, TRAILER_HEADER,
};
use crate::text::{
    contains, has_occurrence, join, joined, lemma_joined_holds_each_part, lemma_occurrence_extends,
    lemma_occurrence_shifts, occurs_at, occurs_once,
};
use crate::views::{lemma_push_deep_view, lemma_update_deep_view};
use vstd::prelude::*;
use vstd::string::*;

verus! {

/// A correction: from now on `trigger_input`, a message that a user sent
/// before, is to be answered with `required_reply`.
#[derive(Debug, Clone, PartialEq, Eq)]
pub struct TrainingDirective {
    pub trigger_input: String,
    pub required_reply: String,
}

/// The mathematical value of a `TrainingDirective`.
pub ghost struct DirectiveView {
    pub trigger_input: Seq<char>,
    pub required_reply: Seq<char>,
}

impl View for TrainingDirective {
    type V = DirectiveView;

    open spec fn view(&self) -> DirectiveView {
        DirectiveView { trigger_input: self.trigger_input@, required_reply: self.required_reply@ }
    }
}

impl DeepView for TrainingDirective {
    type V = DirectiveView;

    open spec fn deep_view(&self) -> DirectiveView {
        self@
    }
}

/// The mathematical value of a `SystemPrompt`: the composed text and the
/// corrections in the order in which their inputs were first corrected.
pub ghost struct SystemPromptView {
    pub base: Seq<char>,
    pub directives: Seq<DirectiveView>,
}

/// No two corrections are for the same input.
pub open spec fn distinct_triggers(directives: Seq<DirectiveView>) -> bool {
    forall|i: int, j: int|
        0 <= i < j < directives.len() ==> directives[i].trigger_input
            != directives[j].trigger_input
}

/// The first position at or after `from` whose correction is for
/// `trigger`, or the number of corrections if there is none.
pub open spec fn trigger_position(
    directives: Seq<DirectiveView>,
    trigger: Seq<char>,
    from: int,
) -> int
    decreases directives.len() - from,
{
    if 0 <= from < directives.len() && directives[from].trigger_input != trigger {
        trigger_position(directives, trigger, from + 1)
    } else {
        from
    }
}

/// The corrections after `directive` was issued: it takes the place of the
/// correction for the same input if there is one, and else comes last.
pub open spec fn with_directive(
    directives: Seq<DirectiveView>,
    directive: DirectiveView,
) -> Seq<DirectiveView> {
    let at = trigger_position(directives, directive.trigger_input, 0);
    if at < directives.len() {
        directives.update(at, directive)
    } else {
        directives.push(directive)
    }
}

/// The corrections as they are written, one after the other.
pub open spec fn directive_texts(directives: Seq<DirectiveView>) -> Seq<Seq<char>> {
    Seq::new(
        directives.len(),
        |i: int| directive_text(directives[i].trigger_input, directives[i].required_reply),
    )
}

/// What stands between the composed text and the first correction: a
/// blank line, the header and a colon, or only a line break if the
/// composed text itself holds the header somewhere. The header is not
/// written a second time.
pub open spec fn trailer_opening(base: Seq<char>) -> Seq<char> {
    if has_occurrence(base, TRAILER_HEADER@) {
        "\n"@
    } else {
        "\n\n"@ + TRAILER_HEADER@ + ":\n"@
    }
}

/// The prompt as one text: the composed text alone while there is no
/// correction; else the composed text, the opening of the trailer, and
/// below it the corrections, each on a line of its own. It is the text
/// that amending the composed text with each correction in turn gives.
pub open spec fn rendered(prompt: SystemPromptView) -> Seq<char> {
    if prompt.directives.len() == 0 {
        prompt.base
    } else {
        prompt.base + trailer_opening(prompt.base) + joined(
            directive_texts(prompt.directives),
            "\n"@,
        )
    }
}

/// Neither part of any correction spells the header out.
pub open spec fn directives_header_free(directives: Seq<DirectiveView>) -> bool {
    forall|i: int|
        0 <= i < directives.len() ==> header_free(#[trigger] directives[i].trigger_input)
            && header_free(directives[i].required_reply)
}

/// The result of the search lies between its start and the end, no
/// correction from the start up to it is for the trigger, and the one at
/// it is.
pub proof fn lemma_trigger_position(directives: Seq<DirectiveView>, trigger: Seq<char>, from: int)
    requires
        0 <= from <= directives.len(),
    ensures
        from <= trigger_position(directives, trigger, from) <= directives.len(),
        forall|k: int|
            from <= k < trigger_position(directives, trigger, from)
                ==> directives[k].trigger_input != trigger,
        ({
            let at = trigger_position(directives, trigger, from);
            at < directives.len() ==> directives[at].trigger_input == trigger
        }),
    decreases directives.len() - from,
{
    if from < directives.len() && directives[from].trigger_input != trigger {
        lemma_trigger_position(directives, trigger, from + 1);
    }
}

/// Issuing a correction keeps the corrections one for each input.
pub proof fn lemma_with_directive_distinct(directives: Seq<DirectiveView>, directive: DirectiveView)
    requires
        distinct_triggers(directives),
    ensures
        distinct_triggers(with_directive(directives, directive)),
{
    lemma_trigger_position(directives, directive.trigger_input, 0);
    let at = trigger_position(directives, directive.trigger_input, 0);
    let after = with_directive(directives, directive);
    assert forall|i: int, j: int| 0 <= i < j < after.len() implies after[i].trigger_input
        != after[j].trigger_input by {
        if at < directives.len() {
            // The correction took the place of the one for its input: every
            // place holds the input that it held.
            assert(after[i].trigger_input == directives[i].trigger_input);
            assert(after[j].trigger_input == directives[j].trigger_input);
        }
    }
}

/// Issuing a correction for an input that has none agrees with amending
/// the text: the prompt written out after the correction is the prompt
/// written out before it, amended with the correction.
pub proof fn lemma_rendered_agrees_with_amended(
    base: Seq<char>,
    directives: Seq<DirectiveView>,
    directive: DirectiveView,
)
    ensures
        rendered(SystemPromptView { base, directives: directives.push(directive) }) == amended(
            rendered(SystemPromptView { base, directives }),
            directive.trigger_input,
            directive.required_reply,
        ),
{
    let header = TRAILER_HEADER@;
    let before = rendered(SystemPromptView { base, directives });
    let after = rendered(SystemPromptView { base, directives: directives.push(directive) });
    let written = directive_text(directive.trigger_input, directive.required_reply);
    let texts = directive_texts(directives);
    let more = directive_texts(directives.push(directive));
    assert(more.drop_last() =~= texts);
    if directives.len() == 0 {
        assert(after =~= amended(before, directive.trigger_input, directive.required_reply));
    } else {
        // The header stands in the prompt as it was, so the correction goes
        // on a new line below.
        let below = joined(texts, "\n"@);
        assert(has_occurrence(before, header)) by {
            if has_occurrence(base, header) {
                let at = choose|i: int| occurs_at(base, header, i);
                lemma_occurrence_extends(base, "\n"@ + below, header, at);
                assert(before =~= base + ("\n"@ + below));
            } else {
                let lead = base + "\n\n"@;
                assert(header.subrange(0, header.len() as int) =~= header);
                lemma_occurrence_shifts(lead, header, header, 0);
                lemma_occurrence_extends(lead + header, ":\n"@ + below, header, lead.len() as int);
                assert(before =~= lead + header + (":\n"@ + below));
            }
        }
        assert(after =~= before + "\n"@ + written);
    }
}

/// The header stands in the prompt written out at most once: not at all
/// while the composed text does not hold it and there is no correction,
/// and else exactly once. This holds as long as the composed text holds
/// the header at most once and no correction spells it out.
pub proof fn lemma_rendered_header(prompt: SystemPromptView)
    requires
        header_free(prompt.base) || occurs_once(prompt.base, TRAILER_HEADER@),
        directives_header_free(prompt.directives),
    ensures
        header_free(prompt.base) && prompt.directives.len() == 0 ==> header_free(
            rendered(prompt),
        ),
        !header_free(prompt.base) || prompt.directives.len() > 0 ==> occurs_once(
            rendered(prompt),
            TRAILER_HEADER@,
        ),
    decreases prompt.directives.len(),
{
    if prompt.directives.len() > 0 {
        let last = prompt.directives.last();
        let earlier = SystemPromptView {
            base: prompt.base,
            directives: prompt.directives.drop_last(),
        };
        assert(earlier.directives.push(last) =~= prompt.directives);
        assert forall|i: int| 0 <= i < earlier.directives.len() implies header_free(
            #[trigger] earlier.directives[i].trigger_input,
        ) && header_free(earlier.directives[i].required_reply) by {
            assert(earlier.directives[i] == prompt.directives[i]);
        }
        lemma_rendered_header(earlier);
        lemma_rendered_agrees_with_amended(prompt.base, earlier.directives, last);
        if header_free(prompt.base) && earlier.directives.len() == 0 {
            lemma_first_amendment_writes_header(
                rendered(earlier),
                last.trigger_input,
                last.required_reply,
            );
        } else {
            lemma_later_amendment_keeps_header(
                rendered(earlier),
                last.trigger_input,
                last.required_reply,
            );
        }
    }
}

/// A correction that was issued is among the corrections, and it is the
/// only one for its input.
pub proof fn lemma_with_directive_holds(directives: Seq<DirectiveView>, directive: DirectiveView)
    requires
        distinct_triggers(directives),
    ensures
        ({
            let after = with_directive(directives, directive);
            let at = trigger_position(directives, directive.trigger_input, 0);
            &&& 0 <= at < after.len()
            &&& after[at] == directive
            &&& forall|k: int|
                0 <= k < after.len() && after[k].trigger_input == directive.trigger_input ==> k
                    == at
        }),
{
    lemma_trigger_position(directives, directive.trigger_input, 0);
    lemma_with_directive_distinct(directives, directive);
    let after = with_directive(directives, directive);
    let at = trigger_position(directives, directive.trigger_input, 0);
    assert forall|k: int|
        0 <= k < after.len() && after[k].trigger_input == directive.trigger_input implies k
        == at by {
        if k < at {
            assert(after[k].trigger_input != after[at].trigger_input);
        } else if k > at {
            assert(after[at].trigger_input != after[k].trigger_input);
        }
    }
}

/// The prompt reflects every correction: each one stands, as it is
/// written, in the text that is sent.
pub proof fn lemma_rendered_holds_directive(prompt: SystemPromptView, k: int)
    requires
        0 <= k < prompt.directives.len(),
    ensures
        has_occurrence(
            rendered(prompt),
            directive_text(
                prompt.directives[k].trigger_input,
                prompt.directives[k].required_reply,
            ),
        ),
{
    let texts = directive_texts(prompt.directives);
    let below = joined(texts, "\n"@);
    let lead = prompt.base + trailer_opening(prompt.base);
    lemma_joined_holds_each_part(texts, "\n"@, k);
    let at = choose|i: int| occurs_at(below, texts[k], i);
    lemma_occurrence_shifts(lead, below, texts[k], at);
    assert(occurs_at(rendered(prompt), texts[k], lead.len() + at));
}

/// The live system prompt.
pub struct SystemPrompt {
    base: String,
    directives: Vec<TrainingDirective>,
}

impl View for SystemPrompt {
    type V = SystemPromptView;

    closed spec fn view(&self) -> SystemPromptView {
        SystemPromptView { base: self.base@, directives: self.directives.deep_view() }
    }
}

impl SystemPrompt {
    /// Holds of every prompt: no two of its corrections are for the same
    /// input.
    #[verifier::type_invariant]
    pub open spec fn one_directive_for_each_input(&self) -> bool {
        distinct_triggers(self@.directives)
    }

    /// A prompt with the composed text `base` and no correction.
    pub fn new(base: String) -> (prompt: SystemPrompt)
        ensures
            prompt@ == (SystemPromptView { base: base@, directives: Seq::empty() }),
    {
        let prompt = SystemPrompt { base, directives: Vec::new() };
        assert(prompt.directives.deep_view() =~= Seq::<DirectiveView>::empty());
        prompt
    }

    /// Issues a correction. No two corrections of a prompt are ever for
    /// the same input: a correction for an input that already has one
    /// takes its place, where it stands; any other is added last. The
    /// composed text stays as it is.
    pub fn amend(self, directive: TrainingDirective) -> (amended: SystemPrompt)
        ensures
            amended@ == (SystemPromptView {
                base: self@.base,
                directives: with_directive(self@.directives, directive@),
            }),
            distinct_triggers(self@.directives),
            distinct_triggers(amended@.directives),
    {
        proof {
            use_type_invariant(&self);
            lemma_with_directive_distinct(self@.directives, directive@);
            lemma_trigger_position(self@.directives, directive@.trigger_input, 0);
        }
        let ghost before = self@.directives;
        let SystemPrompt { base, mut directives } = self;
        let n = directives.len();
        let mut at: usize = 0;
        while at < n && directives[at].trigger_input != directive.trigger_input
            invariant
                at <= n,
                n == directives.len(),
                before == directives.deep_view(),
                trigger_position(before, directive@.trigger_input, at as int) == trigger_position(
                    before,
                    directive@.trigger_input,
                    0,
                ),
            decreases n - at,
        {
            at = at + 1;
        }
        let ghost held = directives;
        let ghost issued = directive;
        if at < n {
            directives.set(at, directive);
            proof {
                lemma_update_deep_view(held, directives, at as int, issued);
            }
        } else {
            directives.push(directive);
            proof {
                lemma_push_deep_view(held, directives, issued);
            }
        }
        SystemPrompt { base, directives }
    }

    /// The prompt written out as the one text that is sent.
    pub fn text(&self) -> (text: String)
        ensures
            text@ == rendered(self@),
    {
        let mut text = self.base.clone();
        let n = self.directives.len();
        if n == 0 {
            return text;
        }
        let mut lines: Vec<String> = Vec::new();
        let mut i: usize = 0;
        while i < n
            invariant
                i <= n,
                n == self.directives.len(),
                lines.deep_view() == directive_texts(self.directives.deep_view()).take(i as int),
            decreases n - i,
        {
            let line = format_directive(
                self.directives[i].trigger_input.as_str(),
                self.directives[i].required_reply.as_str(),
            );
            let ghost before = lines;
            let ghost written = line;
            lines.push(line);
            proof {
                lemma_push_deep_view(before, lines, written);
                assert(lines.deep_view() =~= directive_texts(self.directives.deep_view()).take(
                    i + 1,
                ));
            }
            i = i + 1;
        }
        assert(lines.deep_view() =~= directive_texts(self.directives.deep_view()));
        let below = join(&lines, "\n");
        if contains(self.base.as_str(), TRAILER_HEADER) {
            text.append("\n");
        } else {
            text.append("\n\n");
            text.append(TRAILER_HEADER);
            text.append(":\n");
        }
        text.append(below.as_str());
        text
    }

    /// How many corrections the prompt holds.
    pub fn directive_count(&self) -> (count: usize)
        ensures
            count == self@.directives.len(),
    {
        self.directives.len()
    }
}

} // verus!
