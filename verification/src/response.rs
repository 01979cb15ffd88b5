//! What the service answers to a request for content.
use vstd::prelude::*;

use crate::content_json::{
    UnexpectedShape, content_from, content_json, is_object, law_content_is_read_back,
    optional_text, read_content, read_text, unsaid,
};
use crate::contents::{Content, GeminiContent, Part, part_models};
use crate::json::{Json, JsonValue, field, lemma_array_view, lemma_lookup_two, lookup, models};
use crate::json_text::{parse_json, parsed_json};

verus! {

/// One of the answers that the model gave.
#[derive(Debug, PartialEq, Eq)]
pub struct GeminiCandidate {
    pub content: Option<GeminiContent>,
    pub finish_reason: Option<String>,
    pub finish_message: Option<String>,
}

/// What the service says of the prompt.
#[derive(Debug, PartialEq, Eq)]
pub struct GeminiPromptFeedback {
    pub block_reason: Option<String>,
    pub block_reason_message: Option<String>,
}

/// The answer to a request for content.
#[derive(Debug, PartialEq, Eq)]
pub struct VertexGenerateContentResponse {
    pub candidates: Option<Vec<GeminiCandidate>>,
    pub prompt_feedback: Option<GeminiPromptFeedback>,
}

/// Something that happens while an answer comes in.
#[derive(Debug, PartialEq, Eq)]
#[non_exhaustive]
pub enum StreamEvent {
    /// Text is added to the answer.
    TextDelta(String),
}

/// The body of an answer cannot be used.
#[derive(Debug, Clone, Copy, PartialEq, Eq)]
pub enum BodyError {
    /// It is not JSON.
    Malformed,
    /// It is not the JSON of an answer.
    UnexpectedShape,
}

/// The model of a [`GeminiCandidate`].
pub struct Candidate {
    pub content: Option<Content>,
    pub finish_reason: Option<Seq<char>>,
    pub finish_message: Option<Seq<char>>,
}

/// The model of a [`GeminiPromptFeedback`].
pub struct Feedback {
    pub block_reason: Option<Seq<char>>,
    pub block_reason_message: Option<Seq<char>>,
}

/// The model of a [`VertexGenerateContentResponse`].
pub struct Answer {
    pub candidates: Option<Seq<Candidate>>,
    pub feedback: Option<Feedback>,
}

/// The characters of a string that may be missing.
pub open spec fn opt_text(text: Option<String>) -> Option<Seq<char>> {
    match text {
        Some(text) => Some(text@),
        None => None,
    }
}

impl View for GeminiCandidate {
    type V = Candidate;

    open spec fn view(&self) -> Candidate {
        Candidate {
            content: match self.content {
                Some(content) => Some(content@),
                None => None,
            },
            finish_reason: opt_text(self.finish_reason),
            finish_message: opt_text(self.finish_message),
        }
    }
}

impl View for GeminiPromptFeedback {
    type V = Feedback;

    open spec fn view(&self) -> Feedback {
        Feedback {
            block_reason: opt_text(self.block_reason),
            block_reason_message: opt_text(self.block_reason_message),
        }
    }
}

impl View for VertexGenerateContentResponse {
    type V = Answer;

    open spec fn view(&self) -> Answer {
        Answer {
            candidates: match self.candidates {
                Some(candidates) => Some(candidate_models(candidates@)),
                None => None,
            },
            feedback: match self.prompt_feedback {
                Some(feedback) => Some(feedback@),
                None => None,
            },
        }
    }
}

impl View for StreamEvent {
    type V = Seq<char>;

    open spec fn view(&self) -> Seq<char> {
        match self {
            StreamEvent::TextDelta(text) => text@,
        }
    }
}

/// The models of `candidates`, in order.
pub open spec fn candidate_models(candidates: Seq<GeminiCandidate>) -> Seq<Candidate> {
    candidates.map_values(|candidate: GeminiCandidate| candidate@)
}

/// The texts that `events` add, in order.
pub open spec fn event_texts(events: Seq<StreamEvent>) -> Seq<Seq<char>> {
    events.map_values(|event: StreamEvent| event@)
}

/// The content of a candidate, if it is there and not null. `None` where it is no content.
pub open spec fn optional_content(json: Json) -> Option<Option<Content>> {
    match field(json, "content"@) {
        None => Some(None),
        Some(Json::Null) => Some(None),
        Some(value) => match content_from(value) {
            Some(content) => Some(Some(content)),
            None => None,
        },
    }
}

/// The candidate that `json` stands for.
pub open spec fn candidate_from(json: Json) -> Option<Candidate> {
    match (
        json is Object,
        optional_content(json),
        optional_text(json, "finishReason"@),
        optional_text(json, "finishMessage"@),
    ) {
        (true, Some(content), Some(finish_reason), Some(finish_message)) => Some(
            Candidate { content, finish_reason, finish_message },
        ),
        _ => None,
    }
}

/// The feedback that `json` stands for.
pub open spec fn feedback_from(json: Json) -> Option<Feedback> {
    match (
        json is Object,
        optional_text(json, "blockReason"@),
        optional_text(json, "blockReasonMessage"@),
    ) {
        (true, Some(block_reason), Some(block_reason_message)) => Some(
            Feedback { block_reason, block_reason_message },
        ),
        _ => None,
    }
}

/// The candidates of an answer, if they are there and not null. `None` where one of them is no
/// candidate.
pub open spec fn optional_candidates(json: Json) -> Option<Option<Seq<Candidate>>> {
    match field(json, "candidates"@) {
        None => Some(None),
        Some(Json::Null) => Some(None),
        Some(Json::Array(items)) => if forall|i: int|
            0 <= i < items.len() ==> candidate_from(#[trigger] items[i]) is Some {
            Some(Some(items.map_values(|item: Json| candidate_from(item)->0)))
        } else {
            None
        },
        Some(_) => None,
    }
}

/// The feedback of an answer, if it is there and not null. `None` where it is no feedback.
pub open spec fn optional_feedback(json: Json) -> Option<Option<Feedback>> {
    match field(json, "promptFeedback"@) {
        None => Some(None),
        Some(Json::Null) => Some(None),
        Some(value) => match feedback_from(value) {
            Some(feedback) => Some(Some(feedback)),
            None => None,
        },
    }
}

/// The answer that `json` stands for.
pub open spec fn answer_from(json: Json) -> Option<Answer> {
    match (json is Object, optional_candidates(json), optional_feedback(json)) {
        (true, Some(candidates), Some(feedback)) => Some(Answer { candidates, feedback }),
        _ => None,
    }
}

/// The texts of `parts`, in order.
pub open spec fn part_texts(parts: Seq<Part>) -> Seq<Seq<char>>
    decreases parts.len(),
{
    if parts.len() == 0 {
        seq![]
    } else {
        let before = part_texts(parts.drop_last());
        match parts.last().text {
            Some(text) => before.push(text),
            None => before,
        }
    }
}

/// The texts of the first candidate of `answer`, in order.
pub open spec fn answer_texts(answer: Answer) -> Seq<Seq<char>> {
    match answer.candidates {
        Some(candidates) => if candidates.len() > 0 {
            match candidates[0].content {
                Some(content) => part_texts(content.parts),
                None => seq![],
            }
        } else {
            seq![]
        },
        None => seq![],
    }
}

/// The candidate that `value` stands for.
fn read_candidate(value: &JsonValue) -> (result: Result<GeminiCandidate, UnexpectedShape>)
    ensures
        match result {
            Ok(candidate) => candidate_from(value@) == Some(candidate@),
            Err(_) => candidate_from(value@) is None,
        },
{
    if !is_object(value) {
        return Err(UnexpectedShape);
    }
    let content: Option<GeminiContent> = match value.get("content") {
        None => None,
        Some(JsonValue::Null) => None,
        Some(inner) => match read_content(inner) {
            Ok(content) => Some(content),
            Err(error) => return Err(error),
        },
    };
    let finish_reason: Option<String> = match read_text(value, "finishReason") {
        Ok(text) => text,
        Err(error) => return Err(error),
    };
    let finish_message: Option<String> = match read_text(value, "finishMessage") {
        Ok(text) => text,
        Err(error) => return Err(error),
    };
    Ok(GeminiCandidate { content, finish_reason, finish_message })
}

/// The feedback that `value` stands for.
fn read_feedback(value: &JsonValue) -> (result: Result<GeminiPromptFeedback, UnexpectedShape>)
    ensures
        match result {
            Ok(feedback) => feedback_from(value@) == Some(feedback@),
            Err(_) => feedback_from(value@) is None,
        },
{
    if !is_object(value) {
        return Err(UnexpectedShape);
    }
    let block_reason: Option<String> = match read_text(value, "blockReason") {
        Ok(text) => text,
        Err(error) => return Err(error),
    };
    let block_reason_message: Option<String> = match read_text(value, "blockReasonMessage") {
        Ok(text) => text,
        Err(error) => return Err(error),
    };
    Ok(GeminiPromptFeedback { block_reason, block_reason_message })
}

/// The candidates of the answer that `value` stands for, if they are there and not null.
fn read_candidates(value: &JsonValue) -> (result: Result<
    Option<Vec<GeminiCandidate>>,
    UnexpectedShape,
>)
    ensures
        match result {
            Ok(Some(candidates)) => optional_candidates(value@) == Some(
                Some(candidate_models(candidates@)),
            ),
            Ok(None) => optional_candidates(value@) == Some(None::<Seq<Candidate>>),
            Err(_) => optional_candidates(value@) is None,
        },
{
    broadcast use lemma_array_view;

    match value.get("candidates") {
        None => Ok(None),
        Some(JsonValue::Null) => Ok(None),
        Some(JsonValue::Array(items)) => {
            let ghost jsons = models(items@);
            let mut candidates: Vec<GeminiCandidate> = Vec::new();
            let mut i: usize = 0;
            while i < items.len()
                invariant
                    i <= items@.len(),
                    jsons == models(items@),
                    field(value@, "candidates"@) == Some(Json::Array(jsons)),
                    candidates@.len() == i,
                    forall|k: int|
                        0 <= k < i ==> candidate_from(#[trigger] jsons[k]) == Some(
                            candidates@[k]@,
                        ),
                decreases items@.len() - i,
            {
                assert(jsons[i as int] == items@[i as int]@);
                match read_candidate(&items[i]) {
                    Ok(candidate) => candidates.push(candidate),
                    Err(error) => return Err(error),
                }
                i = i + 1;
            }
            Ok(Some(candidates))
        },
        Some(_) => Err(UnexpectedShape),
    }
}

/// The answer that `value` stands for.
pub fn read_response(value: &JsonValue) -> (result: Result<
    VertexGenerateContentResponse,
    UnexpectedShape,
>)
    ensures
        match result {
            Ok(response) => answer_from(value@) == Some(response@),
            Err(_) => answer_from(value@) is None,
        },
{
    if !is_object(value) {
        return Err(UnexpectedShape);
    }
    let candidates: Option<Vec<GeminiCandidate>> = match read_candidates(value) {
        Ok(candidates) => candidates,
        Err(error) => return Err(error),
    };
    let prompt_feedback: Option<GeminiPromptFeedback> = match value.get("promptFeedback") {
        None => None,
        Some(JsonValue::Null) => None,
        Some(inner) => match read_feedback(inner) {
            Ok(feedback) => Some(feedback),
            Err(error) => return Err(error),
        },
    };
    Ok(VertexGenerateContentResponse { candidates, prompt_feedback })
}

/// The text of the first candidate, as it is added to the answer part by part.
pub fn text_deltas(response: &VertexGenerateContentResponse) -> (events: Vec<StreamEvent>)
    ensures
        event_texts(events@) == answer_texts(response@),
{
    let mut events: Vec<StreamEvent> = Vec::new();
    if let Some(candidates) = &response.candidates {
        if candidates.len() > 0 {
            if let Some(content) = &candidates[0].content {
                let parts = &content.parts;
                let ghost all = part_models(parts@);
                let mut i: usize = 0;
                while i < parts.len()
                    invariant
                        i <= parts@.len(),
                        all == part_models(parts@),
                        event_texts(events@) == part_texts(all.take(i as int)),
                    decreases parts@.len() - i,
                {
                    assert(all.take(i + 1).drop_last() =~= all.take(i as int));
                    if let Some(text) = &parts[i].text {
                        events.push(StreamEvent::TextDelta(text.clone()));
                    }
                    i = i + 1;
                }
                assert(all.take(i as int) =~= all);
                return events;
            }
        }
    }
    events
}

/// The text that the `body` of an answer adds, part by part.
pub fn read_body(body: &str) -> (result: Result<Vec<StreamEvent>, BodyError>)
    ensures
        match parsed_json(body@) {
            None => result == Err::<Vec<StreamEvent>, BodyError>(BodyError::Malformed),
            Some(json) => match answer_from(json) {
                None => result == Err::<Vec<StreamEvent>, BodyError>(BodyError::UnexpectedShape),
                Some(answer) => result is Ok && event_texts(result->Ok_0@) == answer_texts(answer),
            },
        },
{
    match parse_json(body) {
        Ok(value) => match read_response(&value) {
            Ok(response) => Ok(text_deltas(&response)),
            Err(_) => Err(BodyError::UnexpectedShape),
        },
        Err(_) => Err(BodyError::Malformed),
    }
}

/// The JSON of an answer with one candidate, which stopped for `reason`.
pub open spec fn single_answer_json(content: Content, reason: Seq<char>) -> Json {
    Json::Object(
        seq![
            (
                "candidates"@,
                Json::Array(
                    seq![
                        Json::Object(
                            seq![
                                ("content"@, content_json(content)),
                                ("finishReason"@, Json::Text(reason)),
                            ],
                        ),
                    ],
                ),
            ),
        ],
    )
}

/// Whatever content the model answers with, its texts come out, all and in order.
pub proof fn law_answered_text_comes_through(content: Content, reason: Seq<char>)
    ensures
        answer_from(single_answer_json(content, reason)) is Some,
        answer_texts(answer_from(single_answer_json(content, reason))->0) == part_texts(
            content.parts,
        ),
{
    let json = single_answer_json(content, reason);
    let entries = json->Object_0;
    let items = entries[0].1->Array_0;
    let candidate = items[0];
    reveal_strlit("candidates");
    reveal_strlit("promptFeedback");
    reveal_strlit("content");
    reveal_strlit("finishReason");
    reveal_strlit("finishMessage");
    assert("candidates"@.len() == 10 && "promptFeedback"@.len() == 14 && "content"@.len() == 7
        && "finishReason"@.len() == 12 && "finishMessage"@.len() == 13);
    reveal_with_fuel(lookup, 2);
    lemma_lookup_two(candidate->Object_0[0], candidate->Object_0[1], "finishMessage"@);
    law_content_is_read_back(content);
}

/// The texts of parts that are joined are those of the first and then those of the others: a part
/// with a text adds this text, wherever it stands, and a part without adds nothing.
pub proof fn law_texts_of_joined_parts_are_joined(a: Seq<Part>, b: Seq<Part>, part: Part)
    ensures
        part_texts(a + b) == part_texts(a) + part_texts(b),
        part.text is Some ==> part_texts(seq![part]) == seq![part.text->0],
        part.text is None ==> part_texts(seq![part]).len() == 0,
    decreases b.len(),
{
    if b.len() == 0 {
        assert(a + b =~= a);
        assert(part_texts(a) + part_texts(b) =~= part_texts(a));
    } else {
        law_texts_of_joined_parts_are_joined(a, b.drop_last(), part);
        assert((a + b).drop_last() =~= a + b.drop_last());
        assert((a + b).last() == b.last());
        assert(part_texts(a + b) =~= part_texts(a) + part_texts(b));
    }
    assert(seq![part].drop_last().len() == 0);
    assert(part_texts(seq![part].drop_last()).len() == 0);
    if part.text is Some {
        assert(part_texts(seq![part]) =~= seq![part.text->0]);
    }
}

/// Of parts that all hold text, every text comes through, each where its part stands.
pub proof fn law_every_text_of_a_text_answer_comes_through(parts: Seq<Part>)
    requires
        forall|i: int| 0 <= i < parts.len() ==> (#[trigger] parts[i]).text is Some,
    ensures
        part_texts(parts).len() == parts.len(),
        forall|i: int|
            0 <= i < parts.len() ==> #[trigger] part_texts(parts)[i] == parts[i].text->0,
    decreases parts.len(),
{
    if parts.len() > 0 {
        let before = parts.drop_last();
        assert forall|i: int| 0 <= i < before.len() implies (#[trigger] before[i]).text
            is Some by {
            assert(before[i] == parts[i]);
        }
        law_every_text_of_a_text_answer_comes_through(before);
        assert(parts[parts.len() - 1].text is Some);
        assert forall|i: int| 0 <= i < parts.len() implies #[trigger] part_texts(parts)[i]
            == parts[i].text->0 by {
            if i < before.len() {
                assert(part_texts(parts)[i] == part_texts(before)[i]);
                assert(before[i] == parts[i]);
            }
        }
    }
}

/// The text of an answer is that of its first candidate, whatever else the answer holds; there is
/// none where there is no first candidate, or where it has no content.
pub proof fn law_text_is_that_of_the_first_candidate(answer: Answer)
    ensures
        answer.candidates is None ==> answer_texts(answer).len() == 0,
        answer.candidates is Some && answer.candidates->0.len() == 0
            ==> answer_texts(answer).len() == 0,
        answer.candidates is Some && answer.candidates->0.len() > 0
            && answer.candidates->0[0].content is None ==> answer_texts(answer).len() == 0,
        answer.candidates is Some && answer.candidates->0.len() > 0
            && answer.candidates->0[0].content is Some ==> answer_texts(answer) == part_texts(
            answer.candidates->0[0].content->0.parts,
        ),
{
}

/// A candidate that is read has as its reason the text under `finishReason` and as its message
/// the text under `finishMessage`, each whatever the other entries are, and none exactly where
/// the entry is missing or null. It has the content under `content` in the same way.
pub proof fn law_read_candidates_have_what_their_entries_say(json: Json)
    requires
        candidate_from(json) is Some,
    ensures
        json is Object,
        candidate_from(json)->0.finish_reason is None <==> field(json, "finishReason"@) is None
            || field(json, "finishReason"@) == Some(Json::Null),
        candidate_from(json)->0.finish_reason is Some ==> field(json, "finishReason"@) == Some(
            Json::Text(candidate_from(json)->0.finish_reason->0),
        ),
        candidate_from(json)->0.finish_message is None <==> field(json, "finishMessage"@) is None
            || field(json, "finishMessage"@) == Some(Json::Null),
        candidate_from(json)->0.finish_message is Some ==> field(json, "finishMessage"@) == Some(
            Json::Text(candidate_from(json)->0.finish_message->0),
        ),
        candidate_from(json)->0.content is None <==> field(json, "content"@) is None || field(
            json,
            "content"@,
        ) == Some(Json::Null),
        candidate_from(json)->0.content is Some ==> content_from(field(json, "content"@)->0)
            == Some(candidate_from(json)->0.content->0),
{
}

/// An object is read as a candidate exactly where its reason and its message are texts and its
/// content is one, as far as it has them. Nothing else is asked of it.
pub proof fn law_candidates_are_read_where_their_entries_have_the_right_kind(json: Json)
    ensures
        candidate_from(json) is Some <==> {
            &&& json is Object
            &&& unsaid(json, "finishReason"@) || field(json, "finishReason"@)->0 is Text
            &&& unsaid(json, "finishMessage"@) || field(json, "finishMessage"@)->0 is Text
            &&& unsaid(json, "content"@) || content_from(field(json, "content"@)->0) is Some
        },
{
}

/// Feedback that is read has as its reason the text under `blockReason` and as its message the
/// text under `blockReasonMessage`, each whatever the other entries are, and none exactly where
/// the entry is missing or null.
pub proof fn law_read_feedback_has_what_its_entries_say(json: Json)
    requires
        feedback_from(json) is Some,
    ensures
        json is Object,
        feedback_from(json)->0.block_reason is None <==> field(json, "blockReason"@) is None
            || field(json, "blockReason"@) == Some(Json::Null),
        feedback_from(json)->0.block_reason is Some ==> field(json, "blockReason"@) == Some(
            Json::Text(feedback_from(json)->0.block_reason->0),
        ),
        feedback_from(json)->0.block_reason_message is None <==> field(
            json,
            "blockReasonMessage"@,
        ) is None || field(json, "blockReasonMessage"@) == Some(Json::Null),
        feedback_from(json)->0.block_reason_message is Some ==> field(json, "blockReasonMessage"@)
            == Some(Json::Text(feedback_from(json)->0.block_reason_message->0)),
{
}

/// An object is read as feedback exactly where its reason and its message are texts, as far as it
/// has them. Nothing else is asked of it.
pub proof fn law_feedback_is_read_where_its_entries_have_the_right_kind(json: Json)
    ensures
        feedback_from(json) is Some <==> {
            &&& json is Object
            &&& unsaid(json, "blockReason"@) || field(json, "blockReason"@)->0 is Text
            &&& unsaid(json, "blockReasonMessage"@) || field(json, "blockReasonMessage"@)->0
                is Text
        },
{
}

/// An answer that is read has every candidate under `candidates`, in order, and the feedback
/// under `promptFeedback`, each whatever the other is, and none exactly where the entry is missing
/// or null.
pub proof fn law_read_answers_have_what_their_entries_say(json: Json)
    requires
        answer_from(json) is Some,
    ensures
        json is Object,
        answer_from(json)->0.candidates is None <==> field(json, "candidates"@) is None || field(
            json,
            "candidates"@,
        ) == Some(Json::Null),
        answer_from(json)->0.candidates is Some ==> {
            let items = field(json, "candidates"@)->0->Array_0;
            let candidates = answer_from(json)->0.candidates->0;
            &&& field(json, "candidates"@)->0 is Array
            &&& candidates.len() == items.len()
            &&& forall|i: int|
                0 <= i < items.len() ==> candidate_from(#[trigger] items[i]) == Some(candidates[i])
        },
        answer_from(json)->0.feedback is None <==> field(json, "promptFeedback"@) is None || field(
            json,
            "promptFeedback"@,
        ) == Some(Json::Null),
        answer_from(json)->0.feedback is Some ==> feedback_from(field(json, "promptFeedback"@)->0)
            == Some(answer_from(json)->0.feedback->0),
{
}

/// An object is read as an answer exactly where its candidates are an array of candidates and its
/// feedback is feedback, as far as it has them. Nothing else is asked of it.
pub proof fn law_answers_are_read_where_their_entries_have_the_right_kind(json: Json)
    ensures
        answer_from(json) is Some <==> {
            &&& json is Object
            &&& unsaid(json, "candidates"@) || {
                let items = field(json, "candidates"@)->0->Array_0;
                &&& field(json, "candidates"@)->0 is Array
                &&& forall|i: int|
                    0 <= i < items.len() ==> candidate_from(#[trigger] items[i]) is Some
            }
            &&& unsaid(json, "promptFeedback"@) || feedback_from(
                field(json, "promptFeedback"@)->0,
            ) is Some
        },
{
}

/// The model of a candidate shows its content, its reason and its message.
pub proof fn law_candidates_are_shown_whole(candidate: GeminiCandidate)
    ensures
        candidate@.content is Some <==> candidate.content is Some,
        candidate.content is Some ==> candidate@.content->0 == candidate.content->0@,
        candidate@.finish_reason is Some <==> candidate.finish_reason is Some,
        candidate.finish_reason is Some ==> candidate@.finish_reason->0
            == candidate.finish_reason->0@,
        candidate@.finish_message is Some <==> candidate.finish_message is Some,
        candidate.finish_message is Some ==> candidate@.finish_message->0
            == candidate.finish_message->0@,
{
}

/// The model of an answer shows each of its candidates where it stands, and of its feedback the
/// reason and the message.
pub proof fn law_answers_are_shown_whole(response: VertexGenerateContentResponse)
    ensures
        response@.candidates is Some <==> response.candidates is Some,
        response.candidates is Some ==> {
            let candidates = response.candidates->0@;
            &&& response@.candidates->0.len() == candidates.len()
            &&& forall|i: int|
                0 <= i < candidates.len() ==> #[trigger] response@.candidates->0[i]
                    == candidates[i]@
        },
        response@.feedback is Some <==> response.prompt_feedback is Some,
        response.prompt_feedback is Some ==> {
            let feedback = response.prompt_feedback->0;
            let shown = response@.feedback->0;
            &&& shown.block_reason is Some <==> feedback.block_reason is Some
            &&& feedback.block_reason is Some ==> shown.block_reason->0
                == feedback.block_reason->0@
            &&& shown.block_reason_message is Some <==> feedback.block_reason_message is Some
            &&& feedback.block_reason_message is Some ==> shown.block_reason_message->0
                == feedback.block_reason_message->0@
        },
{
}

/// The texts of events are those that they add, each where its event stands.
pub proof fn law_events_are_shown_in_place(events: Seq<StreamEvent>)
    ensures
        event_texts(events).len() == events.len(),
        forall|i: int|
            0 <= i < events.len() ==> (events[i] matches StreamEvent::TextDelta(text)
                ==> #[trigger] event_texts(events)[i] == text@),
{
}

} // verus!
