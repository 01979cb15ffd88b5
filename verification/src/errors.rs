//! Failures of requests to the service.
use vstd::prelude::*;

use crate::text::{contains, law_a_part_occurs_wherever_it_stands, occurs_at, occurs_in};

verus! {

/// A failure of a provider, as it is reported to the user.
#[derive(Debug, PartialEq, Eq)]
pub struct ProviderError {
    pub message: String,
}

/// Whether `message` reports that the service does not have the requested model.
pub open spec fn reports_missing_model(message: Seq<char>) -> bool {
    ||| occurs_in(message, "HTTP 404"@)
    ||| occurs_in(message, "NOT_FOUND"@)
    ||| occurs_in(message, "Requested entity was not found"@)
}

/// The report of a request for `operation` that the service answered with `status` and `body`.
pub open spec fn failure_message(
    operation: Seq<char>,
    status: Seq<char>,
    body: Seq<char>,
) -> Seq<char> {
    "Gemini request "@ + operation + " failed (HTTP "@ + status + "): "@ + body
}

/// Whether `error` reports that the service does not have the requested model.
pub fn is_gemini_model_not_found_error(error: &ProviderError) -> (missing: bool)
    ensures
        missing == reports_missing_model(error.message@),
{
    let message = error.message.as_str();
    contains(message, "HTTP 404") || contains(message, "NOT_FOUND") || contains(
        message,
        "Requested entity was not found",
    )
}

/// The failure of a request for `operation` that the service answered with `status`, such as
/// `404 Not Found`, and `body`.
pub fn request_failure(operation: &str, status: &str, body: &str) -> (error: ProviderError)
    ensures
        error.message@ == failure_message(operation@, status@, body@),
        error.message@ == "Gemini request "@ + operation@ + " failed (HTTP "@ + status@ + "): "@
            + body@,
{
    let mut message: String = "Gemini request ".to_owned();
    message.append(operation);
    message.append(" failed (HTTP ");
    message.append(status);
    message.append("): ");
    message.append(body);
    ProviderError { message }
}

/// A request that the service answers with status 404 is reported as one for a missing model,
/// whatever was asked for and whatever else the answer says.
pub proof fn law_status_404_reports_a_missing_model(
    operation: Seq<char>,
    reason: Seq<char>,
    body: Seq<char>,
)
    ensures
        reports_missing_model(failure_message(operation, "404"@ + reason, body)),
{
    let message = failure_message(operation, "404"@ + reason, body);
    let at: int = "Gemini request "@.len() + operation.len() + 9int;
    reveal_strlit(" failed (HTTP ");
    reveal_strlit("404");
    reveal_strlit("HTTP 404");
    assert(message.subrange(at, at + "HTTP 404"@.len()) =~= "HTTP 404"@);
    assert(occurs_at(message, "HTTP 404"@, at));
}

/// Each sign of a missing model is enough, wherever in the message it stands.
pub proof fn law_any_sign_of_a_missing_model_is_enough(before: Seq<char>, after: Seq<char>)
    ensures
        reports_missing_model(before + "HTTP 404"@ + after),
        reports_missing_model(before + "NOT_FOUND"@ + after),
        reports_missing_model(before + "Requested entity was not found"@ + after),
{
    law_a_part_occurs_wherever_it_stands(seq![], before, "HTTP 404"@, after);
    law_a_part_occurs_wherever_it_stands(seq![], before, "NOT_FOUND"@, after);
    law_a_part_occurs_wherever_it_stands(
        seq![],
        before,
        "Requested entity was not found"@,
        after,
    );
}

/// A message that reports a missing model holds a sign of it.
pub proof fn law_a_missing_model_is_not_reported_without_a_sign(message: Seq<char>)
    requires
        reports_missing_model(message),
    ensures
        exists|before: Seq<char>, sign: Seq<char>, after: Seq<char>|
            message == #[trigger] (before + sign + after) && (sign == "HTTP 404"@ || sign
                == "NOT_FOUND"@ || sign == "Requested entity was not found"@),
{
    let sign = if occurs_in(message, "HTTP 404"@) {
        "HTTP 404"@
    } else if occurs_in(message, "NOT_FOUND"@) {
        "NOT_FOUND"@
    } else {
        "Requested entity was not found"@
    };
    law_a_part_occurs_wherever_it_stands(message, seq![], sign, seq![]);
    let (before, after) = choose|head: Seq<char>, tail: Seq<char>|
        message == #[trigger] (head + sign + tail);
    assert(message == before + sign + after);
}

} // verus!
