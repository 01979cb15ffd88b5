//! A provider without a service behind it, for what needs a provider but no completion.
use vstd::prelude::*;

use crate::errors::ProviderError;
use crate::message::{Message, ToolDefinition};
use crate::response::StreamEvent;

verus! {

/// A provider that refuses every completion.
#[derive(Debug, Clone, Copy, PartialEq, Eq)]
pub struct MockProvider;

impl MockProvider {
    /// What the provider is called.
    pub open spec fn called(self) -> Seq<char> {
        "mock"@
    }

    /// What the provider answers, whatever is asked.
    pub open spec fn refusal(self) -> Seq<char> {
        "Mock provider should not be used for streaming completions in Gemini tests"@
    }

    /// Refuses, whatever is asked.
    pub fn complete(
        &self,
        _messages: &[Message],
        _tools: &[ToolDefinition],
        _system: &str,
        _resume_session_id: Option<&str>,
    ) -> (result: Result<Vec<StreamEvent>, ProviderError>)
        ensures
            result is Err,
            result->Err_0.message@ == self.refusal(),
            result->Err_0.message@
                == "Mock provider should not be used for streaming completions in Gemini tests"@,
    {
        Err(
            ProviderError {
                message:
                    "Mock provider should not be used for streaming completions in Gemini tests".to_owned(),
            },
        )
    }

    /// The name of the provider.
    pub fn name(&self) -> (name: &str)
        ensures
            name@ == self.called(),
            name@ == "mock"@,
    {
        "mock"
    }

    /// Another provider of the same kind: it has the same name and refuses in the same words.
    pub fn fork(&self) -> (other: std::sync::Arc<MockProvider>)
        ensures
            *other == *self,
            other.called() == self.called(),
            other.refusal() == self.refusal(),
    {
        std::sync::Arc::new(MockProvider)
    }
}

/// Whether each of `chain` after the first is what forking the one before it gives.
pub open spec fn is_fork_chain(chain: Seq<MockProvider>) -> bool {
    forall|i: int, j: int|
        0 <= i && j == i + 1 && j < chain.len() ==> #[trigger] chain[j] == #[trigger] chain[i]
}

/// However often a provider is forked, the last fork has its name and refuses in its words.
pub proof fn law_forks_behave_alike(chain: Seq<MockProvider>)
    requires
        chain.len() > 0,
        is_fork_chain(chain),
    ensures
        chain.last() == chain[0],
        chain.last().called() == chain[0].called(),
        chain.last().called() == "mock"@,
        chain.last().refusal() == chain[0].refusal(),
        chain.last().refusal()
            == "Mock provider should not be used for streaming completions in Gemini tests"@,
    decreases chain.len(),
{
    if chain.len() > 1 {
        assert(chain[chain.len() - 1] == chain[chain.len() - 2]);
        law_forks_behave_alike(chain.drop_last());
    }
}

} // verus!
