//! What is sent to the services that make text, speech, pictures and
//! embeddings.

use vstd::prelude::*;
use vstd::string::*;
use crate::requests::ScoreGuessPayload;

verus! {

/// One turn of a conversation.
#[derive(Debug)]
pub struct Message {
    pub role: String,
    pub content: String,
}

/// A conversation to continue, and the model that is to continue it.
#[derive(Debug)]
pub struct RequestPayload {
    pub model: String,
    pub messages: Vec<Message>,
}

/// A text to speak.
#[derive(Debug)]
pub struct TextToSpeechRequestPayload {
    pub model: String,
    pub input: String,
    pub voice: String,
}

/// A picture to make.
#[derive(Debug)]
pub struct ImageRequestPayload {
    pub model: String,
    pub prompt: String,
    pub size: String,
    pub quality: String,
    pub n: i32,
}

/// Texts to embed.
#[derive(Debug)]
pub struct EmbeddingRequestPayload {
    pub model: String,
    pub input: Vec<String>,
}

/// Who answers a conversation.
#[derive(Clone, Copy, Debug, PartialEq, Eq, Structural)]
pub enum Provider {
    Anthropic,
    OpenAi,
}

/// Where a provider takes conversations.
pub open spec fn chat_endpoint(provider: Provider) -> Seq<char> {
    match provider {
        Provider::Anthropic => "https://api.anthropic.com/v1/complete"@,
        Provider::OpenAi => "https://api.openai.com/v1/chat/completions"@,
    }
}

/// The name under which the environment holds a provider's key.
pub open spec fn key_variable(provider: Provider) -> Seq<char> {
    match provider {
        Provider::Anthropic => "ANTHROPIC_API_KEY"@,
        Provider::OpenAi => "OPENAI_API_KEY"@,
    }
}

impl Provider {
    /// Where the provider takes conversations.
    pub fn chat_endpoint(&self) -> (r: &'static str)
        ensures
            r@ == chat_endpoint(*self),
    {
        match self {
            Provider::Anthropic => "https://api.anthropic.com/v1/complete",
            Provider::OpenAi => "https://api.openai.com/v1/chat/completions",
        }
    }

    /// The name under which the environment holds the provider's key.
    pub fn key_variable(&self) -> (r: &'static str)
        ensures
            r@ == key_variable(*self),
    {
        match self {
            Provider::Anthropic => "ANTHROPIC_API_KEY",
            Provider::OpenAi => "OPENAI_API_KEY",
        }
    }
}

impl RequestPayload {
    /// Who answers this conversation: Anthropic where the model's name
    /// begins with `family`, the mark of their models, and OpenAI else.
    pub fn provider(&self, family: &str) -> (r: Provider)
        ensures
            r == if family@.is_prefix_of(self.model@) {
                Provider::Anthropic
            } else {
                Provider::OpenAi
            },
    {
        let model = self.model.as_str();
        let n = family.unicode_len();
        if model.unicode_len() < n {
            return Provider::OpenAi;
        }
        let head = String::from_str(model.substring_char(0, n));
        if head == String::from_str(family) {
            Provider::Anthropic
        } else {
            Provider::OpenAi
        }
    }
}

/// The model that embeds the texts of a game.
pub open spec fn embedding_model() -> Seq<char> {
    "text-embedding-ada-002"@
}

impl EmbeddingRequestPayload {
    /// What to send to have a guess graded: the prompt and the guess, in
    /// this order, for the model that embeds the texts of a game.
    pub fn for_guess(payload: ScoreGuessPayload) -> (r: EmbeddingRequestPayload)
        ensures
            r.model@ == embedding_model(),
            r.input@.len() == 2,
            r.input@[0]@ == payload.prompt@,
            r.input@[1]@ == payload.guess@,
    {
        let mut input: Vec<String> = Vec::new();
        input.push(payload.prompt);
        input.push(payload.guess);
        EmbeddingRequestPayload { model: String::from_str("text-embedding-ada-002"), input }
    }
}

} // verus!
