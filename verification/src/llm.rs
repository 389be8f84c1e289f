//! A client of an OpenAI-compatible chat completion server: what it asks for, and what it makes of
//! an answer.

use crate::history::ChatMessage;
use crate::text::{trim_end_char, without_trailing};
use vstd::prelude::*;
use vstd::string::*;

verus! {

/// The tokens kept free as a safety margin, and the least budget that history is ever given.
pub const HISTORY_MARGIN: usize = 256;

/// The body of a chat completion request.
pub struct ChatRequest<'a> {
    pub model: &'a str,
    pub messages: &'a [ChatMessage],
    pub max_tokens: u32,
    /// The sampling temperature, as the bits of an IEEE 754 single-precision number.
    pub temperature: u32,
    pub stream: bool,
}

/// A chat completion.
pub struct ChatResponse {
    pub choices: Vec<Choice>,
}

/// One alternative of a chat completion.
pub struct Choice {
    pub message: AssistantMessage,
}

/// What the model says in an alternative.
pub struct AssistantMessage {
    pub content: String,
}

/// The text of a chat completion: that of its first choice, or a stand-in where it has none.
pub open spec fn reply_of(response: ChatResponse) -> Seq<char> {
    if response.choices@.len() == 0 {
        "(no response)"@
    } else {
        response.choices@[0].message.content@
    }
}

/// The text of a chat completion.
pub fn reply_text(response: ChatResponse) -> (text: String)
    ensures
        text@ == reply_of(response),
{
    let mut choices: Vec<Choice> = response.choices;
    if choices.len() == 0 {
        "(no response)".to_string()
    } else {
        let first: Choice = choices.swap_remove(0);
        first.message.content
    }
}

/// A response that was refused for its status.
pub struct Rejected {
    status: String,
}

impl View for Rejected {
    type V = Seq<char>;

    closed spec fn view(&self) -> Seq<char> {
        self.status@
    }
}

/// Accepts a response whose HTTP status code stands for success. Of any other, what comes back
/// keeps the status as it is `shown`.
pub fn check_status(status: u16, shown: String) -> (r: Result<(), Rejected>)
    ensures
        r is Ok <==> 200 <= status < 300,
        r matches Err(rejected) ==> rejected@ == shown@,
{
    if 200 <= status && status < 300 {
        Ok(())
    } else {
        Err(Rejected { status: shown })
    }
}

impl Rejected {
    /// The error message for the response: its status and its body.
    pub fn message(&self, body: &str) -> (message: String)
        ensures
            message@ == "LLM request failed "@ + self@ + ": "@ + body@,
    {
        let mut message: String = "LLM request failed ".to_string();
        message.append(self.status.as_str());
        message.append(": ");
        message.append(body);
        message
    }
}

/// A client of one model on one server.
pub struct LlmClient {
    base_url: String,
    model: String,
    api_key: Option<String>,
    max_tokens: u32,
    temperature: u32,
    context_tokens: u32,
}

/// What an [`LlmClient`] was made with.
pub struct LlmSettings {
    pub base_url: Seq<char>,
    pub model: Seq<char>,
    pub api_key: Option<Seq<char>>,
    pub max_tokens: u32,
    pub temperature: u32,
    pub context_tokens: u32,
}

impl View for LlmClient {
    type V = LlmSettings;

    closed spec fn view(&self) -> LlmSettings {
        LlmSettings {
            base_url: self.base_url@,
            model: self.model@,
            api_key: self.api_key.deep_view(),
            max_tokens: self.max_tokens,
            temperature: self.temperature,
            context_tokens: self.context_tokens,
        }
    }
}

impl LlmSettings {
    /// What is set aside before history gets any tokens: the response, the system prompt and a
    /// margin.
    pub open spec fn reserved(self, system_prompt_tokens: int) -> int {
        self.max_tokens + system_prompt_tokens + HISTORY_MARGIN
    }

    /// The token budget for history: what the context window leaves beside what is reserved, and
    /// at least the margin.
    pub open spec fn history_budget(self, system_prompt_tokens: int) -> int {
        let left = self.context_tokens - self.reserved(system_prompt_tokens);
        if left < HISTORY_MARGIN {
            HISTORY_MARGIN as int
        } else {
            left
        }
    }
}

impl LlmClient {
    /// A client that sends requests for `model` to the server at `base_url`. The temperature is
    /// given as the bits of an IEEE 754 single-precision number.
    pub fn new(
        base_url: String,
        model: String,
        api_key: Option<String>,
        max_tokens: u32,
        temperature: u32,
        context_tokens: u32,
    ) -> (client: LlmClient)
        ensures
            client@ == (LlmSettings {
                base_url: base_url@,
                model: model@,
                api_key: api_key.deep_view(),
                max_tokens,
                temperature,
                context_tokens,
            }),
    {
        LlmClient { base_url, model, api_key, max_tokens, temperature, context_tokens }
    }

    /// The model name this client sends requests for.
    pub fn model(&self) -> (model: &str)
        ensures
            model@ == self@.model,
    {
        self.model.as_str()
    }

    /// Max tokens reserved for the model's response.
    pub fn max_tokens(&self) -> (n: u32)
        ensures
            n == self@.max_tokens,
    {
        self.max_tokens
    }

    /// Approximate total context window (tokens) for this model.
    pub fn context_tokens(&self) -> (n: u32)
        ensures
            n == self@.context_tokens,
    {
        self.context_tokens
    }

    /// Token budget available for conversation history, after reserving space for the system
    /// prompt and the response. Never less than 256.
    pub fn history_token_budget(&self, system_prompt_tokens: usize) -> (budget: usize)
        ensures
            budget == self@.history_budget(system_prompt_tokens as int),
            budget >= 256,
    {
        let left: usize = (self.context_tokens as usize).saturating_sub(
            self.max_tokens as usize,
        ).saturating_sub(system_prompt_tokens).saturating_sub(HISTORY_MARGIN);
        if left < HISTORY_MARGIN {
            HISTORY_MARGIN
        } else {
            left
        }
    }

    /// Where requests are posted: `chat/completions` below the base URL, whose trailing slashes do
    /// not count.
    pub fn url(&self) -> (url: String)
        ensures
            url@ == without_trailing(self@.base_url, '/') + "/chat/completions"@,
    {
        let mut url: String = trim_end_char(self.base_url.as_str(), '/').to_string();
        url.append("/chat/completions");
        url
    }

    /// The key that requests are authorized with, where one was given that is not empty.
    pub fn bearer_token(&self) -> (token: Option<&str>)
        ensures
            token.deep_view() == match self@.api_key {
                Some(key) if key.len() > 0 => Some(key),
                _ => None,
            },
    {
        match &self.api_key {
            Some(key) => {
                if key.as_str().is_empty() {
                    None
                } else {
                    Some(key.as_str())
                }
            },
            None => None,
        }
    }

    /// The request body that asks for a completion of `messages`, whole or streamed.
    pub fn request<'a>(&'a self, messages: &'a [ChatMessage], stream: bool) -> (body: ChatRequest<
        'a,
    >)
        ensures
            body.model@ == self@.model,
            body.messages == messages,
            body.max_tokens == self@.max_tokens,
            body.temperature == self@.temperature,
            body.stream == stream,
    {
        ChatRequest {
            model: self.model.as_str(),
            messages,
            max_tokens: self.max_tokens,
            temperature: self.temperature,
            stream,
        }
    }
}

/// Trailing slashes of the base URL make no difference to where requests are posted.
pub proof fn law_trailing_slashes(base_url: Seq<char>)
    ensures
        without_trailing(base_url.push('/'), '/') == without_trailing(base_url, '/'),
        without_trailing(without_trailing(base_url, '/'), '/') == without_trailing(base_url, '/'),
    decreases base_url.len(),
{
    assert(base_url.push('/').drop_last() =~= base_url);
    if base_url.len() > 0 && base_url.last() == '/' {
        law_trailing_slashes(base_url.drop_last());
    }
}

/// The budget together with what is reserved stays within the context window, unless the window is
/// too small for the least budget.
pub proof fn law_budget_fits_context(settings: LlmSettings, system_prompt_tokens: nat)
    ensures
        settings.history_budget(system_prompt_tokens as int) >= HISTORY_MARGIN,
        settings.reserved(system_prompt_tokens as int) + HISTORY_MARGIN <= settings.context_tokens
            ==> settings.history_budget(system_prompt_tokens as int) + settings.reserved(
            system_prompt_tokens as int,
        ) == settings.context_tokens,
{
}

/// A completion with any choice gives the content of the first, character for character, whatever
/// the other choices are; the stand-in is given exactly where there is no choice.
pub proof fn law_reply_is_the_first_choice(response: ChatResponse, text: String)
    requires
        call_ensures(reply_text, (response,), text),
    ensures
        response.choices@.len() > 0 ==> text@ == response.choices@[0].message.content@,
        response.choices@.len() == 0 ==> text@ == "(no response)"@,
{
}

/// A response is accepted exactly where its status code is one of the two hundreds, and what is
/// told of any other has its status and its body, as they are.
pub proof fn law_refusal_tells_status_and_body(
    status: u16,
    shown: String,
    r: Result<(), Rejected>,
    body: &str,
    message: String,
)
    requires
        call_ensures(check_status, (status, shown), r),
        r matches Err(rejected) ==> call_ensures(Rejected::message, (&rejected, body), message),
    ensures
        r is Ok <==> status / 100 == 2,
        r is Err ==> message@ == "LLM request failed "@ + shown@ + ": "@ + body@,
{
}

/// A client keeps what it was made with, and asks for exactly that: the model, the messages in
/// their order, the limit and the temperature, and a stream where one is wanted.
pub proof fn law_request_carries_the_settings(
    base_url: String,
    model: String,
    api_key: Option<String>,
    max_tokens: u32,
    temperature: u32,
    context_tokens: u32,
    client: LlmClient,
    messages: &[ChatMessage],
    stream: bool,
    body: ChatRequest<'_>,
)
    requires
        call_ensures(
            LlmClient::new,
            (base_url, model, api_key, max_tokens, temperature, context_tokens),
            client,
        ),
        call_ensures(LlmClient::request, (&client, messages, stream), body),
    ensures
        body.model@ == model@,
        body.messages == messages,
        body.max_tokens == max_tokens,
        body.temperature == temperature,
        body.stream == stream,
{
}

/// The getters of a client give what it was made with.
pub proof fn law_client_keeps_its_settings(
    base_url: String,
    model: String,
    api_key: Option<String>,
    max_tokens: u32,
    temperature: u32,
    context_tokens: u32,
    client: LlmClient,
    named: &str,
    limit: u32,
    window: u32,
)
    requires
        call_ensures(
            LlmClient::new,
            (base_url, model, api_key, max_tokens, temperature, context_tokens),
            client,
        ),
        call_ensures(LlmClient::model, (&client,), named),
        call_ensures(LlmClient::max_tokens, (&client,), limit),
        call_ensures(LlmClient::context_tokens, (&client,), window),
    ensures
        named@ == model@,
        limit == max_tokens,
        window == context_tokens,
{
}

/// Requests are authorized with the key that the client was made with, unless that is empty.
pub proof fn law_key_is_used_unless_empty(
    base_url: String,
    model: String,
    api_key: Option<String>,
    max_tokens: u32,
    temperature: u32,
    context_tokens: u32,
    client: LlmClient,
    token: Option<&str>,
)
    requires
        call_ensures(
            LlmClient::new,
            (base_url, model, api_key, max_tokens, temperature, context_tokens),
            client,
        ),
        call_ensures(LlmClient::bearer_token, (&client,), token),
    ensures
        api_key matches Some(key) && key@.len() > 0 ==> token.deep_view() == Some(api_key->0@),
        api_key matches Some(key) && key@.len() == 0 ==> token is None,
        api_key is None ==> token is None,
{
    assert(token.deep_view() is None <==> token is None);
}

/// Requests are posted to `chat/completions` below the base URL: whatever that is, with any number
/// of slashes at its end.
pub proof fn law_requests_go_below_the_base_url(
    base: Seq<char>,
    slashes: Seq<char>,
    base_url: String,
    model: String,
    api_key: Option<String>,
    max_tokens: u32,
    temperature: u32,
    context_tokens: u32,
    client: LlmClient,
    url: String,
)
    requires
        base_url@ == base + slashes,
        base.len() > 0 ==> base.last() != '/',
        forall|i: int| 0 <= i < slashes.len() ==> #[trigger] slashes[i] == '/',
        call_ensures(
            LlmClient::new,
            (base_url, model, api_key, max_tokens, temperature, context_tokens),
            client,
        ),
        call_ensures(LlmClient::url, (&client,), url),
    ensures
        url@ == base + "/chat/completions"@,
{
    lemma_slashes(base, slashes);
}

proof fn lemma_slashes(base: Seq<char>, slashes: Seq<char>)
    requires
        base.len() > 0 ==> base.last() != '/',
        forall|i: int| 0 <= i < slashes.len() ==> #[trigger] slashes[i] == '/',
    ensures
        without_trailing(base + slashes, '/') == base,
    decreases slashes.len(),
{
    if slashes.len() == 0 {
        assert(base + slashes =~= base);
    } else {
        let fewer = slashes.drop_last();
        assert((base + slashes).drop_last() =~= base + fewer);
        assert((base + slashes).last() == slashes[slashes.len() - 1]);
        assert forall|i: int| 0 <= i < fewer.len() implies #[trigger] fewer[i] == '/' by {
            assert(fewer[i] == slashes[i]);
        }
        lemma_slashes(base, fewer);
    }
}

/// History gets what the context window leaves beside the response, the system prompt and 256
/// tokens, and 256 tokens where that is less.
pub proof fn law_history_gets_what_is_left(
    base_url: String,
    model: String,
    api_key: Option<String>,
    max_tokens: u32,
    temperature: u32,
    context_tokens: u32,
    client: LlmClient,
    system_prompt_tokens: usize,
    budget: usize,
)
    requires
        call_ensures(
            LlmClient::new,
            (base_url, model, api_key, max_tokens, temperature, context_tokens),
            client,
        ),
        call_ensures(LlmClient::history_token_budget, (&client, system_prompt_tokens), budget),
    ensures
        budget >= 256,
        budget > 256 ==> budget + max_tokens + system_prompt_tokens + 256 == context_tokens,
        max_tokens + system_prompt_tokens + 512 <= context_tokens ==> budget + max_tokens
            + system_prompt_tokens + 256 == context_tokens,
{
}

} // verus!
