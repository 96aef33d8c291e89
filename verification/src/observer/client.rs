use vstd::prelude::*;
use crate::observer::prompt::{
    build_observation_prompt, build_summary_prompt, observation_prompt, summary_prompt,
    truncated_output, truncation_cuts_ok,
};
use crate::text::strings::{owned, push_str};

verus! {

/// The observer endpoint used when none is configured.
pub const OPENCODE_GO_API_URL: &'static str = "https://opencode.ai/zen/go/v1/chat/completions";

/// The observer model used when none is configured.
pub const OPENCODE_GO_MODEL: &'static str = "deepseek-v4-flash";

/// The system message sent with every observer request.
pub const OBSERVER_SYSTEM_MESSAGE: &'static str =
    "You are a memory observer. Output only XML. No explanations outside tags.";

/// A configured client of the observer model.
#[derive(Debug, Clone)]
pub struct ObserverClient {
    api_url: String,
    api_key: String,
    model: String,
}

/// One chat-completion request to the observer: where it goes, how it is
/// authorized, which model answers, and the two messages.
#[derive(Debug, Clone)]
pub struct ObserverRequest {
    pub url: String,
    pub authorization: String,
    pub model: String,
    pub system_message: String,
    pub user_message: String,
}

impl ObserverClient {
    /// The endpoint of this client.
    pub closed spec fn url_view(&self) -> Seq<char> {
        self.api_url@
    }

    /// The key of this client.
    pub closed spec fn key_view(&self) -> Seq<char> {
        self.api_key@
    }

    /// The model of this client.
    pub closed spec fn model_view(&self) -> Seq<char> {
        self.model@
    }

    /// The observer's key: the first of the observer's own key, the DeepSeek
    /// key and the key of opencode's `opencode-go` provider that is set.
    pub fn choose_api_key(
        observer_key: Option<String>,
        deepseek_key: Option<String>,
        opencode_key: Option<String>,
    ) -> (r: Option<String>)
        ensures
            r == match observer_key {
                Some(k) => Some(k),
                None => match deepseek_key {
                    Some(k) => Some(k),
                    None => opencode_key,
                },
            },
    {
        match observer_key {
            Some(k) => Some(k),
            None => match deepseek_key {
                Some(k) => Some(k),
                None => opencode_key,
            },
        }
    }

    /// A client from its settings: none without a key; the endpoint and model
    /// default to `OPENCODE_GO_API_URL` and `OPENCODE_GO_MODEL`.
    pub fn from_settings(api_key: Option<String>, api_url: Option<String>, model: Option<String>) -> (r:
        Option<Self>)
        ensures
            r is Some == api_key is Some,
            r matches Some(c) ==> {
                &&& c.key_view() == api_key->0@
                &&& c.url_view() == match api_url {
                    Some(u) => u@,
                    None => OPENCODE_GO_API_URL@,
                }
                &&& c.model_view() == match model {
                    Some(m) => m@,
                    None => OPENCODE_GO_MODEL@,
                }
            },
    {
        match api_key {
            None => None,
            Some(api_key) => {
                let api_url = match api_url {
                    Some(u) => u,
                    None => owned(OPENCODE_GO_API_URL),
                };
                let model = match model {
                    Some(m) => m,
                    None => owned(OPENCODE_GO_MODEL),
                };
                Some(ObserverClient { api_url, api_key, model })
            },
        }
    }

    /// The request that carries `prompt`.
    fn request(&self, prompt: String) -> (r: ObserverRequest)
        ensures
            r.url@ == self.url_view(),
            r.authorization@ == "Bearer "@ + self.key_view(),
            r.model@ == self.model_view(),
            r.system_message@ == OBSERVER_SYSTEM_MESSAGE@,
            r.user_message@ == prompt@,
    {
        let mut authorization = owned("Bearer ");
        push_str(&mut authorization, self.api_key.as_str());
        ObserverRequest {
            url: owned(self.api_url.as_str()),
            authorization,
            model: owned(self.model.as_str()),
            system_message: owned(OBSERVER_SYSTEM_MESSAGE),
            user_message: prompt,
        }
    }

    /// The request that asks the observer to classify one tool execution; its
    /// reply is read with `parse_observation_xml`.
    pub fn classify_observation(
        &self,
        tool_name: &str,
        tool_input: &str,
        tool_output: &str,
        cwd: &str,
        timestamp: &str,
        user_prompt: Option<&str>,
    ) -> (r: ObserverRequest)
        requires
            truncation_cuts_ok(tool_output@),
        ensures
            r.url@ == self.url_view(),
            r.authorization@ == "Bearer "@ + self.key_view(),
            r.model@ == self.model_view(),
            r.system_message@ == OBSERVER_SYSTEM_MESSAGE@,
            r.user_message@ == observation_prompt(
                tool_name@,
                tool_input@,
                truncated_output(tool_output@),
                cwd@,
                timestamp@,
                match user_prompt {
                    Some(p) => Some(p@),
                    None => None,
                },
            ),
    {
        let prompt = build_observation_prompt(
            tool_name,
            tool_input,
            tool_output,
            cwd,
            timestamp,
            user_prompt,
        );
        self.request(prompt)
    }

    /// The request that asks the observer to summarize a session; its reply
    /// is the summary text.
    pub fn summarize_session(&self, session_title: &str, observation_count: usize) -> (r:
        ObserverRequest)
        ensures
            r.url@ == self.url_view(),
            r.authorization@ == "Bearer "@ + self.key_view(),
            r.model@ == self.model_view(),
            r.system_message@ == OBSERVER_SYSTEM_MESSAGE@,
            r.user_message@ == summary_prompt(session_title@, observation_count as nat),
    {
        let prompt = build_summary_prompt(session_title, observation_count);
        self.request(prompt)
    }
}

/// What serde_json finds as a string at a JSON pointer of a text: the text
/// parsed by `serde_json::from_str` into a `Value`, looked up by
/// `Value::pointer`, read by `Value::as_str`; `None` where the text is not
/// JSON, nothing stands at the pointer, or what stands there is no string.
pub uninterp spec fn json_string_at(body: Seq<char>, pointer: Seq<char>) -> Option<Seq<char>>;

/// What serde_json answers to whether an array stands at a JSON pointer of a
/// text: parsed by `serde_json::from_str`, looked up by `Value::pointer`,
/// tested by `Value::is_array` (`false` where the text is not JSON or nothing
/// stands there).
pub uninterp spec fn json_array_at(body: Seq<char>, pointer: Seq<char>) -> bool;

/// Wrapper of `serde_json::from_str`, `Value::pointer` and `Value::as_str`;
/// the answer is taken by name.
#[verifier::external_body]
fn json_str_at(body: &str, pointer: &str) -> (r: Option<String>)
    ensures
        match r {
            Some(t) => json_string_at(body@, pointer@) == Some(t@),
            None => json_string_at(body@, pointer@) is None,
        },
{
    match serde_json::from_str::<serde_json::Value>(body) {
        Ok(v) => match v.pointer(pointer) {
            Some(x) => match x.as_str() {
                Some(t) => Some(t.to_string()),
                None => None,
            },
            None => None,
        },
        Err(_) => None,
    }
}

/// Wrapper of `serde_json::from_str`, `Value::pointer` and `Value::is_array`;
/// the answer is taken by name.
#[verifier::external_body]
fn json_is_array_at(body: &str, pointer: &str) -> (r: bool)
    ensures
        r == json_array_at(body@, pointer@),
{
    match serde_json::from_str::<serde_json::Value>(body) {
        Ok(v) => match v.pointer(pointer) {
            Some(x) => x.is_array(),
            None => false,
        },
        Err(_) => false,
    }
}

/// The text of a chat-completion reply: the first choice's message content,
/// else the first choice's text; nothing where `choices` is not an array or
/// neither is a string.
pub open spec fn reply_text_spec(body: Seq<char>) -> Option<Seq<char>> {
    if json_array_at(body, "/choices"@) {
        match json_string_at(body, "/choices/0/message/content"@) {
            Some(t) => Some(t),
            None => json_string_at(body, "/choices/0/text"@),
        }
    } else {
        None
    }
}

/// The text of a reply from what was found in it: nothing unless `choices` is
/// an array; then the first choice's message content where it is a string,
/// else the first choice's text.
pub fn choose_reply_text(choices_is_array: bool, content: Option<String>, text: Option<String>) -> (r:
    Option<String>)
    ensures
        r == if !choices_is_array {
            None
        } else if content is Some {
            content
        } else {
            text
        },
{
    if !choices_is_array {
        None
    } else if content.is_some() {
        content
    } else {
        text
    }
}

/// Reads the text of the observer's chat-completion reply (see `reply_text_spec`).
pub fn reply_text(body: &str) -> (r: Option<String>)
    ensures
        match r {
            Some(t) => reply_text_spec(body@) == Some(t@),
            None => reply_text_spec(body@) is None,
        },
{
    let choices_is_array = json_is_array_at(body, "/choices");
    let content = json_str_at(body, "/choices/0/message/content");
    let text = json_str_at(body, "/choices/0/text");
    choose_reply_text(choices_is_array, content, text)
}

/// Reads the key of opencode's `opencode-go` provider from the text of its
/// `auth.json`: the string at `opencode-go`, `key`.
pub fn opencode_key(auth_json: &str) -> (r: Option<String>)
    ensures
        match r {
            Some(t) => json_string_at(auth_json@, "/opencode-go/key"@) == Some(t@),
            None => json_string_at(auth_json@, "/opencode-go/key"@) is None,
        },
{
    json_str_at(auth_json, "/opencode-go/key")
}

} // verus!
