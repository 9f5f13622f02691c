//! The generation stage: a client for the language-model server's
//! completion endpoint.  The request body is encoded and the response body
//! parsed here, verified against the JSON framing; the HTTP transport
//! itself stays outside the library and hands its outcome back to
//! `generate_outcome`.

use vstd::prelude::*;
use crate::json::{
    lemma_escaped_plain, lemma_members_end_primitive, lemma_members_step_string,
    lemma_parse_bool_token, lemma_parse_two_field_object, lemma_skip_ws_id, parse_two_fields,
    push_quoted, quoted,
};

verus! {

/// Error of the generation stage, carrying a stable numeric code and a
/// human-readable message.
#[derive(Debug, Clone)]
pub struct OllamaError {
    pub code: i32,
    pub message: String,
}

impl OllamaError {
    pub fn new(code: i32, message: String) -> (e: Self)
        ensures
            e.code == code,
            e.message == message,
    {
        Self { code, message }
    }

    /// The request to the server ran past its allotted time.
    pub fn timeout_error() -> (e: Self)
        ensures
            e.code == 2,
            e.message@ == "The request to the language model timed out."@,
    {
        Self {
            code: 2,
            message: String::from_str("The request to the language model timed out."),
        }
    }

    /// The request could not be sent, the server answered with a failure
    /// status, or its response body could not be read.
    pub fn generation_error() -> (e: Self)
        ensures
            e.code == 1,
            e.message@ == "An error occurred while generating the text."@,
    {
        Self {
            code: 1,
            message: String::from_str("An error occurred while generating the text."),
        }
    }
}

/// A completion request: the model to ask, the prompt, and whether the
/// server may stream its answer.  This pipeline always sends the request
/// with the stream flag off.
#[derive(Debug, Clone)]
pub struct OllamaGenerationBody {
    pub model: String,
    pub prompt: String,
    pub stream: bool,
}

/// The server's answer: the model it used and the generated text.
#[derive(Debug, Clone)]
pub struct OllamaGenerationResponse {
    pub model: String,
    pub response: String,
}

/// The JSON body sent for a completion request.
pub open spec fn generation_body_json(model: Seq<char>, prompt: Seq<char>, stream: bool) -> Seq<
    char,
> {
    "{\"model\":"@ + quoted(model) + ",\"prompt\":"@ + quoted(prompt) + ",\"stream\":"@ + (
    if stream {
        "true"@
    } else {
        "false"@
    }) + "}"@
}

/// What the response parser recognises: a flat object holding `model` and
/// `response` string fields.
pub open spec fn spec_parse_generation_response(s: Seq<char>) -> Option<(Seq<char>, Seq<char>)> {
    parse_two_fields(s, "model"@, "response"@)
}

/// The canonical JSON text of a generation response.
pub open spec fn generation_response_json(model: Seq<char>, response: Seq<char>) -> Seq<char> {
    seq!['{'] + quoted("model"@) + seq![':'] + quoted(model) + seq![','] + quoted("response"@)
        + seq![':'] + quoted(response) + seq!['}']
}

/// A generation response written in the canonical form reads back as
/// exactly its model name and its generated text.
pub proof fn lemma_generation_response_roundtrip(model: Seq<char>, response: Seq<char>)
    ensures
        spec_parse_generation_response(generation_response_json(model, response)) == Some(
            (model, response),
        ),
{
    reveal_strlit("model");
    reveal_strlit("response");
    assert("model"@.len() != "response"@.len());
    lemma_parse_two_field_object("model"@, model, "response"@, response);
}


/// The written shape of the request body, one member after another.
#[verifier::rlimit(100)]
proof fn lemma_generation_body_shape(model: Seq<char>, prompt: Seq<char>, stream: bool)
    ensures
        generation_body_json(model, prompt, stream) == seq!['{'] + (quoted("model"@) + seq![':']
            + quoted(model) + seq![','] + (quoted("prompt"@) + seq![':'] + quoted(prompt)
            + seq![','] + (quoted("stream"@) + seq![':'] + (if stream {
            "true"@
        } else {
            "false"@
        }) + seq!['}']))),
{
    broadcast use crate::json::lemma_concat_assoc_chars;

    reveal_strlit("{\"model\":");
    reveal_strlit(",\"prompt\":");
    reveal_strlit(",\"stream\":");
    reveal_strlit("}");
    reveal_strlit("model");
    reveal_strlit("prompt");
    reveal_strlit("stream");
    lemma_escaped_plain("model"@);
    lemma_escaped_plain("prompt"@);
    lemma_escaped_plain("stream"@);
    assert("{\"model\":"@ =~= seq!['{'] + quoted("model"@) + seq![':']);
    assert(",\"prompt\":"@ =~= seq![','] + quoted("prompt"@) + seq![':']);
    assert(",\"stream\":"@ =~= seq![','] + quoted("stream"@) + seq![':']);
    assert("}"@ =~= seq!['}']);
    assert(generation_body_json(model, prompt, stream) =~= seq!['{'] + (quoted("model"@)
        + seq![':'] + quoted(model) + seq![','] + (quoted("prompt"@) + seq![':'] + quoted(prompt)
        + seq![','] + (quoted("stream"@) + seq![':'] + (if stream {
        "true"@
    } else {
        "false"@
    }) + seq!['}']))));
}

/// The encoded request body reads back as exactly its model and prompt:
/// the encoding is deterministic in the values alone and loses nothing,
/// whatever the stream flag says.
#[verifier::rlimit(100)]
pub proof fn lemma_generation_body_roundtrip(model: Seq<char>, prompt: Seq<char>, stream: bool)
    ensures
        parse_two_fields(generation_body_json(model, prompt, stream), "model"@, "prompt"@)
            == Some((model, prompt)),
{
    broadcast use crate::json::lemma_concat_assoc_chars;

    reveal_strlit("model");
    reveal_strlit("prompt");
    reveal_strlit("stream");
    reveal_strlit("true");
    reveal_strlit("false");
    let tok = if stream { "true"@ } else { "false"@ };
    let obj = generation_body_json(model, prompt, stream);
    let m3 = quoted("stream"@) + seq![':'] + tok + seq!['}'];
    let m2 = quoted("prompt"@) + seq![':'] + quoted(prompt) + seq![','] + m3;
    let m1 = quoted("model"@) + seq![':'] + quoted(model) + seq![','] + m2;
    lemma_generation_body_shape(model, prompt, stream);
    assert(obj == seq!['{'] + m1);
    assert(obj[0] == '{');
    lemma_skip_ws_id(obj);
    assert(obj.skip(1) =~= m1);

    assert("model"@ != "prompt"@);
    assert("stream"@ != "model"@);
    assert("stream"@ != "prompt"@) by {
        assert("prompt"@[0] != "stream"@[0]);
    }
    lemma_members_step_string("model"@, model, m2, "model"@, "prompt"@, None, None);
    lemma_members_step_string("prompt"@, prompt, m3, "model"@, "prompt"@, Some(model), None);
    lemma_parse_bool_token(stream, seq!['}']);
    assert(!crate::json::is_ws(tok[0]) && tok[0] != '"' && tok[0] != '[' && tok[0] != '{');
    lemma_members_end_primitive("stream"@, tok, "model"@, "prompt"@, Some(model), Some(prompt));
}

/// A name for what `url::Url::parse` makes of a base-URL string: `None`
/// where the string is no absolute URL, else its normalized serialization.
pub uninterp spec fn url_normalized(s: Seq<char>) -> Option<Seq<char>>;

/// Relies on `url::Url::parse` and `url::Url::as_str`: parsing depends on
/// the input string alone, and `as_str` returns the parsed URL's
/// serialization.
#[verifier::external_body]
fn normalize_url(s: &str) -> (r: Option<String>)
    ensures
        r matches Some(u) ==> url_normalized(s@) == Some(u@),
        r is None ==> url_normalized(s@) is None,
{
    match url::Url::parse(s) {
        Ok(u) => Some(String::from(u.as_str())),
        Err(_) => None,
    }
}

/// A client of the language-model server, holding the serialization of
/// its base URL.
#[derive(Debug, Clone)]
pub struct Ollama {
    url: String,
}

impl Ollama {
    /// A client of the local server at its default address.
    pub fn new() -> (c: Self)
        ensures
            c.base_url() == "http://127.0.0.1:11434/"@,
    {
        Self { url: String::from_str("http://127.0.0.1:11434/") }
    }

    /// A client of the server behind `s`, if `s` is a well-formed
    /// absolute URL; its serialization is kept as the base URL.
    pub fn with_base_url(s: &str) -> (r: Option<Self>)
        ensures
            r matches Some(c) ==> url_normalized(s@) == Some(c.base_url()),
            r is None ==> url_normalized(s@) is None,
    {
        match normalize_url(s) {
            Some(u) => Some(Self { url: u }),
            None => None,
        }
    }

    /// The base URL's serialization.
    pub closed spec fn base_url(&self) -> Seq<char> {
        self.url@
    }

    /// The completion endpoint: the base URL followed by the API path.
    pub fn endpoint(&self) -> (r: String)
        ensures
            r@ == self.base_url() + "api/generate"@,
    {
        let mut out = self.url.clone();
        out.append("api/generate");
        out
    }

    /// The JSON body to send for `body`.
    pub fn encode_generation_body(&self, body: &OllamaGenerationBody) -> (r: String)
        ensures
            r@ == generation_body_json(body.model@, body.prompt@, body.stream),
    {
        let mut out = String::new();
        out.append("{\"model\":");
        push_quoted(&mut out, body.model.as_str());
        out.append(",\"prompt\":");
        push_quoted(&mut out, body.prompt.as_str());
        out.append(",\"stream\":");
        if body.stream {
            out.append("true");
        } else {
            out.append("false");
        }
        out.append("}");
        proof {
            assert(out@ =~= generation_body_json(body.model@, body.prompt@, body.stream));
        }
        out
    }

    /// Reads a response body; `None` where it is not a flat object
    /// holding `model` and `response` string fields.
    pub fn parse_generation_response(&self, s: &str) -> (r: Option<OllamaGenerationResponse>)
        ensures
            r matches Some(g) ==> spec_parse_generation_response(s@) == Some(
                (g.model@, g.response@),
            ),
            r is None ==> spec_parse_generation_response(s@) is None,
    {
        proof {
            reveal_strlit("model");
            reveal_strlit("response");
            assert("model"@.len() != "response"@.len());
        }
        match crate::json::parse_two_string_fields(s, "model", "response") {
            Some((m, rsp)) => Some(OllamaGenerationResponse { model: m, response: rsp }),
            None => None,
        }
    }

    /// The outcome of a completion request, from what the transport
    /// reports: whether the request ran past its deadline, whether it
    /// could be sent at all, whether the status was a success, and the
    /// response body if one was read.  A timed-out request is its own
    /// error kind; every other failure collapses into the one generation
    /// error.
    pub fn generate_outcome(
        &self,
        timed_out: bool,
        sent: bool,
        status_ok: bool,
        resp_body: Option<String>,
    ) -> (r: Result<OllamaGenerationResponse, OllamaError>)
        ensures
            r matches Ok(g) ==> !timed_out && sent && status_ok && (resp_body matches Some(b)
                && spec_parse_generation_response(b@) == Some((g.model@, g.response@))),
            r matches Err(e) ==> e.code == (if timed_out {
                2int
            } else {
                1int
            }) && (!timed_out ==> !sent || !status_ok || resp_body is None || (
            resp_body matches Some(b) && spec_parse_generation_response(b@) is None)),
    {
        if timed_out {
            return Err(OllamaError::timeout_error());
        }
        if !sent || !status_ok {
            return Err(OllamaError::generation_error());
        }
        match resp_body {
            None => Err(OllamaError::generation_error()),
            Some(b) => match self.parse_generation_response(b.as_str()) {
                Some(g) => Ok(g),
                None => Err(OllamaError::generation_error()),
            },
        }
    }
}

} // verus!
