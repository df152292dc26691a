//! The knowledge assistant: search terms from a question, the ranking of
//! knowledge chunks, and the answers made from them. The database search,
//! the model and the HTTP requests are driven by the application.
use vstd::prelude::*;
use crate::json::{get_str, json_get, json_parse_result, parse_json, Json, JsonValue};
use crate::panels::views_of;
use crate::text::{
    char_to_uppercase, char_upper, chars_of, concat, contains, contains_str, lower_text, owned,
    replace_all, replace_str, split_words, string_of, to_lowercase, trim, trim_non_alnum,
    trim_non_alnum_exec, trim_str, utf8_len, words, ascii_lower, ascii_text, lemma_ascii_lower_ascii,
    lemma_words_ascii, trim_ascii_alnum,
};
use vstd::string::StringExecFns;

verus! {

/// A chunk of a knowledge document, as the knowledge database returns it.
pub struct KnowledgeChunk {
    pub id: i64,
    pub title: String,
    pub body: String,
    pub source_file: String,
    /// JSON metadata, such as `{"page_number": 3}`.
    pub metadata: String,
}

impl KnowledgeChunk {
    pub fn copy(&self) -> (r: KnowledgeChunk)
        ensures
            r.id == self.id,
            r.title@ == self.title@,
            r.body@ == self.body@,
            r.source_file@ == self.source_file@,
            r.metadata@ == self.metadata@,
    {
        KnowledgeChunk {
            id: self.id,
            title: self.title.clone(),
            body: self.body.clone(),
            source_file: self.source_file.clone(),
            metadata: self.metadata.clone(),
        }
    }
}

// ---------------------------------------------------------------------------
// How the assistant answers
// ---------------------------------------------------------------------------

/// How the assistant answers: by search alone, by search with a small local
/// model that rewrites the results, or by a remote model.
pub struct LlmSettings {
    pub use_summarizer: bool,
    pub model_path: Option<String>,
    pub remote_endpoint: Option<String>,
    pub remote_model: Option<String>,
}

/// Where the small local model is looked for.
pub open spec fn summarizer_model_path() -> Seq<char> {
    "bundled/models/phi3-mini.gguf"@
}

impl LlmSettings {
    /// Search alone.
    pub fn new() -> (r: LlmSettings)
        ensures
            !r.use_summarizer,
            r.model_path is None,
            r.remote_endpoint is None,
            r.remote_model is None,
    {
        LlmSettings { use_summarizer: false, model_path: None, remote_endpoint: None, remote_model: None }
    }

    /// A remote model at `endpoint`.
    pub fn new_remote(endpoint: String, model: String) -> (r: LlmSettings)
        ensures
            !r.use_summarizer,
            r.model_path is None,
            r.remote_endpoint matches Some(e) && e@ == endpoint@,
            r.remote_model matches Some(m) && m@ == model@,
    {
        LlmSettings {
            use_summarizer: false,
            model_path: None,
            remote_endpoint: Some(endpoint),
            remote_model: Some(model),
        }
    }

    /// The settings a model name asks for: `summarizer` and `hybrid` use the
    /// small local model where its file exists (search alone otherwise);
    /// any other name is search alone.
    pub fn from_model_name(model_name: &str, model_file_exists: bool) -> (r: LlmSettings)
        ensures
            r.use_summarizer == ((model_name@ == "summarizer"@ || model_name@ == "hybrid"@)
                && model_file_exists),
            r.use_summarizer ==> (r.model_path matches Some(p) && p@ == summarizer_model_path()),
            !r.use_summarizer ==> r.model_path is None,
            r.remote_endpoint is None,
            r.remote_model is None,
    {
        let wants = crate::text::str_eq(model_name, "summarizer") || crate::text::str_eq(
            model_name,
            "hybrid",
        );
        if wants && model_file_exists {
            LlmSettings {
                use_summarizer: true,
                model_path: Some(owned("bundled/models/phi3-mini.gguf")),
                remote_endpoint: None,
                remote_model: None,
            }
        } else {
            LlmSettings::new()
        }
    }

    /// The remote model to ask, where one is set: its endpoint and name.
    pub fn remote_target(&self) -> (r: Option<(String, String)>)
        ensures
            match (self.remote_endpoint, self.remote_model) {
                (Some(e), Some(m)) => r matches Some((a, b)) && a@ == e@ && b@ == m@,
                _ => r is None,
            },
    {
        match (&self.remote_endpoint, &self.remote_model) {
            (Some(e), Some(m)) => Some((e.clone(), m.clone())),
            _ => None,
        }
    }

    /// The name of the way of answering, as the chat card shows it.
    pub fn get_model_info(&self) -> (r: String)
        ensures
            r@ == if self.use_summarizer {
                "Smart Search + Lightweight Summarizer"@
            } else {
                "Smart Search (FTS5)"@
            },
    {
        if self.use_summarizer {
            owned("Smart Search + Lightweight Summarizer")
        } else {
            owned("Smart Search (FTS5)")
        }
    }
}

// ---------------------------------------------------------------------------
// Search terms
// ---------------------------------------------------------------------------

/// The words left out of a search.
pub open spec fn stopwords() -> Seq<Seq<char>> {
    seq![
        "how"@, "do"@, "i"@, "a"@, "the"@, "is"@, "to"@, "can"@, "you"@, "what"@, "when"@,
        "where"@, "why"@, "does"@, "will"@, "would"@, "could"@, "should"@, "make"@, "build"@,
        "create"@, "get"@, "find"@, "tell"@, "me"@, "about"@, "my"@, "your"@, "explain"@,
        "show"@, "help"@, "with"@, "from"@,
    ]
}

/// A word kept as a search term: longer than two bytes and not a stopword.
pub open spec fn is_term(w: Seq<char>) -> bool {
    utf8_len(w) > 2 && !stopwords().contains(w)
}

/// The search terms among cleaned words, in order.
pub open spec fn terms_of(ws: Seq<Seq<char>>) -> Seq<Seq<char>>
    decreases ws.len(),
{
    if ws.len() == 0 {
        Seq::empty()
    } else {
        let rest = terms_of(ws.drop_last());
        let c = trim_non_alnum(ws.last());
        if is_term(c) {
            rest.push(c)
        } else {
            rest
        }
    }
}

/// The search terms of a question: its words in lower case, without the
/// characters that are not letters or digits at their ends, keeping those
/// longer than two bytes that are not stopwords.
pub open spec fn search_terms(query: Seq<char>) -> Seq<Seq<char>> {
    terms_of(words(lower_text(query)))
}

proof fn lemma_terms_of_kept(ws: Seq<Seq<char>>)
    ensures
        forall|i: int| 0 <= i < terms_of(ws).len() ==> #[trigger] is_term(terms_of(ws)[i]),
    decreases ws.len(),
{
    if ws.len() > 0 {
        let rest = terms_of(ws.drop_last());
        lemma_terms_of_kept(ws.drop_last());
        let c = trim_non_alnum(ws.last());
        if is_term(c) {
            assert forall|i: int| 0 <= i < terms_of(ws).len() implies #[trigger] is_term(
                terms_of(ws)[i],
            ) by {
                assert(terms_of(ws) == rest.push(c));
                if i < rest.len() {
                    assert(terms_of(ws)[i] == rest[i]);
                }
            }
        } else {
            assert(terms_of(ws) == rest);
        }
    }
}

/// Every search term of a question is longer than two bytes and is not a
/// stopword.
pub proof fn lemma_search_terms_kept(query: Seq<char>)
    ensures
        forall|i: int|
            0 <= i < search_terms(query).len() ==> #[trigger] is_term(search_terms(query)[i]),
{
    lemma_terms_of_kept(words(lower_text(query)));
}

fn is_stopword(w: &Vec<char>) -> (r: bool)
    ensures
        r == stopwords().contains(w@),
{
    let list = vec![
        "how", "do", "i", "a", "the", "is", "to", "can", "you", "what", "when", "where", "why",
        "does", "will", "would", "could", "should", "make", "build", "create", "get", "find",
        "tell", "me", "about", "my", "your", "explain", "show", "help", "with", "from",
    ];
    assert(list@.map_values(|s: &str| s@) =~= stopwords());
    let s = string_of(w);
    let mut i: usize = 0;
    while i < list.len()
        invariant
            i <= list@.len(),
            list@.map_values(|s: &str| s@) == stopwords(),
            s@ == w@,
            forall|j: int| 0 <= j < i ==> stopwords()[j] != w@,
        decreases list.len() - i,
    {
        if crate::text::str_eq(s.as_str(), list[i]) {
            assert(stopwords()[i as int] == w@);
            return true;
        }
        i = i + 1;
    }
    false
}

/// The search terms among the words of an ASCII question: what
/// [`terms_of`] gives there, where only ASCII letters and digits count.
pub open spec fn ascii_terms_of(ws: Seq<Seq<char>>) -> Seq<Seq<char>>
    decreases ws.len(),
{
    if ws.len() == 0 {
        Seq::empty()
    } else {
        let rest = ascii_terms_of(ws.drop_last());
        let c = trim_ascii_alnum(ws.last());
        if is_term(c) {
            rest.push(c)
        } else {
            rest
        }
    }
}

/// The search terms of a question; for an ASCII question, its words in
/// ASCII lower case, trimmed of what is not a letter or digit at their ends,
/// kept where longer than two characters and not a stopword.
pub fn extract_search_terms(query: &str) -> (r: Vec<String>)
    ensures
        views_of(r@) == search_terms(query@),
        ascii_text(query@) ==> views_of(r@) == ascii_terms_of(words(ascii_lower(query@))),
{
    let lower = to_lowercase(query);
    let ws = split_words(lower.as_str());
    let ghost wv = ws@.map_values(|w: Vec<char>| w@);
    proof {
        if ascii_text(query@) {
            lemma_ascii_lower_ascii(query@);
            lemma_words_ascii(lower@);
        }
    }
    let mut r: Vec<String> = Vec::new();
    let mut i: usize = 0;
    while i < ws.len()
        invariant
            i <= ws@.len(),
            wv == ws@.map_values(|w: Vec<char>| w@),
            wv == words(lower_text(query@)),
            ascii_text(query@) ==> lower_text(query@) == ascii_lower(query@),
            ascii_text(query@) ==> forall|j: int| 0 <= j < wv.len() ==> ascii_text(#[trigger] wv[j]),
            views_of(r@) == terms_of(wv.take(i as int)),
            ascii_text(query@) ==> views_of(r@) == ascii_terms_of(wv.take(i as int)),
        decreases ws.len() - i,
    {
        assert(wv.take(i + 1).drop_last() =~= wv.take(i as int));
        assert(wv.take(i + 1).last() == ws@[i as int]@);
        proof {
            if ascii_text(query@) {
                assert(ascii_text(wv[i as int]));
            }
        }
        let c = trim_non_alnum_exec(&ws[i]);
        let long = long_enough(&c);
        if long && !is_stopword(&c) {
            let ghost before = views_of(r@);
            r.push(string_of(&c));
            assert(views_of(r@) =~= before.push(c@));
        }
        i = i + 1;
    }
    assert(wv.take(i as int) =~= wv);
    r
}

/// Whether a text is longer than two bytes in UTF-8.
fn long_enough(v: &Vec<char>) -> (r: bool)
    ensures
        r == (utf8_len(v@) > 2),
{
    crate::text::byte_within(v, 2)
}

// ---------------------------------------------------------------------------
// Topics and plain answers
// ---------------------------------------------------------------------------

/// The text with its first character in upper case.
pub open spec fn capitalized(t: Seq<char>) -> Seq<char> {
    if t.len() == 0 {
        Seq::empty()
    } else {
        char_upper(t[0]) + t.drop_first()
    }
}

/// The topic of a question: in lower case, without `how do i `, `how to `,
/// `what is `, `why ` and question marks, trimmed, its first character in
/// upper case.
pub open spec fn topic_of(query: Seq<char>) -> Seq<char> {
    let l = lower_text(query);
    let a = replace_all(l, "how do i "@, ""@);
    let b = replace_all(a, "how to "@, ""@);
    let c = replace_all(b, "what is "@, ""@);
    let d = replace_all(c, "why "@, ""@);
    let e = replace_all(d, "?"@, ""@);
    capitalized(trim(e))
}

pub fn extract_topic(query: &str) -> (r: String)
    ensures
        r@ == topic_of(query@),
{
    proof {
        reveal_strlit("how do i ");
        reveal_strlit("how to ");
        reveal_strlit("what is ");
        reveal_strlit("why ");
        reveal_strlit("?");
        reveal_strlit("");
    }
    let l = to_lowercase(query);
    let a = replace_str(l.as_str(), "how do i ", "");
    let b = replace_str(a.as_str(), "how to ", "");
    let c = replace_str(b.as_str(), "what is ", "");
    let d = replace_str(c.as_str(), "why ", "");
    let e = replace_str(d.as_str(), "?", "");
    let t = trim_str(e.as_str());
    let v = chars_of(t.as_str());
    if v.len() == 0 {
        return String::new();
    }
    let mut out = char_to_uppercase(v[0]);
    let rest = crate::text::substring(&v, 1, v.len());
    out.append(rest.as_str());
    assert(v@.subrange(1, v@.len() as int) =~= v@.drop_first());
    out
}

/// The answer where the knowledge base holds nothing on a question.
pub open spec fn no_results_text(query: Seq<char>) -> Seq<char> {
    "**No information found about '"@ + lower_text(topic_of(query))
        + "'**\n\nI couldn't find relevant information in the knowledge base.\n\n**Try:**\n• Rephrasing with different keywords\n• Adding PDFs/guides to `modules/wasteland/knowledge_*/knowledge/`\n• Restarting to re-ingest knowledge base"@
}

pub fn generate_no_results_response(query: &str) -> (r: String)
    ensures
        r@ == no_results_text(query@),
{
    let topic = extract_topic(query);
    let lower = to_lowercase(topic.as_str());
    let mut s = owned("**No information found about '");
    s.append(lower.as_str());
    s.append(
        "'**\n\nI couldn't find relevant information in the knowledge base.\n\n**Try:**\n• Rephrasing with different keywords\n• Adding PDFs/guides to `modules/wasteland/knowledge_*/knowledge/`\n• Restarting to re-ingest knowledge base",
    );
    s
}

/// A model's answer without the chat markers, trimmed.
pub open spec fn cleaned_text(response: Seq<char>) -> Seq<char> {
    let a = replace_all(response, "<|end|>"@, ""@);
    let b = replace_all(a, "<|assistant|>"@, ""@);
    let c = replace_all(b, "<|user|>"@, ""@);
    let d = replace_all(c, "<|system|>"@, ""@);
    trim(d)
}

pub fn clean_llm_response(response: &str) -> (r: String)
    ensures
        r@ == cleaned_text(response@),
{
    proof {
        reveal_strlit("<|end|>");
        reveal_strlit("<|assistant|>");
        reveal_strlit("<|user|>");
        reveal_strlit("<|system|>");
        reveal_strlit("");
    }
    let a = replace_str(response, "<|end|>", "");
    let b = replace_str(a.as_str(), "<|assistant|>", "");
    let c = replace_str(b.as_str(), "<|user|>", "");
    let d = replace_str(c.as_str(), "<|system|>", "");
    trim_str(d.as_str())
}

/// The local model's answer is complete: longer than 1000 bytes, or at a
/// chat marker.
pub open spec fn completion_done(response: Seq<char>) -> bool {
    utf8_len(response) > 1000 || contains(response, "<|end|>"@) || contains(response, "<|user|>"@)
}

pub fn is_completion_done(response: &str) -> (r: bool)
    ensures
        r == completion_done(response@),
{
    let v = chars_of(response);
    crate::text::byte_within(&v, 1000) || contains_str(response, "<|end|>") || contains_str(
        response,
        "<|user|>",
    )
}

// ---------------------------------------------------------------------------
// The remote model
// ---------------------------------------------------------------------------

/// Where the remote model is asked: `<endpoint>/api/chat`.
pub fn remote_chat_url(endpoint: &str) -> (r: String)
    ensures
        r@ == endpoint@ + "/api/chat"@,
{
    concat(endpoint, "/api/chat")
}

/// The request to the remote model: the model, the question as the one
/// user message, and no streaming.
pub open spec fn remote_request(model: Seq<char>, query: Seq<char>) -> Json {
    Json::Obj(
        seq![
            ("model"@, Json::Str(model)),
            (
                "messages"@,
                Json::Arr(
                    seq![
                        Json::Obj(
                            seq![("role"@, Json::Str("user"@)), ("content"@, Json::Str(query))],
                        ),
                    ],
                ),
            ),
            ("stream"@, Json::Bool(false)),
        ],
    )
}

pub fn remote_request_body(model: &str, query: &str) -> (r: JsonValue)
    ensures
        r@ == remote_request(model@, query@),
{
    let message = vec![(owned("role"), JsonValue::from_str("user")), (owned("content"), JsonValue::from_str(query))];
    proof {
        crate::json::lemma_entries_model(message@, 2);
        assert(crate::json::entries_model(message@, 2) =~= seq![
            ("role"@, Json::Str("user"@)),
            ("content"@, Json::Str(query@)),
        ]);
    }
    let m0 = JsonValue::Object(message);
    let ghost m0v = m0@;
    let items = vec![m0];
    proof {
        crate::json::lemma_items_model(items@, 1);
        assert(crate::json::items_model(items@, 1) =~= seq![m0v]);
    }
    let messages = JsonValue::Array(items);
    let ghost mm = messages@;
    assert(mm == Json::Arr(seq![
        Json::Obj(seq![("role"@, Json::Str("user"@)), ("content"@, Json::Str(query@))]),
    ]));
    let entries = vec![
        (owned("model"), JsonValue::from_str(model)),
        (owned("messages"), messages),
        (owned("stream"), JsonValue::Bool(false)),
    ];
    proof {
        crate::json::lemma_entries_model(entries@, 3);
        assert(crate::json::entries_model(entries@, 3) =~= seq![
            ("model"@, Json::Str(model@)),
            ("messages"@, mm),
            ("stream"@, Json::Bool(false)),
        ]);
    }
    JsonValue::Object(entries)
}

/// The answer in the remote model's reply: `message.content`.
pub open spec fn reply_content(reply: Seq<char>) -> Option<Seq<char>> {
    match json_parse_result(reply) {
        Some(v) => match json_get(v, "message"@) {
            Some(m) => get_str(m, "content"@),
            None => None,
        },
        None => None,
    }
}

pub fn remote_reply_content(reply: &str) -> (r: Option<String>)
    ensures
        match reply_content(reply@) {
            Some(c) => r matches Some(s) && s@ == c,
            None => r is None,
        },
{
    match parse_json(reply) {
        Some(v) => match v.get("message") {
            Some(m) => match m.get("content") {
                Some(c) => match c.as_str() {
                    Some(s) => Some(owned(s)),
                    None => None,
                },
                None => None,
            },
            None => None,
        },
        None => None,
    }
}

} // verus!
