//! Optional language-model rewrite after the rule cleanup. Fails open: where
//! anything goes wrong, the text of the rules is kept.

use crate::chars;
use crate::chars::{byte_length, cat, cat3, char_index, from_range, str_eq, to_chars};
use crate::json;
use crate::json::{text_value, with_field, Json, Tree};
use crate::prompts;
use crate::words;
use crate::words::{has_suffix, trim_end_class, trim_start_class, trimmed, Class};
use vstd::prelude::*;
use vstd::string::*;

verus! {

/// Whether a preset is known.
pub open spec fn is_preset(s: Seq<char>) -> bool {
    s == "clean"@ || s == "professional"@ || s == "casual"@ || s == "message"@ || s == "bullets"@
        || s == "custom"@
}

pub fn known_preset(s: &str) -> (r: bool)
    ensures
        r == is_preset(s@),
{
    str_eq(s, "clean") || str_eq(s, "professional") || str_eq(s, "casual") || str_eq(s, "message")
        || str_eq(s, "bullets") || str_eq(s, "custom")
}

#[derive(Debug)]
pub struct Secrets {
    pub audio_api_key: String,
    pub llm_api_key: String,
}

/// Service name in the credential store, on all platforms.
pub const KEYRING_SERVICE: &'static str = "DictFlow";

pub const CRED_AUDIO: &'static str = "audio_api_key";

pub const CRED_LLM: &'static str = "llm_api_key";

/// The file below the data directory that once held the keys.
pub fn secrets_path() -> (r: &'static str)
    ensures
        r@ == "secrets.json"@,
{
    "secrets.json"
}

/// What the credential store gave, where it is not empty.
pub open spec fn stored(o: Option<String>) -> Seq<char> {
    match o {
        Some(s) => s@,
        None => Seq::empty(),
    }
}

fn stored_or_empty(o: Option<String>) -> (r: String)
    ensures
        r@ == stored(o),
{
    match o {
        Some(s) => s,
        None => {
            let s = String::new();
            assert(s@ =~= Seq::empty());
            s
        },
    }
}

/// The keys out of the credential store; a missing one is empty.
pub fn load_secrets(audio: Option<String>, llm: Option<String>) -> (r: Secrets)
    ensures
        r.audio_api_key@ == stored(audio),
        r.llm_api_key@ == stored(llm),
{
    Secrets { audio_api_key: stored_or_empty(audio), llm_api_key: stored_or_empty(llm) }
}

/// What has to be written for a key: the trimmed key, unless it is blank.
pub open spec fn key_to_write(key: Seq<char>) -> Option<Seq<char>> {
    if words::trim(key).len() > 0 {
        Some(words::trim(key))
    } else {
        None
    }
}

/// The text of an optional string.
pub open spec fn opt_text(o: Option<String>) -> Option<Seq<char>> {
    match o {
        Some(s) => Some(s@),
        None => None,
    }
}

/// What is written for a key.
pub fn write_key(key: &str) -> (r: Option<String>)
    ensures
        opt_text(r) == key_to_write(key@),
{
    let t = trimmed(key);
    if t.as_str().is_empty() {
        None
    } else {
        Some(t)
    }
}

/// What is written for the two keys: audio first, then the language model.
pub fn save_secrets(secrets: &Secrets) -> (r: (Option<String>, Option<String>))
    ensures
        opt_text(r.0) == key_to_write(secrets.audio_api_key@),
        opt_text(r.1) == key_to_write(secrets.llm_api_key@),
{
    (write_key(secrets.audio_api_key.as_str()), write_key(secrets.llm_api_key.as_str()))
}

/// What is copied out of a leftover file for a key: nothing where the store
/// holds one already.
pub open spec fn key_to_migrate(current: Option<String>, in_file: Seq<char>) -> Option<Seq<char>> {
    if stored(current).len() == 0 {
        key_to_write(in_file)
    } else {
        None
    }
}

fn migrate_key(current: Option<String>, in_file: &str) -> (r: Option<String>)
    ensures
        opt_text(r) == key_to_migrate(current, in_file@),
{
    let now = stored_or_empty(current);
    if now.as_str().is_empty() {
        write_key(in_file)
    } else {
        None
    }
}

/// What is copied into the credential store out of a leftover file.
pub fn migrate_file_secrets(
    audio: Option<String>,
    llm: Option<String>,
    file: &Secrets,
) -> (r: (Option<String>, Option<String>))
    ensures
        opt_text(r.0) == key_to_migrate(audio, file.audio_api_key@),
        opt_text(r.1) == key_to_migrate(llm, file.llm_api_key@),
{
    (
        migrate_key(audio, file.audio_api_key.as_str()),
        migrate_key(llm, file.llm_api_key.as_str()),
    )
}

/// A key that the user typed: not blank, and not the masked form that was
/// shown.
pub open spec fn is_typed_key(k: Seq<char>) -> bool {
    words::trim(k).len() > 0 && !k.contains('…')
}

/// The key after an edit.
pub open spec fn edited_key(old: Seq<char>, typed: Option<String>) -> Seq<char> {
    match typed {
        Some(k) => if is_typed_key(k@) {
            words::trim(k@)
        } else {
            old
        },
        None => old,
    }
}

fn edit_key(before: &String, typed: Option<String>) -> (r: String)
    ensures
        r@ == edited_key(before@, typed),
{
    match typed {
        Some(k) => {
            let t = trimmed(k.as_str());
            if !t.as_str().is_empty() && !holds_char(k.as_str(), '…') {
                t
            } else {
                before.clone()
            }
        },
        None => before.clone(),
    }
}

/// Whether a character stands in a text.
pub fn holds_char(s: &str, c: char) -> (r: bool)
    ensures
        r == s@.contains(c),
{
    let cs = to_chars(s);
    let mut i: usize = 0;
    while i < cs.len()
        invariant
            i <= cs.len(),
            cs@ == s@,
            forall|k: int| 0 <= k < i ==> cs@[k] != c,
        decreases cs.len() - i,
    {
        if cs[i] == c {
            return true;
        }
        i += 1;
    }
    false
}

/// The keys after an edit of either.
pub fn set_provider_secrets(
    secrets: &Secrets,
    audio_api_key: Option<String>,
    llm_api_key: Option<String>,
) -> (r: Secrets)
    ensures
        r.audio_api_key@ == edited_key(secrets.audio_api_key@, audio_api_key),
        r.llm_api_key@ == edited_key(secrets.llm_api_key@, llm_api_key),
{
    Secrets {
        audio_api_key: edit_key(&secrets.audio_api_key, audio_api_key),
        llm_api_key: edit_key(&secrets.llm_api_key, llm_api_key),
    }
}

/// A key as it is shown: four bytes of each end, or dots where it is short.
pub open spec fn masked(key: Seq<char>) -> Seq<char> {
    let t = words::trim(key);
    let n = chars::byte_len(t);
    if t.len() == 0 {
        Seq::empty()
    } else if n <= 8 {
        "••••"@
    } else {
        t.take(chars::chars_before(t, 4)) + "…"@ + t.skip(chars::chars_before(t, n - 4))
    }
}

/// Whether a key can be cut four bytes from each end.
pub open spec fn can_mask(key: Seq<char>) -> bool {
    let t = words::trim(key);
    let n = chars::byte_len(t);
    n > 8 ==> chars::at_boundary(t, 4) && chars::at_boundary(t, n - 4)
}

/// A key as it is shown.
pub fn mask_key(key: &str) -> (r: String)
    requires
        can_mask(key@),
    ensures
        r@ == masked(key@),
{
    let t = trimmed(key);
    let n = byte_length(t.as_str());
    let cs = to_chars(t.as_str());
    if cs.len() == 0 {
        assert(t@ =~= Seq::empty());
        return t;
    }
    if n <= 8 {
        return "••••".to_owned();
    }
    let a = char_index(&cs, 4);
    let b = char_index(&cs, n - 4);
    let head = from_range(&cs, 0, a);
    let tail = from_range(&cs, b, cs.len());
    assert(head@ =~= t@.take(a as int));
    assert(tail@ =~= t@.skip(b as int));
    cat3(head.as_str(), "…", tail.as_str())
}

/// A masked key that is long enough to show its ends is never taken for a typed
/// one.
pub proof fn lemma_masked_is_not_typed(key: Seq<char>)
    requires
        chars::byte_len(words::trim(key)) > 8,
    ensures
        !is_typed_key(masked(key)),
{
    reveal_strlit("…");
    let t = words::trim(key);
    assert(t.len() > 0);
    let n = chars::byte_len(t);
    let a = t.take(chars::chars_before(t, 4));
    let m = masked(key);
    chars::lemma_chars_before_monotone(t, 4, n - 4);
    assert(m[a.len() as int] == '…');
}

/// `base` and `path` with one slash between them; `base` alone where it ends in
/// `path` already.
pub open spec fn joined_url(base: Seq<char>, path: Seq<char>) -> Seq<char> {
    let b = words::without_end(words::trim(base), Class::Only('/'));
    let p = words::without_start(words::trim(path), Class::Only('/'));
    if b.len() == 0 {
        "/"@ + p
    } else if words::ends_with(b, p) {
        b
    } else {
        b + "/"@ + p
    }
}

pub fn join_url(base: &str, path: &str) -> (r: String)
    ensures
        r@ == joined_url(base@, path@),
{
    let b = trimmed(base);
    let b = trim_end_class(b.as_str(), &Class::Only('/'));
    let p = trimmed(path);
    let p = trim_start_class(p.as_str(), &Class::Only('/'));
    if b.as_str().is_empty() {
        return cat("/", p.as_str());
    }
    if has_suffix(b.as_str(), p.as_str()) {
        return b;
    }
    cat3(b.as_str(), "/", p.as_str())
}

/// Joining the same path a second time changes nothing, for a path that is not
/// just slashes, does not end in one and has no white space at its ends.
pub proof fn lemma_join_url_once(base: Seq<char>, path: Seq<char>)
    requires
        ({
            let p = words::without_start(words::trim(path), Class::Only('/'));
            &&& p.len() > 0
            &&& p.last() != '/'
            &&& !chars::is_white(p.last())
        }),
    ensures
        joined_url(joined_url(base, path), path) == joined_url(base, path),
{
    reveal_strlit("/");
    let p = words::without_start(words::trim(path), Class::Only('/'));
    let b = words::without_end(words::trim(base), Class::Only('/'));
    let u = joined_url(base, path);
    words::lemma_without_ends(base, Class::White);
    words::lemma_without_end(words::trim(base), Class::Only('/'));
    assert(u.len() >= p.len() && u.skip(u.len() - p.len()) =~= p) by {
        if b.len() > 0 && words::ends_with(b, p) {
        } else if b.len() == 0 {
            assert(u =~= "/"@ + p);
        }
    }
    assert(u.last() == p.last());
    assert(!chars::is_white(u[0])) by {
        if b.len() > 0 {
            assert(u[0] == b[0]);
            assert(b[0] == words::trim(base)[0]);
        } else {
            assert(u[0] == '/');
        }
    }
    words::lemma_trimmed(u);
    assert(words::without_end(u, Class::Only('/')) == u);
}

/// The address of a backend where none is set.
pub open spec fn base_of(backend: Seq<char>) -> Seq<char> {
    if backend == "local"@ {
        "http://127.0.0.1:11434/v1"@
    } else if backend == "anthropic"@ {
        "https://api.anthropic.com"@
    } else if backend == "openai_compat"@ {
        "https://api.openai.com/v1"@
    } else {
        ""@
    }
}

pub fn default_base(backend: &str) -> (r: &'static str)
    ensures
        r@ == base_of(backend@),
{
    if str_eq(backend, "local") {
        "http://127.0.0.1:11434/v1"
    } else if str_eq(backend, "anthropic") {
        "https://api.anthropic.com"
    } else if str_eq(backend, "openai_compat") {
        "https://api.openai.com/v1"
    } else {
        ""
    }
}

/// The system prompt of the clean preset.
pub fn default_prompt() -> (r: &'static str)
    ensures
        r@ == prompts::CLEAN@,
{
    prompts::CLEAN
}

pub fn preset_prompt(preset: &str) -> (r: &'static str)
    ensures
        r@ == prompts::prompt_of(preset@),
{
    crate::prompts::text(preset)
}

/// The presets that have a prompt of their own, with it.
pub open spec fn prompt_rows() -> Seq<(&'static str, &'static str)> {
    seq![
        ("clean", prompts::CLEAN),
        ("professional", prompts::PROFESSIONAL),
        ("casual", prompts::CASUAL),
        ("message", prompts::MESSAGE),
        ("bullets", prompts::BULLETS),
    ]
}

/// The keys of the catalog.
pub open spec fn prompt_keys() -> Seq<Seq<char>> {
    prompt_rows().map(|i: int, row: (&'static str, &'static str)| row.0@)
}

/// The catalog holds each preset that is known once, but for `custom`, and gives
/// it the prompt that the preset has.
pub proof fn lemma_prompt_catalog(preset: Seq<char>)
    ensures
        prompt_keys().contains(preset) <==> is_preset(preset) && preset != "custom"@,
        prompt_keys().no_duplicates(),
        forall|i: int| #![trigger prompt_rows()[i]]
            0 <= i < prompt_rows().len() ==> prompt_rows()[i].1@ == prompts::prompt_of(
                prompt_rows()[i].0@,
            ),
{
    reveal_strlit("clean");
    reveal_strlit("professional");
    reveal_strlit("casual");
    reveal_strlit("message");
    reveal_strlit("bullets");
    reveal_strlit("custom");
    assert("clean"@.len() == 5 && "professional"@.len() == 12);
    assert("casual"@.len() == 6 && "casual"@[1] == 'a');
    assert("custom"@.len() == 6 && "custom"@[1] == 'u');
    assert("message"@.len() == 7 && "message"@[0] == 'm');
    assert("bullets"@.len() == 7 && "bullets"@[0] == 'b');
    let keys = prompt_keys();
    assert(keys =~= seq!["clean"@, "professional"@, "casual"@, "message"@, "bullets"@]);
    assert(keys[0] == "clean"@ && keys[1] == "professional"@ && keys[2] == "casual"@ && keys[3]
        == "message"@ && keys[4] == "bullets"@);
}

/// The presets that have a prompt of their own, with it.
pub fn prompt_catalog() -> (r: Vec<(&'static str, &'static str)>)
    ensures
        r@ == prompt_rows(),
{
    vec![
        ("clean", crate::prompts::CLEAN),
        ("professional", crate::prompts::PROFESSIONAL),
        ("casual", crate::prompts::CASUAL),
        ("message", crate::prompts::MESSAGE),
        ("bullets", crate::prompts::BULLETS),
    ]
}

/// The system prompt: the user's own where the preset is `custom` and it is not
/// blank.
pub open spec fn system_text(preset: Seq<char>, custom: Seq<char>) -> Seq<char> {
    if preset == "custom"@ && words::trim(custom).len() > 0 {
        words::trim(custom)
    } else {
        prompts::prompt_of(preset)
    }
}

pub fn system_prompt(preset: &str, custom: &str) -> (r: String)
    ensures
        r@ == system_text(preset@, custom@),
{
    let c = trimmed(custom);
    if str_eq(preset, "custom") && !c.as_str().is_empty() {
        c
    } else {
        preset_prompt(preset).to_owned()
    }
}

/// One message of a chat.
pub open spec fn message_tree(role: Seq<char>, content: Seq<char>) -> Tree {
    Tree::Object(seq![("role"@, Tree::Text(role)), ("content"@, Tree::Text(content))])
}

fn message(role: &str, content: &str) -> (r: Json)
    ensures
        r.tree() == message_tree(role@, content@),
{
    let none: Vec<(String, Json)> = Vec::new();
    assert((Json::Object(none).tree()->Object_0) =~= Seq::empty());
    let a = with_field(none, "role", text_value(role));
    let b = with_field(a, "content", text_value(content));
    let r = Json::Object(b);
    assert((r.tree()->Object_0) =~= seq![
        ("role"@, Tree::Text(role@)),
        ("content"@, Tree::Text(content@)),
    ]);
    r
}

/// The body of a request in the OpenAI form. The temperature is the bit pattern
/// of its single-precision value.
pub open spec fn openai_tree(
    model: Seq<char>,
    system: Seq<char>,
    user: Seq<char>,
    temperature: u32,
) -> Tree {
    Tree::Object(
        seq![
            ("model"@, Tree::Text(model)),
            ("temperature"@, Tree::Single(temperature)),
            (
                "messages"@,
                Tree::List(seq![message_tree("system"@, system), message_tree("user"@, user)]),
            ),
        ],
    )
}

pub fn openai_chat_body(model: &str, system: &str, user: &str, temperature: u32) -> (r: Json)
    ensures
        r.tree() == openai_tree(model@, system@, user@, temperature),
{
    let mut list: Vec<Json> = Vec::new();
    list.push(message("system", system));
    list.push(message("user", user));
    let messages = Json::List(list);
    assert((messages.tree()->List_0) =~= seq![
        message_tree("system"@, system@),
        message_tree("user"@, user@),
    ]);
    let none: Vec<(String, Json)> = Vec::new();
    assert((Json::Object(none).tree()->Object_0) =~= Seq::empty());
    let a = with_field(none, "model", text_value(model));
    let b = with_field(a, "temperature", Json::Single(temperature));
    let c = with_field(b, "messages", messages);
    let r = Json::Object(c);
    assert((r.tree()->Object_0) =~= (openai_tree(model@, system@, user@, temperature)->Object_0));
    r
}

/// The body of a request in the Anthropic form.
pub open spec fn anthropic_tree(
    model: Seq<char>,
    system: Seq<char>,
    user: Seq<char>,
    temperature: u32,
) -> Tree {
    Tree::Object(
        seq![
            ("model"@, Tree::Text(model)),
            ("max_tokens"@, Tree::Int(1024)),
            ("temperature"@, Tree::Single(temperature)),
            ("system"@, Tree::Text(system)),
            ("messages"@, Tree::List(seq![message_tree("user"@, user)])),
        ],
    )
}

pub fn anthropic_body(model: &str, system: &str, user: &str, temperature: u32) -> (r: Json)
    ensures
        r.tree() == anthropic_tree(model@, system@, user@, temperature),
{
    let mut list: Vec<Json> = Vec::new();
    list.push(message("user", user));
    let messages = Json::List(list);
    assert((messages.tree()->List_0) =~= seq![message_tree("user"@, user@)]);
    let none: Vec<(String, Json)> = Vec::new();
    assert((Json::Object(none).tree()->Object_0) =~= Seq::empty());
    let a = with_field(none, "model", text_value(model));
    let b = with_field(a, "max_tokens", Json::Int(1024));
    let c = with_field(b, "temperature", Json::Single(temperature));
    let d = with_field(c, "system", text_value(system));
    let e = with_field(d, "messages", messages);
    let r = Json::Object(e);
    assert((r.tree()->Object_0) =~= (anthropic_tree(model@, system@, user@, temperature)->Object_0));
    r
}

/// A text with something in it, trimmed.
pub open spec fn nonblank(o: Option<Seq<char>>) -> Option<Seq<char>> {
    match o {
        Some(s) => if words::trim(s).len() > 0 {
            Some(words::trim(s))
        } else {
            None
        },
        None => None,
    }
}

fn take_nonblank(o: Option<&str>) -> (r: Option<String>)
    ensures
        opt_text(r) == nonblank(
            match o {
                Some(s) => Some(s@),
                None => None,
            },
        ),
{
    match o {
        Some(s) => write_key(s),
        None => None,
    }
}

/// The reply text of an OpenAI-style answer.
pub open spec fn openai_reply(v: Tree) -> Option<Seq<char>> {
    nonblank(v.field("choices"@).item(0).field("message"@).field("content"@).text())
}

pub fn extract_openai_text(v: &Json) -> (r: Option<String>)
    ensures
        opt_text(r) == openai_reply(v.tree()),
{
    match v.field("choices") {
        Some(choices) => match choices.item(0) {
            Some(first) => match first.field("message") {
                Some(message) => match message.field("content") {
                    Some(content) => take_nonblank(content.text()),
                    None => None,
                },
                None => None,
            },
            None => None,
        },
        None => None,
    }
}

/// The text of the first block from `i` on that has one.
pub open spec fn first_block_text(blocks: Seq<Tree>, i: int) -> Option<Seq<char>>
    decreases blocks.len() - i,
{
    if i < 0 || i >= blocks.len() {
        None
    } else {
        match blocks[i].field("text"@).text() {
            Some(s) => Some(s),
            None => first_block_text(blocks, i + 1),
        }
    }
}

/// The reply text of an Anthropic-style answer.
pub open spec fn anthropic_reply(v: Tree) -> Option<Seq<char>> {
    match v.field("content"@) {
        Tree::List(blocks) => nonblank(first_block_text(blocks, 0)),
        _ => None,
    }
}

pub fn extract_anthropic_text(v: &Json) -> (r: Option<String>)
    ensures
        opt_text(r) == anthropic_reply(v.tree()),
{
    match v.field("content") {
        Some(content) => match content {
            Json::List(blocks) => {
                let ghost all = content.tree()->List_0;
                assert(all.len() == blocks@.len());
                let mut i: usize = 0;
                while i < blocks.len()
                    invariant
                        i <= blocks.len(),
                        *content == Json::List(*blocks),
                        content.tree() == Tree::List(all),
                        content.tree() == v.tree().field("content"@),
                        all.len() == blocks@.len(),
                        first_block_text(all, 0) == first_block_text(all, i as int),
                    decreases blocks.len() - i,
                {
                    assert(all[i as int] == blocks@[i as int].tree());
                    if let Some(t) = blocks[i].field("text") {
                        if let Some(s) = t.text() {
                            return take_nonblank(Some(s));
                        }
                    }
                    i += 1;
                }
                None
            },
            _ => None,
        },
        None => None,
    }
}

/// The transcript of an audio answer.
pub open spec fn audio_reply(v: Tree) -> Option<Seq<char>> {
    nonblank(v.field("text"@).text())
}

pub fn extract_transcript(v: &Json) -> (r: Option<String>)
    ensures
        opt_text(r) == audio_reply(v.tree()),
{
    match v.field("text") {
        Some(t) => take_nonblank(t.text()),
        None => None,
    }
}

/// A request to an audio host, without the clip.
#[derive(Debug)]
pub struct AudioRequest {
    pub url: String,
    /// The key to send; none is sent where it is empty.
    pub key: String,
    pub model: String,
    pub timeout_ms: u64,
}

/// The request for a transcript.
pub fn plan_transcription(base: &str, key: &str, model: &str, timeout_ms: u64) -> (r:
    AudioRequest)
    ensures
        r.url@ == joined_url(base@, "audio/transcriptions"@),
        r.key@ == words::trim(key@),
        r.model@ == model@,
        r.timeout_ms == timeout_of(timeout_ms),
{
    AudioRequest {
        url: join_url(base, "audio/transcriptions"),
        key: trimmed(key),
        model: model.to_owned(),
        timeout_ms: request_timeout(timeout_ms),
    }
}

/// The transcript of an audio host's answer.
pub fn transcribe_openai(reply: &Json) -> (r: Result<String, &'static str>)
    ensures
        match r {
            Ok(s) => audio_reply(reply.tree()) == Some(s@),
            Err(e) => audio_reply(reply.tree()) is None && e@ == "empty audio transcript"@,
        },
{
    match extract_transcript(reply) {
        Some(s) => Ok(s),
        None => Err("empty audio transcript"),
    }
}

/// What a rewrite is asked for. The temperature is the bit pattern of its
/// single-precision value.
pub struct PolishArgs<'a> {
    pub backend: &'a str,
    pub base_url: &'a str,
    pub api_key: &'a str,
    pub model: &'a str,
    pub preset: &'a str,
    pub custom_prompt: &'a str,
    pub temperature: u32,
    pub timeout_ms: u64,
    pub text: &'a str,
}

/// The two forms of a request.
#[derive(Debug, Clone, Copy, PartialEq, Eq, Structural)]
pub enum Dialect {
    OpenAi,
    Anthropic,
}

/// A request to a language model.
#[derive(Debug)]
pub struct ChatRequest {
    pub dialect: Dialect,
    pub url: String,
    /// The key to send; the OpenAI form sends none where it is empty.
    pub key: String,
    pub timeout_ms: u64,
    pub body: Json,
}

/// A timeout of one second at least.
pub open spec fn timeout_of(timeout_ms: u64) -> u64 {
    if timeout_ms < 1000 {
        1000
    } else {
        timeout_ms
    }
}

pub fn request_timeout(timeout_ms: u64) -> (r: u64)
    ensures
        r == timeout_of(timeout_ms),
{
    if timeout_ms < 1000 {
        1000
    } else {
        timeout_ms
    }
}

/// The form that a backend speaks.
pub open spec fn dialect_of(backend: Seq<char>) -> Dialect {
    if backend == "anthropic"@ {
        Dialect::Anthropic
    } else {
        Dialect::OpenAi
    }
}

/// The path of a request below the base address.
pub open spec fn path_of(dialect: Dialect) -> Seq<char> {
    match dialect {
        Dialect::OpenAi => "chat/completions"@,
        Dialect::Anthropic => "v1/messages"@,
    }
}

/// Whether a rewrite is asked for at all.
pub open spec fn wants_polish(args: PolishArgs) -> bool {
    args.backend@ != "off"@ && words::trim(args.text@).len() > 0
}

/// `q` is the request for a rewrite.
pub open spec fn is_request(q: ChatRequest, args: PolishArgs) -> bool {
    let system = system_text(args.preset@, args.custom_prompt@);
    &&& q.dialect == dialect_of(args.backend@)
    &&& q.url@ == joined_url(args.base_url@, path_of(q.dialect))
    &&& q.key@ == words::trim(args.api_key@)
    &&& q.timeout_ms == timeout_of(args.timeout_ms)
    &&& q.body.tree() == (match q.dialect {
        Dialect::OpenAi => openai_tree(args.model@, system, args.text@, args.temperature),
        Dialect::Anthropic => anthropic_tree(args.model@, system, args.text@, args.temperature),
    })
}

/// The request for a rewrite; none where the backend is off or the text blank.
pub fn plan_polish(args: &PolishArgs) -> (r: Option<ChatRequest>)
    ensures
        r is Some <==> wants_polish(*args),
        r matches Some(q) ==> is_request(q, *args),
{
    let t = trimmed(args.text);
    if str_eq(args.backend, "off") || t.as_str().is_empty() {
        return None;
    }
    let system = system_prompt(args.preset, args.custom_prompt);
    let key = trimmed(args.api_key);
    let timeout_ms = request_timeout(args.timeout_ms);
    if str_eq(args.backend, "anthropic") {
        Some(
            ChatRequest {
                dialect: Dialect::Anthropic,
                url: join_url(args.base_url, "v1/messages"),
                key,
                timeout_ms,
                body: anthropic_body(args.model, system.as_str(), args.text, args.temperature),
            },
        )
    } else {
        Some(
            ChatRequest {
                dialect: Dialect::OpenAi,
                url: join_url(args.base_url, "chat/completions"),
                key,
                timeout_ms,
                body: openai_chat_body(args.model, system.as_str(), args.text, args.temperature),
            },
        )
    }
}

/// The text of a reply.
pub open spec fn reply_text(dialect: Dialect, v: Tree) -> Option<Seq<char>> {
    match dialect {
        Dialect::OpenAi => openai_reply(v),
        Dialect::Anthropic => anthropic_reply(v),
    }
}

/// The polished text of a reply, or none, so that the caller keeps the text of
/// the rules. A request that failed has no reply.
pub fn polish(args: &PolishArgs, reply: Option<Json>) -> (r: Option<String>)
    ensures
        opt_text(r) == (if wants_polish(*args) && reply is Some {
            reply_text(dialect_of(args.backend@), reply->0.tree())
        } else {
            None
        }),
{
    let t = trimmed(args.text);
    if str_eq(args.backend, "off") || t.as_str().is_empty() {
        return None;
    }
    match reply {
        Some(v) => if str_eq(args.backend, "anthropic") {
            extract_anthropic_text(&v)
        } else {
            extract_openai_text(&v)
        },
        None => None,
    }
}

/// The text of a reply is trimmed, with something in it.
pub proof fn lemma_reply_is_trimmed(dialect: Dialect, v: Tree)
    ensures
        reply_text(dialect, v) matches Some(s) ==> s.len() > 0 && words::trim(s) == s,
{
    match dialect {
        Dialect::OpenAi => {
            let t = v.field("choices"@).item(0).field("message"@).field("content"@).text();
            if t is Some {
                words::lemma_without_ends(t->0, Class::White);
            }
        },
        Dialect::Anthropic => {
            if let Tree::List(blocks) = v.field("content"@) {
                let t = first_block_text(blocks, 0);
                if t is Some {
                    words::lemma_without_ends(t->0, Class::White);
                }
            }
        },
    }
}

/// The request that tests a backend: the word `ping` with the clean prompt.
pub fn ping_llm<'a>(
    backend: &'a str,
    base_url: &'a str,
    api_key: &'a str,
    model: &'a str,
    timeout_ms: u64,
) -> (r: PolishArgs<'a>)
    ensures
        r.backend@ == backend@,
        r.base_url@ == base_url@,
        r.api_key@ == api_key@,
        r.model@ == model@,
        r.preset@ == "clean"@,
        r.custom_prompt@ == ""@,
        r.temperature == 0,
        r.timeout_ms == timeout_ms,
        r.text@ == "ping"@,
{
    PolishArgs {
        backend,
        base_url,
        api_key,
        model,
        preset: "clean",
        custom_prompt: "",
        temperature: 0,
        timeout_ms,
        text: "ping",
    }
}

/// What the user is told about a test of the backend.
pub fn ping_outcome(polished: Option<String>) -> (r: Result<&'static str, &'static str>)
    ensures
        match r {
            Ok(s) => polished is Some && s@ == "LLM responded"@,
            Err(e) => polished is None && e@ == "LLM returned empty"@,
        },
{
    match polished {
        Some(_) => Ok("LLM responded"),
        None => Err("LLM returned empty"),
    }
}

} // verus!
