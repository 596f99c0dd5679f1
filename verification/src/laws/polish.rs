//! Requests to language models and audio hosts, and their replies.

use crate::chars;
use crate::json;
use crate::json::Tree;
use crate::laws::texts;
use crate::polish;
use crate::polish::{AudioRequest, ChatRequest, Dialect, PolishArgs, Secrets};
use crate::prompts;
use crate::words;
use crate::words::Class;
use vstd::prelude::*;
use vstd::string::*;

verus! {

/// A message of a chat says who speaks and what.
pub open spec fn says(m: Tree, role: Seq<char>, content: Seq<char>) -> bool {
    m.field("role"@) == Tree::Text(role) && m.field("content"@) == Tree::Text(content)
}

/// The messages of a request.
pub open spec fn messages(body: Tree) -> Seq<Tree> {
    match body.field("messages"@) {
        Tree::List(v) => v,
        _ => Seq::empty(),
    }
}

proof fn lemma_names()
    ensures
        "role"@ != "content"@,
        "model"@ != "messages"@ && "model"@ != "system"@ && "model"@ != "temperature"@ && "model"@
            != "max_tokens"@,
        "messages"@ != "system"@ && "messages"@ != "temperature"@ && "messages"@ != "max_tokens"@,
        "system"@ != "temperature"@ && "system"@ != "max_tokens"@,
        "temperature"@ != "max_tokens"@,
        "system"@ != "user"@,
{
    reveal_strlit("role");
    reveal_strlit("content");
    reveal_strlit("model");
    reveal_strlit("messages");
    reveal_strlit("system");
    reveal_strlit("temperature");
    reveal_strlit("max_tokens");
    reveal_strlit("user");
    assert("role"@.len() == 4 && "content"@.len() == 7 && "model"@.len() == 5 && "messages"@.len()
        == 8 && "system"@.len() == 6 && "temperature"@.len() == 11 && "max_tokens"@.len() == 10
        && "user"@.len() == 4);
}

proof fn lemma_message(role: Seq<char>, content: Seq<char>)
    ensures
        says(polish::message_tree(role, content), role, content),
{
    lemma_names();
    reveal_with_fuel(json::field_from, 3);
}

/// Whatever the backend, the last message of a request comes from the user and holds
/// the text to rewrite as it stands, and the model and the temperature are those that
/// were asked for. The system prompt stands in the system message of the OpenAI form,
/// before the text, or in the system field of the Anthropic form, and nowhere else.
pub proof fn lemma_request_holds_the_text(q: ChatRequest, args: PolishArgs)
    requires
        polish::is_request(q, args),
    ensures
        ({
            let body = q.body.tree();
            let m = messages(body);
            let prompt = polish::system_text(args.preset@, args.custom_prompt@);
            &&& m.len() > 0
            &&& says(m.last(), "user"@, args.text@)
            &&& body.field("model"@) == Tree::Text(args.model@)
            &&& body.field("temperature"@) == Tree::Single(args.temperature)
            &&& args.backend@ == "anthropic"@ ==> {
                &&& m.len() == 1
                &&& body.field("system"@) == Tree::Text(prompt)
                &&& body.field("max_tokens"@) == Tree::Int(1024)
            }
            &&& args.backend@ != "anthropic"@ ==> {
                &&& m.len() == 2
                &&& says(m[0], "system"@, prompt)
                &&& body.field("system"@) == Tree::Null
            }
        }),
{
    lemma_names();
    reveal_with_fuel(json::field_from, 6);
    let prompt = polish::system_text(args.preset@, args.custom_prompt@);
    lemma_message("user"@, args.text@);
    lemma_message("system"@, prompt);
}

/// The same of the two bodies by themselves.
pub proof fn lemma_bodies(
    model: Seq<char>,
    system: Seq<char>,
    user: Seq<char>,
    temperature: u32,
)
    ensures
        ({
            let a = polish::anthropic_tree(model, system, user, temperature);
            let o = polish::openai_tree(model, system, user, temperature);
            &&& messages(a).len() == 1 && says(messages(a)[0], "user"@, user)
            &&& a.field("system"@) == Tree::Text(system)
            &&& a.field("max_tokens"@) == Tree::Int(1024)
            &&& a.field("model"@) == Tree::Text(model) && o.field("model"@) == Tree::Text(model)
            &&& a.field("temperature"@) == Tree::Single(temperature) && o.field("temperature"@)
                == Tree::Single(temperature)
            &&& messages(o).len() == 2 && says(messages(o)[0], "system"@, system) && says(
                messages(o)[1],
                "user"@,
                user,
            )
            &&& o.field("system"@) == Tree::Null && o.field("max_tokens"@) == Tree::Null
        }),
{
    lemma_names();
    reveal_with_fuel(json::field_from, 6);
    lemma_message("user"@, user);
    lemma_message("system"@, system);
}

/// A value is found under its name where no value before it has the name, and nothing
/// is found under a name that is not there.
pub proof fn lemma_field(v: Seq<(Seq<char>, Tree)>, i: int, name: Seq<char>)
    requires
        0 <= i <= v.len(),
        forall|k: int| 0 <= k < i ==> (#[trigger] v[k]).0 != name,
    ensures
        i < v.len() && v[i].0 == name ==> Tree::Object(v).field(name) == v[i].1,
        i == v.len() ==> Tree::Object(v).field(name) == Tree::Null,
{
    lemma_field_walk(v, 0, i, name);
}

proof fn lemma_field_walk(v: Seq<(Seq<char>, Tree)>, from: int, i: int, name: Seq<char>)
    requires
        0 <= from <= i <= v.len(),
        forall|k: int| 0 <= k < i ==> (#[trigger] v[k]).0 != name,
    ensures
        json::field_from(v, name, from) == json::field_from(v, name, i),
    decreases i - from,
{
    if from < i {
        assert(v[from].0 != name);
        lemma_field_walk(v, from + 1, i, name);
    }
}

/// A request goes to the host that speaks the form of the backend, below the base
/// address, with the key that was given and one second of patience at least.
pub proof fn lemma_request_address(q: ChatRequest, args: PolishArgs)
    requires
        polish::is_request(q, args),
    ensures
        q.dialect == Dialect::Anthropic <==> args.backend@ == "anthropic"@,
        q.url@ == polish::joined_url(
            args.base_url@,
            if args.backend@ == "anthropic"@ {
                "v1/messages"@
            } else {
                "chat/completions"@
            },
        ),
        q.key@ == words::trim(args.api_key@),
        q.timeout_ms >= 1000,
        args.timeout_ms >= 1000 ==> q.timeout_ms == args.timeout_ms,
        args.timeout_ms < 1000 ==> q.timeout_ms == 1000,
{
}

/// A rewrite is asked for exactly where the backend is not off and the text holds
/// something.
pub proof fn lemma_polish_wanted(args: PolishArgs)
    ensures
        polish::wants_polish(args) <==> args.backend@ != "off"@ && exists|i: int|
            0 <= i < args.text@.len() && !chars::is_white(#[trigger] args.text@[i]),
{
    texts::lemma_blank(args.text@);
}

/// The base address and the path are joined by one slash, whatever slashes and white
/// space stand between them; a base that ends in the path already is taken as it is.
pub proof fn lemma_url(
    base: Seq<char>,
    slashes: Seq<char>,
    more: Seq<char>,
    path: Seq<char>,
)
    requires
        texts::is_core(base, Class::White),
        base.last() != '/',
        texts::all_in(slashes, Class::Only('/')),
        texts::all_in(more, Class::Only('/')),
        texts::is_core(path, Class::White),
        path[0] != '/',
    ensures
        polish::joined_url(base + slashes, more + path) == (if words::ends_with(base, path) {
            base
        } else {
            base + seq!['/'] + path
        }),
{
    reveal_strlit("/");
    assert("/"@ =~= seq!['/']);
    let b = base + slashes;
    let p = more + path;
    assert(!chars::is_white(b.last()) && !chars::is_white(p[0])) by {
        if slashes.len() > 0 {
            assert(texts::in_class(slashes.last(), Class::Only('/')));
        }
        if more.len() > 0 {
            assert(texts::in_class(more[0], Class::Only('/')));
        }
    }
    assert(b[0] == base[0] && p.last() == path.last());
    words::lemma_trimmed(b);
    words::lemma_trimmed(p);
    texts::lemma_end_trimmed(base, slashes, Class::Only('/'));
    texts::lemma_start_trimmed(more, path, Class::Only('/'));
}

/// Each backend has its own address, and one that is off has none.
pub proof fn lemma_base_addresses()
    ensures
        polish::base_of("local"@) == "http://127.0.0.1:11434/v1"@,
        polish::base_of("anthropic"@) == "https://api.anthropic.com"@,
        polish::base_of("openai_compat"@) == "https://api.openai.com/v1"@,
        polish::base_of("off"@).len() == 0,
{
    reveal_strlit("local");
    reveal_strlit("anthropic");
    reveal_strlit("openai_compat");
    reveal_strlit("off");
    reveal_strlit("");
    assert("local"@.len() == 5 && "anthropic"@.len() == 9 && "openai_compat"@.len() == 13
        && "off"@.len() == 3);
}

/// The reply of an OpenAI-style answer is the content of the message of its first
/// choice, trimmed; a blank one is none.
pub proof fn lemma_openai_reply(
    answer: Seq<(Seq<char>, Tree)>,
    first: Tree,
    others: Seq<Tree>,
    p: Seq<char>,
    s: Seq<char>,
    q: Seq<char>,
)
    requires
        Tree::Object(answer).field("choices"@) == Tree::List(seq![first] + others),
        first.field("message"@).field("content"@) == Tree::Text(p + s + q),
        texts::all_in(p, Class::White),
        texts::all_in(q, Class::White),
    ensures
        texts::is_core(s, Class::White) ==> polish::openai_reply(Tree::Object(answer)) == Some(s),
        s.len() == 0 ==> polish::openai_reply(Tree::Object(answer)) is None,
{
    let list = seq![first] + others;
    assert(list[0] == first);
    if s.len() == 0 {
        assert forall|i: int| 0 <= i < (p + s + q).len() implies texts::in_class(
            #[trigger] (p + s + q)[i],
            Class::White,
        ) by {
            if i < p.len() {
                assert(texts::in_class(p[i], Class::White));
            } else {
                assert(texts::in_class(q[i - p.len()], Class::White));
            }
        }
        texts::lemma_trim_takes_all(p + s + q, Class::White);
    } else if texts::is_core(s, Class::White) {
        texts::lemma_trim_keeps_core(p, s, q, Class::White);
    }
}

/// The reply of an Anthropic-style answer is the text of the first block that has
/// one, trimmed.
pub proof fn lemma_anthropic_reply(
    answer: Seq<(Seq<char>, Tree)>,
    blocks: Seq<Tree>,
    i: int,
    p: Seq<char>,
    s: Seq<char>,
    q: Seq<char>,
)
    requires
        Tree::Object(answer).field("content"@) == Tree::List(blocks),
        0 <= i < blocks.len(),
        forall|k: int| 0 <= k < i ==> !((#[trigger] blocks[k]).field("text"@) is Text),
        blocks[i].field("text"@) == Tree::Text(p + s + q),
        texts::all_in(p, Class::White),
        texts::is_core(s, Class::White),
        texts::all_in(q, Class::White),
    ensures
        polish::anthropic_reply(Tree::Object(answer)) == Some(s),
{
    lemma_blocks_walk(blocks, 0, i);
    texts::lemma_trim_keeps_core(p, s, q, Class::White);
}

proof fn lemma_blocks_walk(blocks: Seq<Tree>, from: int, i: int)
    requires
        0 <= from <= i <= blocks.len(),
        forall|k: int| 0 <= k < i ==> !((#[trigger] blocks[k]).field("text"@) is Text),
    ensures
        polish::first_block_text(blocks, from) == polish::first_block_text(blocks, i),
    decreases i - from,
{
    if from < i {
        assert(!(blocks[from].field("text"@) is Text));
        lemma_blocks_walk(blocks, from + 1, i);
    }
}

/// The transcript of an audio answer is its text, trimmed.
pub proof fn lemma_audio_reply(
    answer: Seq<(Seq<char>, Tree)>,
    p: Seq<char>,
    s: Seq<char>,
    q: Seq<char>,
)
    requires
        Tree::Object(answer).field("text"@) == Tree::Text(p + s + q),
        texts::all_in(p, Class::White),
        texts::is_core(s, Class::White),
        texts::all_in(q, Class::White),
    ensures
        polish::audio_reply(Tree::Object(answer)) == Some(s),
{
    texts::lemma_trim_keeps_core(p, s, q, Class::White);
}

/// An answer that is no object, or that holds no text where the text belongs, has no
/// reply: the text of the rules is kept.
pub proof fn lemma_no_reply(v: Tree)
    ensures
        !(v is Object) ==> polish::openai_reply(v) is None && polish::anthropic_reply(v) is None
            && polish::audio_reply(v) is None,
        !(v.field("choices"@) is List) ==> polish::openai_reply(v) is None,
        !(v.field("content"@) is List) ==> polish::anthropic_reply(v) is None,
        !(v.field("text"@) is Text) ==> polish::audio_reply(v) is None,
{
}

/// The reply is read in the form in which the request was sent.
pub proof fn lemma_reply_form(backend: Seq<char>, v: Tree)
    ensures
        polish::reply_text(polish::dialect_of(backend), v) == (if backend == "anthropic"@ {
            polish::anthropic_reply(v)
        } else {
            polish::openai_reply(v)
        }),
{
}

/// The user's own prompt is used for the preset `custom` where it is not blank, and
/// only there; the prompts of the presets are those of the catalog.
pub proof fn lemma_system_prompt(preset: Seq<char>, p: Seq<char>, own: Seq<char>, q: Seq<char>)
    requires
        texts::all_in(p, Class::White),
        texts::is_core(own, Class::White),
        texts::all_in(q, Class::White),
    ensures
        polish::system_text("custom"@, p + own + q) == own,
        polish::system_text("custom"@, p) == prompts::CLEAN@,
        preset == "professional"@ ==> polish::system_text(preset, own) == prompts::PROFESSIONAL@,
        preset == "casual"@ ==> polish::system_text(preset, own) == prompts::CASUAL@,
        preset == "message"@ ==> polish::system_text(preset, own) == prompts::MESSAGE@,
        preset == "bullets"@ ==> polish::system_text(preset, own) == prompts::BULLETS@,
        preset != "custom"@ && preset != "professional"@ && preset != "casual"@ && preset
            != "message"@ && preset != "bullets"@ ==> polish::system_text(preset, own)
            == prompts::CLEAN@,
{
    reveal_strlit("custom");
    reveal_strlit("professional");
    reveal_strlit("casual");
    reveal_strlit("message");
    reveal_strlit("bullets");
    assert("custom"@.len() == 6 && "custom"@[1] == 'u' && "casual"@[1] == 'a' && "professional"@
        .len() == 12 && "message"@.len() == 7 && "message"@[0] == 'm' && "bullets"@[0] == 'b'
        && "bullets"@.len() == 7 && "casual"@.len() == 6);
    texts::lemma_trim_keeps_core(p, own, q, Class::White);
    texts::lemma_trim_takes_all(p, Class::White);
}

/// A key is stored trimmed, and a blank one is not stored.
pub proof fn lemma_stored_key(p: Seq<char>, key: Seq<char>, q: Seq<char>)
    requires
        texts::all_in(p, Class::White),
        texts::is_core(key, Class::White),
        texts::all_in(q, Class::White),
    ensures
        polish::key_to_write(p + key + q) == Some(key),
        polish::key_to_write(p) is None,
{
    texts::lemma_trim_keeps_core(p, key, q, Class::White);
    texts::lemma_trim_takes_all(p, Class::White);
}

/// A key in a leftover file is copied where the store holds none, and never over one
/// that is there.
pub proof fn lemma_key_migration(held: String, in_file: Seq<char>)
    ensures
        polish::key_to_migrate(None, in_file) == polish::key_to_write(in_file),
        held@.len() == 0 ==> polish::key_to_migrate(Some(held), in_file) == polish::key_to_write(
            in_file,
        ),
        held@.len() > 0 ==> polish::key_to_migrate(Some(held), in_file) is None,
{
}

/// An edit takes a key that was typed, trimmed; a blank entry, a masked one and no
/// entry at all keep the key that was there.
pub proof fn lemma_edited_key(before: Seq<char>, typed: String)
    ensures
        polish::edited_key(before, None) == before,
        typed@.contains('…') ==> polish::edited_key(before, Some(typed)) == before,
        texts::all_in(typed@, Class::White) ==> polish::edited_key(before, Some(typed)) == before,
        !typed@.contains('…') && !texts::all_in(typed@, Class::White) ==> polish::edited_key(
            before,
            Some(typed),
        ) == words::trim(typed@),
{
    if texts::all_in(typed@, Class::White) {
        texts::lemma_trim_takes_all(typed@, Class::White);
    } else {
        texts::lemma_blank(typed@);
        let i = choose|i: int|
            0 <= i < typed@.len() && !texts::in_class(#[trigger] typed@[i], Class::White);
        assert(!chars::is_white(typed@[i]));
    }
}

/// Whether each character of a text is one byte.
pub open spec fn is_ascii(s: Seq<char>) -> bool {
    forall|i: int| 0 <= i < s.len() ==> (#[trigger] s[i] as u32) < 0x80
}

proof fn lemma_ascii_bytes(s: Seq<char>, n: int)
    requires
        is_ascii(s),
        n <= s.len(),
    ensures
        chars::byte_len(s) == s.len(),
        n >= 0 ==> chars::chars_before(s, n) == n,
    decreases s.len(),
{
    if s.len() > 0 {
        let rest = s.drop_first();
        assert forall|i: int| 0 <= i < rest.len() implies (#[trigger] rest[i] as u32) < 0x80 by {
            assert(rest[i] == s[i + 1]);
        }
        assert((s[0] as u32) < 0x80);
        lemma_ascii_bytes(rest, n - 1);
    }
}

/// A key is shown by its first four and its last four characters; one of up to eight
/// shows nothing of itself, and no key shows as nothing.
pub proof fn lemma_masked(p: Seq<char>, key: Seq<char>, q: Seq<char>)
    requires
        texts::all_in(p, Class::White),
        texts::is_core(key, Class::White),
        texts::all_in(q, Class::White),
        is_ascii(key),
    ensures
        key.len() <= 8 ==> polish::masked(p + key + q) == seq!['•', '•', '•', '•'],
        key.len() > 8 ==> polish::masked(p + key + q) == key.take(4) + seq!['…'] + key.skip(
            key.len() - 4,
        ),
        polish::masked(p).len() == 0,
{
    texts::lemma_trim_keeps_core(p, key, q, Class::White);
    texts::lemma_trim_takes_all(p, Class::White);
    lemma_ascii_bytes(key, key.len() as int);
    if key.len() > 8 {
        lemma_ascii_bytes(key, 4);
        lemma_ascii_bytes(key, key.len() - 4);
    }
    reveal_strlit("••••");
    reveal_strlit("…");
    assert("••••"@ =~= seq!['•', '•', '•', '•']);
    assert("…"@ =~= seq!['…']);
}

/// A request has a second at least, and as long as it is given.
pub proof fn lemma_timeout(ms: u64)
    ensures
        polish::timeout_of(ms) >= 1_000,
        polish::timeout_of(ms) >= ms,
        polish::timeout_of(ms) == 1_000 || polish::timeout_of(ms) == ms,
{
}

/// A transcript is asked for below the address of the host, with the key trimmed.
pub proof fn lemma_audio_request(
    base: &str,
    key: &str,
    model: &str,
    ms: u64,
    p: Seq<char>,
    k: Seq<char>,
    q: Seq<char>,
    r: AudioRequest,
)
    requires
        call_ensures(crate::polish::plan_transcription, (base, key, model, ms), r),
        key@ == p + k + q,
        texts::all_in(p, Class::White),
        texts::is_core(k, Class::White),
        texts::all_in(q, Class::White),
    ensures
        r.url@ == polish::joined_url(base@, "audio/transcriptions"@),
        r.key@ == k,
        r.model@ == model@,
        r.timeout_ms >= 1_000 && r.timeout_ms >= ms,
{
    texts::lemma_trim_keeps_core(p, k, q, Class::White);
}

/// A backend is tested with the word `ping`, its own address, key and model.
pub proof fn lemma_ping(
    backend: &str,
    base: &str,
    key: &str,
    model: &str,
    ms: u64,
    r: PolishArgs,
)
    requires
        call_ensures(crate::polish::ping_llm, (backend, base, key, model, ms), r),
    ensures
        r.text@ == "ping"@,
        r.backend@ == backend@ && r.base_url@ == base@ && r.api_key@ == key@ && r.model@ == model@,
        r.preset@ == "clean"@,
        r.custom_prompt@.len() == 0,
        r.timeout_ms == ms,
        r.temperature == 0,
        backend@ != "off"@ ==> polish::wants_polish(r),
{
    reveal_strlit("");
    reveal_strlit("ping");
    let none = Seq::<char>::empty();
    assert("ping"@.len() == 4 && "ping"@[0] == 'p' && "ping"@[3] == 'g');
    texts::lemma_trim_keeps_core(none, "ping"@, none, Class::White);
    assert(none + "ping"@ + none =~= "ping"@);
}

/// A backend that replied is there.
pub proof fn lemma_ping_outcome(polished: Option<String>, r: Result<&'static str, &'static str>)
    requires
        call_ensures(crate::polish::ping_outcome, (polished,), r),
    ensures
        r is Ok <==> polished is Some,
        r matches Ok(s) ==> s@ == "LLM responded"@,
        r matches Err(e) ==> e@ == "LLM returned empty"@,
{
}

/// The two keys are never taken for each other.
pub proof fn lemma_keys_apart(
    s: &Secrets,
    audio: Option<String>,
    llm: Option<String>,
    loaded: Secrets,
    edited: Secrets,
    saved: (Option<String>, Option<String>),
)
    requires
        call_ensures(crate::polish::load_secrets, (audio, llm), loaded),
        call_ensures(crate::polish::set_provider_secrets, (s, audio, llm), edited),
        call_ensures(crate::polish::save_secrets, (s,), saved),
    ensures
        loaded.audio_api_key@ == polish::stored(audio) && loaded.llm_api_key@ == polish::stored(llm),
        edited.audio_api_key@ == polish::edited_key(s.audio_api_key@, audio),
        edited.llm_api_key@ == polish::edited_key(s.llm_api_key@, llm),
        audio is None ==> edited.audio_api_key@ == s.audio_api_key@,
        llm is None ==> edited.llm_api_key@ == s.llm_api_key@,
        audio is None ==> loaded.audio_api_key@.len() == 0,
        llm is None ==> loaded.llm_api_key@.len() == 0,
        polish::opt_text(saved.0) == polish::key_to_write(s.audio_api_key@),
        polish::opt_text(saved.1) == polish::key_to_write(s.llm_api_key@),
{
}

/// The presets that have a prompt, each with its own.
pub proof fn lemma_prompt_rows()
    ensures
        ({
            let rows = polish::prompt_rows();
            &&& rows.len() == 5
            &&& rows[0].0@ == "clean"@ && rows[0].1@ == prompts::CLEAN@
            &&& rows[1].0@ == "professional"@ && rows[1].1@ == prompts::PROFESSIONAL@
            &&& rows[2].0@ == "casual"@ && rows[2].1@ == prompts::CASUAL@
            &&& rows[3].0@ == "message"@ && rows[3].1@ == prompts::MESSAGE@
            &&& rows[4].0@ == "bullets"@ && rows[4].1@ == prompts::BULLETS@
        }),
{
}

} // verus!
