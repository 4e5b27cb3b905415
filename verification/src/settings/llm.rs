//! LLM call settings: the entity, its updates, its masked token, and its `llm.rci` file.
use vstd::prelude::*;
use crate::codes::{LlmProvider, provider_code, provider_of_code};
use crate::settings::kv::{lemma_filter_map_keeps, bool_str, bool_text, joined, join_strs, kv_line, kv_text, list_items, non_empty, non_empty_string, opt_str, split_list, split_once, split_once_str, text_or_empty};
use crate::text::{chars_of, dec, eq_ignore_ascii_case, key_upper, lower_seq, parse_u32, parse_u32_spec, parse_u64, parse_u64_spec, push_all, str_eq, string_from_range, trim, trim_str, u32_to_dec, u64_to_dec, upper_key, upper_seq, views};
use crate::settings::llm_laws::{float_bits_of, lemma_llm_file_round_trip, llm_texts_writable, llm_writable};
use crate::time::{UtcTime, four_digit_instant, instant_reads_back, instant_string, instant_text, format_rfc3339, parse_rfc3339, rfc3339_parse, rfc3339_text, utc_now};

verus! {

// ---------------------------------------------------------------------------
// The entity and its view
// ---------------------------------------------------------------------------

/// Configuration for outbound LLM calls.
///
/// The sampling parameters that are `f32` values are held as their bit
/// patterns (`f32::to_bits`).
#[derive(Clone, Debug)]
pub struct InfoLlmEntity {
    /// Target provider.
    pub provider: LlmProvider,
    /// Optional base URL override per provider.
    pub base_url: Option<String>,
    /// Secret token or API key.
    pub token: Option<String>,
    /// Model identifier (e.g., gpt-4o, gemini-1.5-pro-latest, grok-1).
    pub model: Option<String>,
    /// Hard limit on response tokens.
    pub max_output_tokens: Option<u32>,
    /// Temperature for sampling (0-2), as `f32` bits.
    pub temperature_bits: Option<u32>,
    /// Nucleus sampling probability, as `f32` bits.
    pub top_p_bits: Option<u32>,
    /// Top-k sampling (Gemini).
    pub top_k: Option<u32>,
    /// Penalize repetition (OpenAI/Grok), as `f32` bits.
    pub presence_penalty_bits: Option<u32>,
    /// Penalize frequency (OpenAI/Grok), as `f32` bits.
    pub frequency_penalty_bits: Option<u32>,
    /// Request timeout in milliseconds.
    pub timeout_ms: Option<u64>,
    /// Stream responses if supported.
    pub stream: bool,
    /// Stop sequences to end generation.
    pub stop_sequences: Option<Vec<String>>,
    /// Optional org/project identifier (OpenAI/Grok).
    pub organization: Option<String>,
    /// Optional user identifier to attribute requests.
    pub user: Option<String>,
    /// Configuration creation time.
    pub created_at: UtcTime,
    /// Last update time.
    pub updated_at: UtcTime,
    /// Version identifier for the configuration format.
    pub version: String,
}

/// A partial update of the LLM settings: every present field is applied.
#[derive(Clone, Debug)]
pub struct InfoLlmUpsertRequest {
    pub provider: Option<LlmProvider>,
    pub base_url: Option<String>,
    pub token: Option<String>,
    pub model: Option<String>,
    pub max_output_tokens: Option<u32>,
    pub temperature_bits: Option<u32>,
    pub top_p_bits: Option<u32>,
    pub top_k: Option<u32>,
    pub presence_penalty_bits: Option<u32>,
    pub frequency_penalty_bits: Option<u32>,
    pub timeout_ms: Option<u64>,
    pub stream: Option<bool>,
    pub stop_sequences: Option<Vec<String>>,
    pub organization: Option<String>,
    pub user: Option<String>,
}

/// The LLM settings as values.
pub struct InfoLlmView {
    pub provider: LlmProvider,
    pub base_url: Option<Seq<char>>,
    pub token: Option<Seq<char>>,
    pub model: Option<Seq<char>>,
    pub max_output_tokens: Option<u32>,
    pub temperature_bits: Option<u32>,
    pub top_p_bits: Option<u32>,
    pub top_k: Option<u32>,
    pub presence_penalty_bits: Option<u32>,
    pub frequency_penalty_bits: Option<u32>,
    pub timeout_ms: Option<u64>,
    pub stream: bool,
    pub stop_sequences: Option<Seq<Seq<char>>>,
    pub organization: Option<Seq<char>>,
    pub user: Option<Seq<char>>,
    pub created_at: UtcTime,
    pub updated_at: UtcTime,
    pub version: Seq<char>,
}

/// An update request as values.
pub struct LlmUpsertView {
    pub provider: Option<LlmProvider>,
    pub base_url: Option<Seq<char>>,
    pub token: Option<Seq<char>>,
    pub model: Option<Seq<char>>,
    pub max_output_tokens: Option<u32>,
    pub temperature_bits: Option<u32>,
    pub top_p_bits: Option<u32>,
    pub top_k: Option<u32>,
    pub presence_penalty_bits: Option<u32>,
    pub frequency_penalty_bits: Option<u32>,
    pub timeout_ms: Option<u64>,
    pub stream: Option<bool>,
    pub stop_sequences: Option<Seq<Seq<char>>>,
    pub organization: Option<Seq<char>>,
    pub user: Option<Seq<char>>,
}

/// The view of an optional list of strings.
pub open spec fn opt_list(v: Option<Vec<String>>) -> Option<Seq<Seq<char>>> {
    match v {
        Some(x) => Some(views(x@)),
        None => None,
    }
}

impl View for InfoLlmEntity {
    type V = InfoLlmView;

    open spec fn view(&self) -> InfoLlmView {
        InfoLlmView {
            provider: self.provider,
            base_url: opt_str(self.base_url),
            token: opt_str(self.token),
            model: opt_str(self.model),
            max_output_tokens: self.max_output_tokens,
            temperature_bits: self.temperature_bits,
            top_p_bits: self.top_p_bits,
            top_k: self.top_k,
            presence_penalty_bits: self.presence_penalty_bits,
            frequency_penalty_bits: self.frequency_penalty_bits,
            timeout_ms: self.timeout_ms,
            stream: self.stream,
            stop_sequences: opt_list(self.stop_sequences),
            organization: opt_str(self.organization),
            user: opt_str(self.user),
            created_at: self.created_at,
            updated_at: self.updated_at,
            version: self.version@,
        }
    }
}

impl View for InfoLlmUpsertRequest {
    type V = LlmUpsertView;

    open spec fn view(&self) -> LlmUpsertView {
        LlmUpsertView {
            provider: self.provider,
            base_url: opt_str(self.base_url),
            token: opt_str(self.token),
            model: opt_str(self.model),
            max_output_tokens: self.max_output_tokens,
            temperature_bits: self.temperature_bits,
            top_p_bits: self.top_p_bits,
            top_k: self.top_k,
            presence_penalty_bits: self.presence_penalty_bits,
            frequency_penalty_bits: self.frequency_penalty_bits,
            timeout_ms: self.timeout_ms,
            stream: self.stream,
            stop_sequences: opt_list(self.stop_sequences),
            organization: opt_str(self.organization),
            user: opt_str(self.user),
        }
    }
}

/// Bit pattern of the `f32` value `0.2`, the default temperature.
pub const DEFAULT_TEMPERATURE_BITS: u32 = 0x3E4C_CCCD;

/// The default settings at `now`: GPT, model `gpt-4o-mini`, 2048 output
/// tokens, temperature 0.2, a 30 s timeout, no streaming, version `1.0.0`.
pub open spec fn default_llm_view(now: UtcTime) -> InfoLlmView {
    InfoLlmView {
        provider: LlmProvider::Gpt,
        base_url: None,
        token: None,
        model: Some("gpt-4o-mini"@),
        max_output_tokens: Some(2048),
        temperature_bits: Some(DEFAULT_TEMPERATURE_BITS),
        top_p_bits: None,
        top_k: None,
        presence_penalty_bits: None,
        frequency_penalty_bits: None,
        timeout_ms: Some(30_000),
        stream: false,
        stop_sequences: None,
        organization: None,
        user: None,
        created_at: now,
        updated_at: now,
        version: "1.0.0"@,
    }
}

impl InfoLlmEntity {
    /// The default settings, created and updated at `now`.
    pub fn default_at(now: UtcTime) -> (e: Self)
        ensures
            e@ == default_llm_view(now),
    {
        InfoLlmEntity {
            provider: LlmProvider::Gpt,
            base_url: None,
            token: None,
            model: Some(String::from_str("gpt-4o-mini")),
            max_output_tokens: Some(2048),
            temperature_bits: Some(DEFAULT_TEMPERATURE_BITS),
            top_p_bits: None,
            top_k: None,
            presence_penalty_bits: None,
            frequency_penalty_bits: None,
            timeout_ms: Some(30_000),
            stream: false,
            stop_sequences: None,
            organization: None,
            user: None,
            created_at: now,
            updated_at: now,
            version: String::from_str("1.0.0"),
        }
    }
}

impl Default for InfoLlmEntity {
    /// The default settings, created and updated now.
    fn default() -> (e: Self)
        ensures
            e@ == default_llm_view(e.created_at),
    {
        Self::default_at(utc_now())
    }
}

// ---------------------------------------------------------------------------
// Updates
// ---------------------------------------------------------------------------

/// A string trimmed, or nothing where it is blank.
pub open spec fn normalized(v: Seq<char>) -> Option<Seq<char>> {
    non_empty(trim(v))
}

/// Trims `v`; a blank string gives `None`.
pub fn normalize_string(v: String) -> (r: Option<String>)
    ensures
        opt_str(r) == normalized(v@),
{
    let t = trim_str(v.as_str());
    non_empty_string(t.as_str())
}

/// The trimmed non-empty items of a list, or nothing where none is left.
pub open spec fn cleaned_list(items: Seq<Seq<char>>) -> Option<Seq<Seq<char>>> {
    let c = items.filter_map(|p: Seq<char>| non_empty(trim(p)));
    if c.len() == 0 { None } else { Some(c) }
}

/// `v.map(|s| s.trim()).filter(|s| !s.is_empty())`, `None` where nothing is left.
pub fn clean_list(v: Vec<String>) -> (r: Option<Vec<String>>)
    ensures
        opt_list(r) == cleaned_list(views(v@)),
{
    let ghost vs = views(v@);
    let mut out: Vec<String> = Vec::new();
    let mut i: usize = 0;
    while i < v.len()
        invariant
            0 <= i <= v@.len(),
            vs == views(v@),
            views(out@) == vs.take(i as int).filter_map(|p: Seq<char>| non_empty(trim(p))),
        decreases v.len() - i,
    {
        assert(vs.take(i + 1).drop_last() == vs.take(i as int));
        assert(vs[i as int] == v@[i as int]@);
        let t = trim_str(v[i].as_str());
        let cs = chars_of(t.as_str());
        if cs.len() > 0 {
            out.push(t);
            assert(views(out@) =~= views(out@.drop_last()) + seq![t@]);
        }
        i = i + 1;
    }
    assert(vs.take(vs.len() as int) == vs);
    if out.len() == 0 {
        None
    } else {
        Some(out)
    }
}

/// `new` where an update gives one, else `old`.
pub open spec fn or_keep<T>(new: Option<T>, old: T) -> T {
    match new {
        Some(v) => v,
        None => old,
    }
}

/// `Some(new)` where an update gives one, else `old`.
pub open spec fn or_keep_opt<T>(new: Option<T>, old: Option<T>) -> Option<T> {
    match new {
        Some(v) => Some(v),
        None => old,
    }
}

/// A normalized string where an update gives one, else `old`.
pub open spec fn or_keep_normalized(new: Option<Seq<char>>, old: Option<Seq<char>>) -> Option<Seq<char>> {
    match new {
        Some(v) => normalized(v),
        None => old,
    }
}

/// The settings after applying `req` at time `now` (`apply_update`).
pub open spec fn llm_updated(old: InfoLlmView, req: LlmUpsertView, now: UtcTime) -> InfoLlmView {
    InfoLlmView {
        provider: or_keep(req.provider, old.provider),
        base_url: or_keep_normalized(req.base_url, old.base_url),
        token: or_keep_normalized(req.token, old.token),
        model: or_keep_normalized(req.model, old.model),
        max_output_tokens: or_keep_opt(req.max_output_tokens, old.max_output_tokens),
        temperature_bits: or_keep_opt(req.temperature_bits, old.temperature_bits),
        top_p_bits: or_keep_opt(req.top_p_bits, old.top_p_bits),
        top_k: or_keep_opt(req.top_k, old.top_k),
        presence_penalty_bits: or_keep_opt(req.presence_penalty_bits, old.presence_penalty_bits),
        frequency_penalty_bits: or_keep_opt(req.frequency_penalty_bits, old.frequency_penalty_bits),
        timeout_ms: or_keep_opt(req.timeout_ms, old.timeout_ms),
        stream: or_keep(req.stream, old.stream),
        stop_sequences: match req.stop_sequences {
            Some(v) => cleaned_list(v),
            None => old.stop_sequences,
        },
        organization: or_keep_normalized(req.organization, old.organization),
        user: or_keep_normalized(req.user, old.user),
        created_at: old.created_at,
        updated_at: now,
        version: old.version,
    }
}

/// `now_value` is what a text setting holding `old_value` holds after an
/// update that carries `req`: the text trimmed, nothing where it is blank,
/// and the old value where the update carries none.
pub open spec fn text_after_update(now_value: Option<Seq<char>>, old_value: Option<Seq<char>>, req: Option<Seq<char>>) -> bool {
    &&& (req matches Some(u) ==> trim(u).len() > 0 ==> now_value == Some(trim(u)))
    &&& (req matches Some(u) ==> trim(u).len() == 0 ==> now_value is None)
    &&& (req is None ==> now_value == old_value)
}

/// `now_value` is what an optional setting holding `old_value` holds after an
/// update that carries `req`: the value carried, else the old one.
pub open spec fn value_after_update<T>(now_value: Option<T>, old_value: Option<T>, req: Option<T>) -> bool {
    &&& (req matches Some(v) ==> now_value == Some(v))
    &&& (req is None ==> now_value == old_value)
}

/// Blank items are all dropped by the item filter.
proof fn lemma_filter_map_blank(items: Seq<Seq<char>>)
    requires
        forall|i: int| 0 <= i < items.len() ==> trim(#[trigger] items[i]).len() == 0,
    ensures
        items.filter_map(|p: Seq<char>| non_empty(trim(p))).len() == 0,
    decreases items.len(),
{
    if items.len() > 0 {
        let d = items.drop_last();
        assert(forall|i: int| 0 <= i < d.len() ==> d[i] == items[i]);
        lemma_filter_map_blank(d);
        assert(trim(items[items.len() - 1]).len() == 0);
    }
}

/// The items kept by the item filter of `cleaned_list`.
pub open spec fn clean_items(items: Seq<Seq<char>>) -> Seq<Seq<char>> {
    items.filter_map(|p: Seq<char>| non_empty(trim(p)))
}

/// What the item filter keeps is trimmed and not empty.
proof fn lemma_filter_map_clean(items: Seq<Seq<char>>)
    ensures
        forall|k: int| 0 <= k < clean_items(items).len() ==> {
            &&& (#[trigger] clean_items(items)[k]).len() > 0
            &&& exists|i: int| 0 <= i < items.len() && trim(items[i]) == clean_items(items)[k]
        },
    decreases items.len(),
{
    if items.len() > 0 {
        let d = items.drop_last();
        lemma_filter_map_clean(d);
        let fd = clean_items(d);
        let fi = clean_items(items);
        assert forall|k: int| 0 <= k < fi.len() implies {
            &&& (#[trigger] fi[k]).len() > 0
            &&& exists|i: int| 0 <= i < items.len() && trim(items[i]) == fi[k]
        } by {
            if k < fd.len() {
                assert(fi[k] == fd[k]);
                let i = choose|i: int| 0 <= i < d.len() && trim(d[i]) == fd[k];
                assert(items[i] == d[i]);
            } else {
                assert(trim(items[items.len() - 1]) == fi[k]);
            }
        }
    }
}

/// What an update does: a text setting it carries is set trimmed (cleared
/// where blank), a number, flag or provider it carries is set, a list of stop
/// sequences it carries is cleaned (items trimmed, blank ones dropped, nothing
/// left where all are blank, a clean list kept as it is), what it does not
/// carry is kept, the creation time and version are kept, and the update time
/// becomes `now`.
pub proof fn lemma_llm_update_fields(old: InfoLlmView, req: LlmUpsertView, now: UtcTime)
    ensures
        text_after_update(llm_updated(old, req, now).base_url, old.base_url, req.base_url),
        text_after_update(llm_updated(old, req, now).token, old.token, req.token),
        text_after_update(llm_updated(old, req, now).model, old.model, req.model),
        text_after_update(llm_updated(old, req, now).organization, old.organization, req.organization),
        text_after_update(llm_updated(old, req, now).user, old.user, req.user),
        value_after_update(llm_updated(old, req, now).max_output_tokens, old.max_output_tokens, req.max_output_tokens),
        value_after_update(llm_updated(old, req, now).temperature_bits, old.temperature_bits, req.temperature_bits),
        value_after_update(llm_updated(old, req, now).top_p_bits, old.top_p_bits, req.top_p_bits),
        value_after_update(llm_updated(old, req, now).top_k, old.top_k, req.top_k),
        value_after_update(llm_updated(old, req, now).presence_penalty_bits, old.presence_penalty_bits, req.presence_penalty_bits),
        value_after_update(llm_updated(old, req, now).frequency_penalty_bits, old.frequency_penalty_bits, req.frequency_penalty_bits),
        value_after_update(llm_updated(old, req, now).timeout_ms, old.timeout_ms, req.timeout_ms),
        llm_updated(old, req, now).provider == (if let Some(p) = req.provider { p } else { old.provider }),
        llm_updated(old, req, now).stream == (if let Some(b) = req.stream { b } else { old.stream }),
        req.stop_sequences is None ==> llm_updated(old, req, now).stop_sequences == old.stop_sequences,
        req.stop_sequences matches Some(items) ==> items.len() > 0
            ==> (forall|i: int| 0 <= i < items.len() ==> (#[trigger] items[i]).len() > 0 && trim(items[i]) == items[i])
            ==> llm_updated(old, req, now).stop_sequences == Some(items),
        req.stop_sequences matches Some(items)
            ==> (forall|i: int| 0 <= i < items.len() ==> trim(#[trigger] items[i]).len() == 0)
            ==> llm_updated(old, req, now).stop_sequences is None,
        llm_updated(old, req, now).stop_sequences matches Some(c) ==> req.stop_sequences is Some ==>
            forall|k: int| 0 <= k < c.len() ==> (#[trigger] c[k]).len() > 0
                && exists|i: int| 0 <= i < req.stop_sequences.unwrap().len() && trim(req.stop_sequences.unwrap()[i]) == c[k],
        llm_updated(old, req, now).created_at == old.created_at,
        llm_updated(old, req, now).updated_at == now,
        llm_updated(old, req, now).version == old.version,
{
    match req.stop_sequences {
        Some(items) => {
            lemma_filter_map_clean(items);
            assert(items.filter_map(|p: Seq<char>| non_empty(trim(p))) == clean_items(items));
            let c = clean_items(items);
            assert forall|k: int| 0 <= k < c.len() implies (#[trigger] c[k]).len() > 0
                && exists|i: int| 0 <= i < items.len() && trim(items[i]) == c[k] by {
                assert(c[k] == clean_items(items)[k]);
            }
            if forall|i: int| 0 <= i < items.len() ==> trim(#[trigger] items[i]).len() == 0 {
                lemma_filter_map_blank(items);
            }
            if forall|i: int| 0 <= i < items.len() ==> (#[trigger] items[i]).len() > 0 && trim(items[i]) == items[i] {
                lemma_filter_map_keeps(items);
            }
        },
        None => {},
    }
}

/// The update's value where it gives one, else the old value.
fn pick<T: Copy>(new: Option<T>, old: T) -> (r: T)
    ensures
        r == or_keep(new, old),
{
    match new {
        Some(v) => v,
        None => old,
    }
}

/// `Some` of the update's value where it gives one, else the old value.
fn pick_opt<T: Copy>(new: Option<T>, old: Option<T>) -> (r: Option<T>)
    ensures
        r == or_keep_opt(new, old),
{
    match new {
        Some(v) => Some(v),
        None => old,
    }
}

/// The update's string normalized where it gives one, else the old value.
fn pick_normalized(new: Option<String>, old: Option<String>) -> (r: Option<String>)
    ensures
        opt_str(r) == or_keep_normalized(opt_str(new), opt_str(old)),
{
    match new {
        Some(v) => normalize_string(v),
        None => old,
    }
}

/// The update's list cleaned where it gives one, else the old value.
fn pick_list(new: Option<Vec<String>>, old: Option<Vec<String>>) -> (r: Option<Vec<String>>)
    ensures
        opt_list(r) == (match opt_list(new) {
            Some(v) => cleaned_list(v),
            None => opt_list(old),
        }),
{
    match new {
        Some(v) => clean_list(v),
        None => old,
    }
}

impl InfoLlmEntity {
    /// Applies `req`, stamping the update with `now`.
    pub fn apply_update_at(&mut self, req: InfoLlmUpsertRequest, now: UtcTime)
        ensures
            final(self)@ == llm_updated(old(self)@, req@, now),
    {
        self.provider = pick(req.provider, self.provider);
        self.base_url = pick_normalized(req.base_url, self.base_url.take());
        self.token = pick_normalized(req.token, self.token.take());
        self.model = pick_normalized(req.model, self.model.take());
        self.max_output_tokens = pick_opt(req.max_output_tokens, self.max_output_tokens);
        self.temperature_bits = pick_opt(req.temperature_bits, self.temperature_bits);
        self.top_p_bits = pick_opt(req.top_p_bits, self.top_p_bits);
        self.top_k = pick_opt(req.top_k, self.top_k);
        self.presence_penalty_bits = pick_opt(req.presence_penalty_bits, self.presence_penalty_bits);
        self.frequency_penalty_bits = pick_opt(req.frequency_penalty_bits, self.frequency_penalty_bits);
        self.timeout_ms = pick_opt(req.timeout_ms, self.timeout_ms);
        self.stream = pick(req.stream, self.stream);
        self.stop_sequences = pick_list(req.stop_sequences, self.stop_sequences.take());
        self.organization = pick_normalized(req.organization, self.organization.take());
        self.user = pick_normalized(req.user, self.user.take());
        self.updated_at = now;
    }

    /// Applies `req`, stamping the update with the current time.
    pub fn apply_update(&mut self, req: InfoLlmUpsertRequest)
        ensures
            (final(self)@ == llm_updated(old(self)@, req@, final(self).updated_at)),
    {
        self.apply_update_at(req, utc_now());
    }
}

/// Applying an update twice is applying it once (at the later time).
pub proof fn lemma_llm_update_idempotent(e: InfoLlmView, req: LlmUpsertView, t1: UtcTime, t2: UtcTime)
    ensures
        llm_updated(llm_updated(e, req, t1), req, t2) == llm_updated(e, req, t2),
{
}

// ---------------------------------------------------------------------------
// The masked token
// ---------------------------------------------------------------------------

/// Number of bytes of `c` in UTF-8.
pub open spec fn utf8_width(c: char) -> nat {
    if (c as u32) < 0x80 {
        1
    } else if (c as u32) < 0x800 {
        2
    } else if (c as u32) < 0x10000 {
        3
    } else {
        4
    }
}

/// Number of bytes of `s` in UTF-8 (`str::len`).
pub open spec fn byte_len(s: Seq<char>) -> nat
    decreases s.len(),
{
    if s.len() == 0 {
        0
    } else {
        byte_len(s.drop_last()) + utf8_width(s.last())
    }
}

/// The last 4 characters of `t`, or all of it where it has fewer.
pub open spec fn last_four(t: Seq<char>) -> Seq<char> {
    if t.len() >= 4 { t.skip(t.len() - 4) } else { t }
}

/// The masked token: `***` for at most 8 bytes, else `***` and its last 4 characters.
pub open spec fn masked(t: Seq<char>) -> Seq<char> {
    if byte_len(t) <= 8 {
        "***"@
    } else {
        "***"@ + last_four(t)
    }
}

/// A token of at most 8 bytes masks to `***`; a longer one to `***` followed
/// by its last 4 characters (all of it where it has fewer).
pub proof fn lemma_masked_shape(t: Seq<char>)
    ensures
        byte_len(t) <= 8 ==> masked(t) == "***"@,
        byte_len(t) > 8 ==> ({
            let n: int = if t.len() < 4 { t.len() as int } else { 4 };
            &&& masked(t).len() == 3 + n
            &&& masked(t).take(3) == "***"@
            &&& forall|k: int| 0 <= k < n ==> #[trigger] masked(t)[3 + k] == t[t.len() - n + k]
        }),
{
    reveal_strlit("***");
    if byte_len(t) > 8 {
        let n: int = if t.len() < 4 { t.len() as int } else { 4 };
        assert(masked(t).take(3) =~= "***"@);
        assert forall|k: int| 0 <= k < n implies #[trigger] masked(t)[3 + k] == t[t.len() - n + k] by {
            assert(masked(t)[3 + k] == last_four(t)[k]);
        }
    }
}

/// Byte length of a prefix never exceeds that of the whole.
proof fn lemma_byte_len_prefix(s: Seq<char>, i: int)
    requires
        0 <= i <= s.len(),
    ensures
        byte_len(s.take(i)) <= byte_len(s),
    decreases s.len(),
{
    if i < s.len() {
        assert(s.drop_last().take(i) == s.take(i));
        lemma_byte_len_prefix(s.drop_last(), i);
    } else {
        assert(s.take(i) == s);
    }
}

/// UTF-8 width of a character.
fn char_width(c: char) -> (w: usize)
    ensures
        w == utf8_width(c),
{
    let u = c as u32;
    if u < 0x80 {
        1
    } else if u < 0x800 {
        2
    } else if u < 0x10000 {
        3
    } else {
        4
    }
}

/// Whether the characters take at most `limit` bytes.
fn bytes_at_most(cs: &Vec<char>, limit: usize) -> (r: bool)
    requires
        limit <= 64,
    ensures
        r == (byte_len(cs@) <= limit),
{
    let mut sum: usize = 0;
    let mut i: usize = 0;
    while i < cs.len()
        invariant
            0 <= i <= cs@.len(),
            limit <= 64,
            sum == byte_len(cs@.take(i as int)),
            sum <= limit,
        decreases cs.len() - i,
    {
        assert(cs@.take(i + 1).drop_last() == cs@.take(i as int));
        let w = char_width(cs[i]);
        if sum + w > limit {
            proof {
                lemma_byte_len_prefix(cs@, i + 1);
            }
            return false;
        }
        sum = sum + w;
        i = i + 1;
    }
    assert(cs@.take(cs@.len() as int) == cs@);
    true
}

impl InfoLlmEntity {
    /// The token masked for display: `***` for a token of at most 8 bytes,
    /// else `***` followed by its last 4 characters.
    pub fn masked_token(&self) -> (r: Option<String>)
        ensures
            opt_str(r) == (match opt_str(self.token) {
                Some(t) => Some(masked(t)),
                None => None,
            }),
    {
        match &self.token {
            None => None,
            Some(t) => {
                let cs = chars_of(t.as_str());
                if bytes_at_most(&cs, 8) {
                    Some(String::from_str("***"))
                } else {
                    let n = cs.len();
                    let start: usize = if n >= 4 { n - 4 } else { 0 };
                    let mut out = String::from_str("***");
                    let tail = string_from_range(cs.as_slice(), start, n);
                    push_all(&mut out, tail.as_str());
                    assert(cs@.skip(start as int) == cs@.subrange(start as int, n as int));
                    assert(cs@.subrange(0, n as int) == cs@);
                    Some(out)
                }
            },
        }
    }
}

// ---------------------------------------------------------------------------
// Reading `llm.rci`
// ---------------------------------------------------------------------------

/// The text of the last line of each `f32` setting, where the file has one.
#[derive(Clone, Debug)]
pub struct LlmFloatTexts {
    pub temperature: Option<String>,
    pub top_p: Option<String>,
    pub presence_penalty: Option<String>,
    pub frequency_penalty: Option<String>,
}

/// The texts of the `f32` settings as values.
pub struct LlmFloatTextsView {
    pub temperature: Option<Seq<char>>,
    pub top_p: Option<Seq<char>>,
    pub presence_penalty: Option<Seq<char>>,
    pub frequency_penalty: Option<Seq<char>>,
}

impl View for LlmFloatTexts {
    type V = LlmFloatTextsView;

    open spec fn view(&self) -> LlmFloatTextsView {
        LlmFloatTextsView {
            temperature: opt_str(self.temperature),
            top_p: opt_str(self.top_p),
            presence_penalty: opt_str(self.presence_penalty),
            frequency_penalty: opt_str(self.frequency_penalty),
        }
    }
}

/// The `f32` settings as read from their texts (`text.parse::<f32>().ok()`),
/// as bit patterns.
#[derive(Clone, Copy, Debug)]
pub struct LlmFloatBits {
    pub temperature: Option<u32>,
    pub top_p: Option<u32>,
    pub presence_penalty: Option<u32>,
    pub frequency_penalty: Option<u32>,
}

/// No `f32` setting seen yet.
pub open spec fn no_float_texts() -> LlmFloatTextsView {
    LlmFloatTextsView { temperature: None, top_p: None, presence_penalty: None, frequency_penalty: None }
}

/// The texts after one `KEY:value` line.
pub open spec fn assign_float_text(f: LlmFloatTextsView, key: Seq<char>, val: Seq<char>) -> LlmFloatTextsView {
    if key == "TEMPERATURE"@ {
        LlmFloatTextsView { temperature: Some(val), ..f }
    } else if key == "TOP_P"@ {
        LlmFloatTextsView { top_p: Some(val), ..f }
    } else if key == "PRESENCE_PENALTY"@ {
        LlmFloatTextsView { presence_penalty: Some(val), ..f }
    } else if key == "FREQUENCY_PENALTY"@ {
        LlmFloatTextsView { frequency_penalty: Some(val), ..f }
    } else {
        f
    }
}

/// The stop sequences of a comma-separated list, `None` where it has none.
pub open spec fn stop_list(val: Seq<char>) -> Option<Seq<Seq<char>>> {
    let l = list_items(val);
    if l.len() == 0 { None } else { Some(l) }
}

/// `s` after one `KEY:value` line with a numeric, boolean or time key.
pub open spec fn assign_llm_other_key(s: InfoLlmView, key: Seq<char>, val: Seq<char>) -> InfoLlmView {
    if key == "MAX_OUTPUT_TOKENS"@ {
        InfoLlmView { max_output_tokens: parse_u32_spec(val), ..s }
    } else if key == "TOP_K"@ {
        InfoLlmView { top_k: parse_u32_spec(val), ..s }
    } else if key == "TIMEOUT_MS"@ {
        InfoLlmView { timeout_ms: parse_u64_spec(val), ..s }
    } else if key == "STREAM"@ {
        InfoLlmView { stream: lower_seq(val) == lower_seq("true"@), ..s }
    } else if key == "CREATED_AT"@ {
        match rfc3339_parse(val) {
            Some(p) => InfoLlmView { created_at: UtcTime { secs: p.0, nanos: p.1 }, ..s },
            None => s,
        }
    } else if key == "UPDATED_AT"@ {
        match rfc3339_parse(val) {
            Some(p) => InfoLlmView { updated_at: UtcTime { secs: p.0, nanos: p.1 }, ..s },
            None => s,
        }
    } else {
        s
    }
}

/// `s` after one `KEY:value` line (keys already uppercase, values trimmed).
pub open spec fn assign_llm_key(s: InfoLlmView, key: Seq<char>, val: Seq<char>) -> InfoLlmView {
    if key == "PROVIDER"@ {
        match provider_of_code(upper_seq(val)) {
            Some(p) => InfoLlmView { provider: p, ..s },
            None => s,
        }
    } else if key == "BASE_URL"@ {
        InfoLlmView { base_url: non_empty(val), ..s }
    } else if key == "TOKEN"@ {
        InfoLlmView { token: non_empty(val), ..s }
    } else if key == "MODEL"@ {
        InfoLlmView { model: non_empty(val), ..s }
    } else if key == "STOP_SEQUENCES"@ {
        InfoLlmView { stop_sequences: stop_list(val), ..s }
    } else if key == "ORGANIZATION"@ {
        InfoLlmView { organization: non_empty(val), ..s }
    } else if key == "USER"@ {
        InfoLlmView { user: non_empty(val), ..s }
    } else if key == "VERSION"@ {
        InfoLlmView { version: val, ..s }
    } else {
        assign_llm_other_key(s, key, val)
    }
}

/// The settings read so far and the texts of the `f32` settings met so far.
pub type LlmScan = (InfoLlmView, LlmFloatTextsView);

/// One line of the file: `KEY:value` with the key trimmed and uppercased and
/// the value trimmed; lines without `:` change nothing.
pub open spec fn llm_line(st: LlmScan, line: Seq<char>) -> LlmScan {
    match split_once(line, ':') {
        None => st,
        Some(kv) => {
            let key = upper_key(trim(kv.0));
            let val = trim(kv.1);
            (assign_llm_key(st.0, key, val), assign_float_text(st.1, key, val))
        },
    }
}

/// All lines of the file, read from the default settings at `now`.
pub open spec fn llm_scan(lines: Seq<Seq<char>>, now: UtcTime) -> LlmScan
    decreases lines.len(),
{
    if lines.len() == 0 {
        (default_llm_view(now), no_float_texts())
    } else {
        llm_line(llm_scan(lines.drop_last(), now), lines.last())
    }
}

/// The field where the file gave a text for it, else the field as it stands.
pub open spec fn float_field(text: Option<Seq<char>>, parsed: Option<u32>, field: Option<u32>) -> Option<u32> {
    if text is Some { parsed } else { field }
}

/// The settings of the file with `lines` (`read`), read at `now`; `parsed`
/// holds each `f32` setting as read from the text that the file gave for it.
pub open spec fn llm_from_lines(lines: Seq<Seq<char>>, now: UtcTime, parsed: LlmFloatBits) -> InfoLlmView {
    let st = llm_scan(lines, now);
    InfoLlmView {
        temperature_bits: float_field(st.1.temperature, parsed.temperature, st.0.temperature_bits),
        top_p_bits: float_field(st.1.top_p, parsed.top_p, st.0.top_p_bits),
        presence_penalty_bits: float_field(st.1.presence_penalty, parsed.presence_penalty, st.0.presence_penalty_bits),
        frequency_penalty_bits: float_field(st.1.frequency_penalty, parsed.frequency_penalty, st.0.frequency_penalty_bits),
        ..st.0
    }
}

/// The texts of the `f32` settings do not depend on the time of reading.
proof fn lemma_llm_scan_texts(lines: Seq<Seq<char>>, a: UtcTime, b: UtcTime)
    ensures
        llm_scan(lines, a).1 == llm_scan(lines, b).1,
    decreases lines.len(),
{
    if lines.len() > 0 {
        lemma_llm_scan_texts(lines.drop_last(), a, b);
    }
}

/// `f` after one line.
fn assign_float_text_exec(f: &mut LlmFloatTexts, key: &str, val: &String)
    ensures
        final(f)@ == assign_float_text(old(f)@, key@, val@),
{
    if str_eq(key, "TEMPERATURE") {
        f.temperature = Some(val.clone());
    } else if str_eq(key, "TOP_P") {
        f.top_p = Some(val.clone());
    } else if str_eq(key, "PRESENCE_PENALTY") {
        f.presence_penalty = Some(val.clone());
    } else if str_eq(key, "FREQUENCY_PENALTY") {
        f.frequency_penalty = Some(val.clone());
    }
}

/// `s` after one line with a numeric, boolean or time key.
fn assign_llm_other_key_exec(s: &mut InfoLlmEntity, key: &str, val: String)
    ensures
        final(s)@ == assign_llm_other_key(old(s)@, key@, val@),
{
    if str_eq(key, "MAX_OUTPUT_TOKENS") {
        s.max_output_tokens = parse_u32(val.as_str());
    } else if str_eq(key, "TOP_K") {
        s.top_k = parse_u32(val.as_str());
    } else if str_eq(key, "TIMEOUT_MS") {
        s.timeout_ms = parse_u64(val.as_str());
    } else if str_eq(key, "STREAM") {
        s.stream = eq_ignore_ascii_case(val.as_str(), "true");
    } else if str_eq(key, "CREATED_AT") {
        if let Some(t) = parse_rfc3339(val.as_str()) {
            s.created_at = t;
        }
    } else if str_eq(key, "UPDATED_AT") {
        if let Some(t) = parse_rfc3339(val.as_str()) {
            s.updated_at = t;
        }
    }
}

/// The stop sequences of a comma-separated list.
fn stop_list_exec(val: &str) -> (r: Option<Vec<String>>)
    ensures
        opt_list(r) == stop_list(val@),
{
    let l = split_list(val);
    if l.len() == 0 { None } else { Some(l) }
}

/// `s` after one line.
fn assign_llm_key_exec(s: &mut InfoLlmEntity, key: &str, val: String)
    ensures
        final(s)@ == assign_llm_key(old(s)@, key@, val@),
{
    if str_eq(key, "PROVIDER") {
        if let Some(p) = LlmProvider::from_code(val.as_str()) {
            s.provider = p;
        }
    } else if str_eq(key, "BASE_URL") {
        s.base_url = non_empty_string(val.as_str());
    } else if str_eq(key, "TOKEN") {
        s.token = non_empty_string(val.as_str());
    } else if str_eq(key, "MODEL") {
        s.model = non_empty_string(val.as_str());
    } else if str_eq(key, "STOP_SEQUENCES") {
        s.stop_sequences = stop_list_exec(val.as_str());
    } else if str_eq(key, "ORGANIZATION") {
        s.organization = non_empty_string(val.as_str());
    } else if str_eq(key, "USER") {
        s.user = non_empty_string(val.as_str());
    } else if str_eq(key, "VERSION") {
        s.version = val;
    } else {
        assign_llm_other_key_exec(s, key, val);
    }
}

/// Reads all lines: the settings without their `f32` fields, and the texts of those.
fn scan_llm_lines(lines: &Vec<String>, now: UtcTime) -> (r: (InfoLlmEntity, LlmFloatTexts))
    ensures
        (r.0@, r.1@) == llm_scan(views(lines@), now),
{
    let mut s = InfoLlmEntity::default_at(now);
    let mut f = LlmFloatTexts { temperature: None, top_p: None, presence_penalty: None, frequency_penalty: None };
    let mut i: usize = 0;
    while i < lines.len()
        invariant
            0 <= i <= lines@.len(),
            (s@, f@) == llm_scan(views(lines@).take(i as int), now),
        decreases lines.len() - i,
    {
        assert(views(lines@).take(i + 1).drop_last() == views(lines@).take(i as int));
        assert(views(lines@).take(i + 1).last() == lines@[i as int]@);
        match split_once_str(lines[i].as_str(), ':') {
            None => {},
            Some((k, v)) => {
                let kt = trim_str(k.as_str());
                let key = key_upper(kt.as_str());
                let val = trim_str(v.as_str());
                assign_float_text_exec(&mut f, key.as_str(), &val);
                assign_llm_key_exec(&mut s, key.as_str(), val);
            },
        }
        i = i + 1;
    }
    assert(views(lines@).take(lines@.len() as int) == views(lines@));
    (s, f)
}

/// FS adapter for the persisted LLM configuration (`llm.rci`).
#[derive(Clone, Copy, Debug)]
pub struct InfoLlmFsAdapter;

impl InfoLlmFsAdapter {
    /// The text of the last line of each `f32` setting in the file with
    /// `lines`; the caller reads each with `parse::<f32>()` and passes the
    /// results to [`InfoLlmFsAdapter::settings_from_lines`].
    pub fn float_texts(lines: &Vec<String>) -> (r: LlmFloatTexts)
        ensures
            forall|t: UtcTime| r@ == (#[trigger] llm_scan(views(lines@), t)).1,
    {
        let zero = UtcTime { secs: 0, nanos: 0 };
        let (_, f) = scan_llm_lines(lines, zero);
        assert forall|t: UtcTime| f@ == (#[trigger] llm_scan(views(lines@), t)).1 by {
            lemma_llm_scan_texts(views(lines@), zero, t);
        }
        f
    }

    /// The settings of the file with `lines` (`read`), read at `now` (the
    /// default creation and update times); `parsed` holds the `f32` settings
    /// read from the texts that [`InfoLlmFsAdapter::float_texts`] gives.
    pub fn settings_from_lines(lines: &Vec<String>, now: UtcTime, parsed: LlmFloatBits) -> (e: InfoLlmEntity)
        ensures
            e@ == llm_from_lines(views(lines@), now, parsed),
    {
        let (mut s, f) = scan_llm_lines(lines, now);
        if f.temperature.is_some() {
            s.temperature_bits = parsed.temperature;
        }
        if f.top_p.is_some() {
            s.top_p_bits = parsed.top_p;
        }
        if f.presence_penalty.is_some() {
            s.presence_penalty_bits = parsed.presence_penalty;
        }
        if f.frequency_penalty.is_some() {
            s.frequency_penalty_bits = parsed.frequency_penalty;
        }
        s
    }
}

// ---------------------------------------------------------------------------
// Writing `llm.rci`
// ---------------------------------------------------------------------------

/// One `KEY:value` line where there is a value, none otherwise.
pub open spec fn opt_line(key: Seq<char>, val: Option<Seq<char>>) -> Seq<Seq<char>> {
    match val {
        Some(v) => seq![kv_text(key, v)],
        None => Seq::empty(),
    }
}

/// The decimal text of an optional number.
pub open spec fn opt_dec(v: Option<nat>) -> Option<Seq<char>> {
    match v {
        Some(n) => Some(dec(n)),
        None => None,
    }
}

/// The first lines of the file: provider, base URL, token and model.
pub open spec fn llm_head_lines(e: InfoLlmView) -> Seq<Seq<char>> {
    seq![
        kv_text("PROVIDER"@, provider_code(e.provider)),
        kv_text("BASE_URL"@, text_or_empty(e.base_url)),
        kv_text("TOKEN"@, text_or_empty(e.token)),
        kv_text("MODEL"@, text_or_empty(e.model)),
    ]
}

/// The view of an optional `u32` as an optional number.
pub open spec fn opt_nat32(v: Option<u32>) -> Option<nat> {
    match v {
        Some(n) => Some(n as nat),
        None => None,
    }
}

/// The view of an optional `u64` as an optional number.
pub open spec fn opt_nat64(v: Option<u64>) -> Option<nat> {
    match v {
        Some(n) => Some(n as nat),
        None => None,
    }
}

/// The lines of the optional numeric settings, each only where it is set.
pub open spec fn llm_optional_lines(e: InfoLlmView, texts: LlmFloatTextsView) -> Seq<Seq<char>> {
    opt_line("MAX_OUTPUT_TOKENS"@, opt_dec(opt_nat32(e.max_output_tokens)))
        + opt_line("TEMPERATURE"@, texts.temperature)
        + opt_line("TOP_P"@, texts.top_p)
        + opt_line("TOP_K"@, opt_dec(opt_nat32(e.top_k)))
        + opt_line("PRESENCE_PENALTY"@, texts.presence_penalty)
        + opt_line("FREQUENCY_PENALTY"@, texts.frequency_penalty)
        + opt_line("TIMEOUT_MS"@, opt_dec(opt_nat64(e.timeout_ms)))
}

/// The last lines of the file: streaming, stop sequences, organization, user,
/// times and version.
pub open spec fn llm_tail_lines(e: InfoLlmView) -> Seq<Seq<char>> {
    seq![
        kv_text("STREAM"@, bool_text(e.stream)),
        kv_text("STOP_SEQUENCES"@, match e.stop_sequences {
            Some(v) => joined(v, ","@),
            None => Seq::empty(),
        }),
        kv_text("ORGANIZATION"@, text_or_empty(e.organization)),
        kv_text("USER"@, text_or_empty(e.user)),
        kv_text("CREATED_AT"@, instant_text(e.created_at)),
        kv_text("UPDATED_AT"@, instant_text(e.updated_at)),
        kv_text("VERSION"@, e.version),
    ]
}

/// The lines of the file that holds `e` (`write`); `texts` holds the `f32`
/// settings written with `{}`, one where `e` has the setting.
pub open spec fn llm_file_lines(e: InfoLlmView, texts: LlmFloatTextsView) -> Seq<Seq<char>> {
    llm_head_lines(e) + llm_optional_lines(e, texts) + llm_tail_lines(e)
}

/// `opt.clone().unwrap_or_default()`.
fn string_or_empty(v: &Option<String>) -> (r: String)
    ensures
        r@ == text_or_empty(opt_str(*v)),
{
    match v {
        Some(x) => x.clone(),
        None => String::new(),
    }
}

/// Appends a `KEY:value` line where there is a value.
fn push_opt_line(out: &mut Vec<String>, key: &str, val: &Option<String>)
    ensures
        views(final(out)@) == views(old(out)@) + opt_line(key@, opt_str(*val)),
{
    if let Some(v) = val {
        out.push(kv_line(key, v.as_str()));
        assert(views(out@) =~= views(old(out)@) + opt_line(key@, opt_str(*val)));
    } else {
        assert(views(out@) =~= views(old(out)@) + opt_line(key@, opt_str(*val)));
    }
}

/// The decimal text of an optional `u64`.
fn opt_dec_string(v: Option<u64>) -> (r: Option<String>)
    ensures
        opt_str(r) == opt_dec(opt_nat64(v)),
{
    match v {
        Some(n) => Some(u64_to_dec(n)),
        None => None,
    }
}

/// An optional `u32` widened.
fn widen(v: Option<u32>) -> (r: Option<u64>)
    ensures
        opt_nat64(r) == opt_nat32(v),
{
    match v {
        Some(n) => Some(n as u64),
        None => None,
    }
}

/// Appends the lines of the optional numeric settings.
fn push_optional_lines(out: &mut Vec<String>, e: &InfoLlmEntity, texts: &LlmFloatTexts)
    ensures
        views(final(out)@) == views(old(out)@) + llm_optional_lines(e@, texts@),
{
    push_opt_line(out, "MAX_OUTPUT_TOKENS", &opt_dec_string(widen(e.max_output_tokens)));
    push_opt_line(out, "TEMPERATURE", &texts.temperature);
    push_opt_line(out, "TOP_P", &texts.top_p);
    push_opt_line(out, "TOP_K", &opt_dec_string(widen(e.top_k)));
    push_opt_line(out, "PRESENCE_PENALTY", &texts.presence_penalty);
    push_opt_line(out, "FREQUENCY_PENALTY", &texts.frequency_penalty);
    push_opt_line(out, "TIMEOUT_MS", &opt_dec_string(e.timeout_ms));
    assert(views(out@) =~= views(old(out)@) + llm_optional_lines(e@, texts@));
}

/// Appends the last lines of the file.
fn push_tail_lines(out: &mut Vec<String>, e: &InfoLlmEntity)
    ensures
        views(final(out)@) == views(old(out)@) + llm_tail_lines(e@),
        four_digit_instant(e.created_at) ==> instant_reads_back(e.created_at),
        four_digit_instant(e.updated_at) ==> instant_reads_back(e.updated_at),
{
    out.push(kv_line("STREAM", bool_str(e.stream)));
    let stops = match &e.stop_sequences {
        Some(v) => join_strs(v, ","),
        None => String::new(),
    };
    out.push(kv_line("STOP_SEQUENCES", stops.as_str()));
    out.push(kv_line("ORGANIZATION", string_or_empty(&e.organization).as_str()));
    out.push(kv_line("USER", string_or_empty(&e.user).as_str()));
    out.push(kv_line("CREATED_AT", instant_string(e.created_at).as_str()));
    out.push(kv_line("UPDATED_AT", instant_string(e.updated_at).as_str()));
    out.push(kv_line("VERSION", e.version.as_str()));
    assert(views(out@) =~= views(old(out)@) + llm_tail_lines(e@));
}

impl InfoLlmFsAdapter {
    /// The lines that `write` puts in the file for `e`; `texts` holds each
    /// `f32` setting that `e` has, written with `{}`.
    ///
    /// Reading the lines back ([`settings_from_lines`](Self::settings_from_lines)),
    /// at any time and with each `f32` setting read from its text, gives `e`
    /// again, and the `f32` texts read are those written: this holds for
    /// settings whose texts can be written ([`llm_texts_writable`]) and whose
    /// times lie in four-digit years.
    pub fn file_lines(e: &InfoLlmEntity, texts: &LlmFloatTexts) -> (r: Vec<String>)
        requires
            texts.temperature is Some == e.temperature_bits is Some,
            texts.top_p is Some == e.top_p_bits is Some,
            texts.presence_penalty is Some == e.presence_penalty_bits is Some,
            texts.frequency_penalty is Some == e.frequency_penalty_bits is Some,
        ensures
            views(r@) == llm_file_lines(e@, texts@),
            llm_texts_writable(e@, texts@) && four_digit_instant(e.created_at) && four_digit_instant(e.updated_at) ==> {
                &&& forall|now: UtcTime| #[trigger] llm_from_lines(views(r@), now, float_bits_of(e@)) == e@
                &&& forall|now: UtcTime| (#[trigger] llm_scan(views(r@), now)).1 == texts@
            },
    {
        let mut out: Vec<String> = Vec::new();
        out.push(kv_line("PROVIDER", e.provider.as_code()));
        out.push(kv_line("BASE_URL", string_or_empty(&e.base_url).as_str()));
        out.push(kv_line("TOKEN", string_or_empty(&e.token).as_str()));
        out.push(kv_line("MODEL", string_or_empty(&e.model).as_str()));
        assert(views(out@) =~= llm_head_lines(e@));
        push_optional_lines(&mut out, e, texts);
        push_tail_lines(&mut out, e);
        proof {
            if llm_texts_writable(e@, texts@) && four_digit_instant(e.created_at) && four_digit_instant(e.updated_at) {
                assert(llm_writable(e@, texts@));
                assert forall|now: UtcTime| #[trigger] llm_from_lines(views(out@), now, float_bits_of(e@)) == e@ by {
                    lemma_llm_file_round_trip(e@, texts@, now);
                }
                assert forall|now: UtcTime| (#[trigger] llm_scan(views(out@), now)).1 == texts@ by {
                    lemma_llm_file_round_trip(e@, texts@, now);
                }
            }
        }
        out
    }
}

/// Repository of the persisted settings, over their file adapter.
pub struct InfoLlmRepository {
    adapter: InfoLlmFsAdapter,
}

impl InfoLlmRepository {
    /// A repository over the file adapter.
    pub fn new() -> (r: Self) {
        Self { adapter: InfoLlmFsAdapter }
    }

    /// The file adapter that the repository reads and writes through.
    pub fn fs_adapter(&self) -> (a: &InfoLlmFsAdapter) {
        &self.adapter
    }
}

} // verus!
