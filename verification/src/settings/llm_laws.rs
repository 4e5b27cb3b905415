//! What reading the LLM settings file gives back of what writing it put there.
use vstd::prelude::*;
use crate::codes::{LlmProvider, lemma_provider_code_round_trip, provider_code, provider_of_code};
use crate::settings::kv::{
    bool_text, entry_lines, joined, kv_text, lemma_entry_lines_append, lemma_entry_lines_index, lemma_joined_trimmed,
    lemma_kv_line_reads_back, lemma_list_items_joined, lemma_plain_key, list_items, non_empty, plain_key, text_or_empty,
};
use crate::settings::llm::{
    InfoLlmView, LlmFloatBits, LlmFloatTextsView, LlmScan, assign_float_text, assign_llm_key, default_llm_view,
    llm_file_lines, llm_from_lines, llm_head_lines, llm_line, llm_optional_lines, llm_scan, llm_tail_lines,
    no_float_texts, opt_dec, opt_line, opt_nat32, opt_nat64, stop_list,
};
use crate::text::{dec, lemma_dec_digits, lemma_parse_dec_small, lemma_parse_dec_u64, lemma_trim_unchanged, lower_seq, trim, upper_seq, is_digit};
use crate::time::{UtcTime, instant_reads_back, instant_text, rfc3339_parse};

verus! {

/// The scan of `lines` started from `st`.
pub open spec fn llm_scan_from(st: LlmScan, lines: Seq<Seq<char>>) -> LlmScan
    decreases lines.len(),
{
    if lines.len() == 0 {
        st
    } else {
        llm_line(llm_scan_from(st, lines.drop_last()), lines.last())
    }
}

proof fn lemma_scan_is_from(lines: Seq<Seq<char>>, now: UtcTime)
    ensures
        llm_scan(lines, now) == llm_scan_from((default_llm_view(now), no_float_texts()), lines),
    decreases lines.len(),
{
    if lines.len() > 0 {
        lemma_scan_is_from(lines.drop_last(), now);
    }
}

/// The state after assigning each entry in order.
pub open spec fn llm_fold(st: LlmScan, es: Seq<(Seq<char>, Seq<char>)>) -> LlmScan
    decreases es.len(),
{
    if es.len() == 0 {
        st
    } else {
        let p = llm_fold(st, es.drop_last());
        (assign_llm_key(p.0, es.last().0, es.last().1), assign_float_text(p.1, es.last().0, es.last().1))
    }
}

proof fn lemma_fold_append(st: LlmScan, a: Seq<(Seq<char>, Seq<char>)>, b: Seq<(Seq<char>, Seq<char>)>)
    ensures
        llm_fold(st, a + b) == llm_fold(llm_fold(st, a), b),
    decreases b.len(),
{
    if b.len() == 0 {
        assert(a + b == a);
    } else {
        assert((a + b).drop_last() == a + b.drop_last());
        assert((a + b).last() == b.last());
        lemma_fold_append(st, a, b.drop_last());
    }
}

/// Entries whose lines can be read back: settings keys and values that are their own trim.
pub open spec fn readable_entries(es: Seq<(Seq<char>, Seq<char>)>) -> bool {
    forall|i: int| 0 <= i < es.len() ==> plain_key((#[trigger] es[i]).0) && trim(es[i].1) == es[i].1
}

/// Scanning the lines of readable entries assigns them in order.
proof fn lemma_scan_entries(st: LlmScan, es: Seq<(Seq<char>, Seq<char>)>)
    requires
        readable_entries(es),
    ensures
        llm_scan_from(st, entry_lines(es)) == llm_fold(st, es),
    decreases es.len(),
{
    if es.len() > 0 {
        let d = es.drop_last();
        assert(forall|i: int| 0 <= i < d.len() ==> d[i] == es[i]);
        lemma_scan_entries(st, d);
        let e = es.last();
        assert(e == es[es.len() - 1]);
        lemma_kv_line_reads_back(e.0, e.1);
        assert(entry_lines(es).drop_last() == entry_lines(d));
    }
}

/// At most one entry: the key and the value where there is one.
pub open spec fn opt_entry(k: Seq<char>, v: Option<Seq<char>>) -> Seq<(Seq<char>, Seq<char>)> {
    match v {
        Some(x) => seq![(k, x)],
        None => Seq::empty(),
    }
}

/// The entries of the first lines.
pub open spec fn head_entries(e: InfoLlmView) -> Seq<(Seq<char>, Seq<char>)> {
    seq![
        ("PROVIDER"@, provider_code(e.provider)),
        ("BASE_URL"@, text_or_empty(e.base_url)),
        ("TOKEN"@, text_or_empty(e.token)),
        ("MODEL"@, text_or_empty(e.model)),
    ]
}

/// The entries of the optional numeric settings.
pub open spec fn optional_entries(e: InfoLlmView, texts: LlmFloatTextsView) -> Seq<(Seq<char>, Seq<char>)> {
    opt_entry("MAX_OUTPUT_TOKENS"@, opt_dec(opt_nat32(e.max_output_tokens)))
        + opt_entry("TEMPERATURE"@, texts.temperature)
        + opt_entry("TOP_P"@, texts.top_p)
        + opt_entry("TOP_K"@, opt_dec(opt_nat32(e.top_k)))
        + opt_entry("PRESENCE_PENALTY"@, texts.presence_penalty)
        + opt_entry("FREQUENCY_PENALTY"@, texts.frequency_penalty)
        + opt_entry("TIMEOUT_MS"@, opt_dec(opt_nat64(e.timeout_ms)))
}

/// The entries of the last lines.
pub open spec fn tail_entries(e: InfoLlmView) -> Seq<(Seq<char>, Seq<char>)> {
    seq![
        ("STREAM"@, bool_text(e.stream)),
        ("STOP_SEQUENCES"@, match e.stop_sequences {
            Some(v) => joined(v, ","@),
            None => Seq::empty(),
        }),
        ("ORGANIZATION"@, text_or_empty(e.organization)),
        ("USER"@, text_or_empty(e.user)),
        ("CREATED_AT"@, instant_text(e.created_at)),
        ("UPDATED_AT"@, instant_text(e.updated_at)),
        ("VERSION"@, e.version),
    ]
}

proof fn lemma_opt_line(k: Seq<char>, v: Option<Seq<char>>)
    ensures
        opt_line(k, v) == entry_lines(opt_entry(k, v)),
{
    lemma_entry_lines_index(opt_entry(k, v));
    assert(opt_line(k, v) =~= entry_lines(opt_entry(k, v)));
}

/// The lines of the file are the lines of its entries.
proof fn lemma_file_lines_as_entries(e: InfoLlmView, texts: LlmFloatTextsView)
    ensures
        llm_file_lines(e, texts) == entry_lines(head_entries(e) + optional_entries(e, texts) + tail_entries(e)),
{
    let h = head_entries(e);
    let o = optional_entries(e, texts);
    let t = tail_entries(e);
    lemma_entry_lines_index(h);
    assert(llm_head_lines(e) =~= entry_lines(h));
    lemma_entry_lines_index(t);
    assert(llm_tail_lines(e) =~= entry_lines(t));
    let o1 = opt_entry("MAX_OUTPUT_TOKENS"@, opt_dec(opt_nat32(e.max_output_tokens)));
    let o2 = opt_entry("TEMPERATURE"@, texts.temperature);
    let o3 = opt_entry("TOP_P"@, texts.top_p);
    let o4 = opt_entry("TOP_K"@, opt_dec(opt_nat32(e.top_k)));
    let o5 = opt_entry("PRESENCE_PENALTY"@, texts.presence_penalty);
    let o6 = opt_entry("FREQUENCY_PENALTY"@, texts.frequency_penalty);
    let o7 = opt_entry("TIMEOUT_MS"@, opt_dec(opt_nat64(e.timeout_ms)));
    lemma_opt_line("MAX_OUTPUT_TOKENS"@, opt_dec(opt_nat32(e.max_output_tokens)));
    lemma_opt_line("TEMPERATURE"@, texts.temperature);
    lemma_opt_line("TOP_P"@, texts.top_p);
    lemma_opt_line("TOP_K"@, opt_dec(opt_nat32(e.top_k)));
    lemma_opt_line("PRESENCE_PENALTY"@, texts.presence_penalty);
    lemma_opt_line("FREQUENCY_PENALTY"@, texts.frequency_penalty);
    lemma_opt_line("TIMEOUT_MS"@, opt_dec(opt_nat64(e.timeout_ms)));
    lemma_entry_lines_append(o1, o2);
    lemma_entry_lines_append(o1 + o2, o3);
    lemma_entry_lines_append(o1 + o2 + o3, o4);
    lemma_entry_lines_append(o1 + o2 + o3 + o4, o5);
    lemma_entry_lines_append(o1 + o2 + o3 + o4 + o5, o6);
    lemma_entry_lines_append(o1 + o2 + o3 + o4 + o5 + o6, o7);
    assert(llm_optional_lines(e, texts) == entry_lines(o));
    lemma_entry_lines_append(h, o);
    lemma_entry_lines_append(h + o, t);
}

/// Assigning one more entry of a prefix.
proof fn lemma_fold_step(st: LlmScan, es: Seq<(Seq<char>, Seq<char>)>, k: int)
    requires
        0 <= k < es.len(),
    ensures
        llm_fold(st, es.take(k + 1)) == (
            assign_llm_key(llm_fold(st, es.take(k)).0, es[k].0, es[k].1),
            assign_float_text(llm_fold(st, es.take(k)).1, es[k].0, es[k].1),
        ),
{
    assert(es.take(k + 1).drop_last() == es.take(k));
    assert(es.take(k + 1).last() == es[k]);
}

/// An optional entry assigns its value where there is one.
proof fn lemma_fold_opt(st: LlmScan, k: Seq<char>, v: Option<Seq<char>>)
    ensures
        llm_fold(st, opt_entry(k, v)) == (match v {
            Some(x) => (assign_llm_key(st.0, k, x), assign_float_text(st.1, k, x)),
            None => st,
        }),
{
    match v {
        Some(x) => {
            let es = opt_entry(k, v);
            assert(es.drop_last() =~= Seq::<(Seq<char>, Seq<char>)>::empty());
            assert(es.last() == (k, x));
            assert(llm_fold(st, es.drop_last()) == st);
        },
        None => {
            assert(opt_entry(k, v).len() == 0);
        },
    }
}

/// The literal keys of the LLM settings are settings keys, differ from one
/// another, and the boolean texts read back as their booleans.
proof fn lemma_llm_keys()
    ensures
        plain_key("PROVIDER"@) && plain_key("BASE_URL"@) && plain_key("TOKEN"@) && plain_key("MODEL"@),
        plain_key("MAX_OUTPUT_TOKENS"@) && plain_key("TEMPERATURE"@) && plain_key("TOP_P"@) && plain_key("TOP_K"@),
        plain_key("PRESENCE_PENALTY"@) && plain_key("FREQUENCY_PENALTY"@) && plain_key("TIMEOUT_MS"@),
        plain_key("STREAM"@) && plain_key("STOP_SEQUENCES"@) && plain_key("ORGANIZATION"@) && plain_key("USER"@),
        plain_key("CREATED_AT"@) && plain_key("UPDATED_AT"@) && plain_key("VERSION"@),
        "PROVIDER"@.len() == 8 && "BASE_URL"@.len() == 8 && "TOKEN"@.len() == 5 && "MODEL"@.len() == 5,
        "MAX_OUTPUT_TOKENS"@.len() == 17 && "TEMPERATURE"@.len() == 11 && "TOP_P"@.len() == 5 && "TOP_K"@.len() == 5,
        "PRESENCE_PENALTY"@.len() == 16 && "FREQUENCY_PENALTY"@.len() == 17 && "TIMEOUT_MS"@.len() == 10,
        "STREAM"@.len() == 6 && "STOP_SEQUENCES"@.len() == 14 && "ORGANIZATION"@.len() == 12 && "USER"@.len() == 4,
        "CREATED_AT"@.len() == 10 && "UPDATED_AT"@.len() == 10 && "VERSION"@.len() == 7,
        "PROVIDER"@ != "BASE_URL"@,
        "TOKEN"@ != "MODEL"@ && "TOKEN"@ != "TOP_P"@ && "TOKEN"@ != "TOP_K"@ && "MODEL"@ != "TOP_P"@
            && "MODEL"@ != "TOP_K"@ && "TOP_P"@ != "TOP_K"@,
        "TIMEOUT_MS"@ != "CREATED_AT"@ && "TIMEOUT_MS"@ != "UPDATED_AT"@ && "CREATED_AT"@ != "UPDATED_AT"@,
        "MAX_OUTPUT_TOKENS"@ != "FREQUENCY_PENALTY"@,
        forall|b: bool| (lower_seq(bool_text(b)) == lower_seq("true"@)) == b,
        crate::text::trim(bool_text(true)) == bool_text(true),
        crate::text::trim(bool_text(false)) == bool_text(false),
{
    reveal_strlit("PROVIDER");
    reveal_strlit("BASE_URL");
    reveal_strlit("TOKEN");
    reveal_strlit("MODEL");
    reveal_strlit("MAX_OUTPUT_TOKENS");
    reveal_strlit("TEMPERATURE");
    reveal_strlit("TOP_P");
    reveal_strlit("TOP_K");
    reveal_strlit("PRESENCE_PENALTY");
    reveal_strlit("FREQUENCY_PENALTY");
    reveal_strlit("TIMEOUT_MS");
    reveal_strlit("STREAM");
    reveal_strlit("STOP_SEQUENCES");
    reveal_strlit("ORGANIZATION");
    reveal_strlit("USER");
    reveal_strlit("CREATED_AT");
    reveal_strlit("UPDATED_AT");
    reveal_strlit("VERSION");
    reveal_strlit("true");
    reveal_strlit("false");
    assert("PROVIDER"@[0] != "BASE_URL"@[0]);
    assert("TOKEN"@[2] != "TOP_P"@[2] && "TOKEN"@[2] != "TOP_K"@[2] && "TOP_P"@[4] != "TOP_K"@[4]);
    assert("MODEL"@[0] != "TOKEN"@[0] && "MODEL"@[0] != "TOP_P"@[0] && "MODEL"@[0] != "TOP_K"@[0]);
    assert("TIMEOUT_MS"@[0] != "CREATED_AT"@[0] && "TIMEOUT_MS"@[0] != "UPDATED_AT"@[0]);
    assert("CREATED_AT"@[0] != "UPDATED_AT"@[0]);
    assert("MAX_OUTPUT_TOKENS"@[0] != "FREQUENCY_PENALTY"@[0]);
    assert(lower_seq("true"@) =~= "true"@);
    assert(lower_seq("false"@) =~= "false"@);
    lemma_trim_unchanged(bool_text(true));
    lemma_trim_unchanged(bool_text(false));
}

/// An optional text reads back from its line.
proof fn lemma_opt_text_round_trip(u: Option<Seq<char>>)
    requires
        u matches Some(x) ==> x.len() > 0 && trim(x) == x,
    ensures
        non_empty(text_or_empty(u)) == u,
        trim(text_or_empty(u)) == text_or_empty(u),
{
    lemma_trim_unchanged(Seq::<char>::empty());
}

/// The LLM settings `e` can be written with the `f32` texts `texts` and read
/// back: [`llm_texts_writable`] holds and both times read back from their
/// RFC 3339 text.
pub open spec fn llm_writable(e: InfoLlmView, texts: LlmFloatTextsView) -> bool {
    &&& llm_texts_writable(e, texts)
    &&& instant_reads_back(e.created_at)
    &&& instant_reads_back(e.updated_at)
}

/// The texts of the LLM settings `e` and the `f32` texts `texts` can be
/// written and read back: each `f32` setting has a text exactly where it is
/// set, and the texts are their own trim; the output-token limit, temperature
/// and timeout are set (a missing one would read back as its default);
/// optional texts are non-empty and their own trim; stop sequences, where
/// set, are non-empty items without `,`.
pub open spec fn llm_texts_writable(e: InfoLlmView, texts: LlmFloatTextsView) -> bool {
    &&& texts.temperature is Some == e.temperature_bits is Some
    &&& texts.top_p is Some == e.top_p_bits is Some
    &&& texts.presence_penalty is Some == e.presence_penalty_bits is Some
    &&& texts.frequency_penalty is Some == e.frequency_penalty_bits is Some
    &&& (texts.temperature matches Some(x) ==> trim(x) == x)
    &&& (texts.top_p matches Some(x) ==> trim(x) == x)
    &&& (texts.presence_penalty matches Some(x) ==> trim(x) == x)
    &&& (texts.frequency_penalty matches Some(x) ==> trim(x) == x)
    &&& e.max_output_tokens is Some
    &&& e.temperature_bits is Some
    &&& e.timeout_ms is Some
    &&& (e.base_url matches Some(u) ==> u.len() > 0 && trim(u) == u)
    &&& (e.token matches Some(u) ==> u.len() > 0 && trim(u) == u)
    &&& (e.model matches Some(u) ==> u.len() > 0 && trim(u) == u)
    &&& (e.organization matches Some(u) ==> u.len() > 0 && trim(u) == u)
    &&& (e.user matches Some(u) ==> u.len() > 0 && trim(u) == u)
    &&& (e.stop_sequences matches Some(v) ==> v.len() > 0 && forall|i: int| 0 <= i < v.len() ==> {
        &&& (#[trigger] v[i]).len() > 0
        &&& trim(v[i]) == v[i]
        &&& forall|j: int| 0 <= j < v[i].len() ==> v[i][j] != ','
    })
    &&& trim(e.version) == e.version
}

/// The written text of the stop sequences and what reading it gives.
proof fn lemma_stop_round_trip(v: Option<Seq<Seq<char>>>)
    requires
        v matches Some(items) ==> items.len() > 0 && forall|i: int| 0 <= i < items.len() ==> {
            &&& (#[trigger] items[i]).len() > 0
            &&& trim(items[i]) == items[i]
            &&& forall|j: int| 0 <= j < items[i].len() ==> items[i][j] != ','
        },
    ensures
        ({
            let text = match v {
                Some(items) => joined(items, ","@),
                None => Seq::<char>::empty(),
            };
            &&& stop_list(text) == v
            &&& trim(text) == text
        }),
{
    match v {
        Some(items) => {
            lemma_list_items_joined(items);
            lemma_joined_trimmed(items);
        },
        None => {
            lemma_list_items_joined(Seq::empty());
            lemma_trim_unchanged(Seq::<char>::empty());
            assert(joined(Seq::<Seq<char>>::empty(), ","@) == Seq::<char>::empty());
        },
    }
}

proof fn lemma_readable_append(a: Seq<(Seq<char>, Seq<char>)>, b: Seq<(Seq<char>, Seq<char>)>)
    requires
        readable_entries(a),
        readable_entries(b),
    ensures
        readable_entries(a + b),
{
    assert forall|i: int| 0 <= i < (a + b).len() implies plain_key((#[trigger] (a + b)[i]).0) && trim((a + b)[i].1) == (a + b)[i].1 by {
        if i < a.len() {
            assert((a + b)[i] == a[i]);
        } else {
            assert((a + b)[i] == b[i - a.len()]);
        }
    }
}

proof fn lemma_opt_readable(k: Seq<char>, v: Option<Seq<char>>)
    requires
        plain_key(k),
        v matches Some(x) ==> trim(x) == x,
    ensures
        readable_entries(opt_entry(k, v)),
{
}

proof fn lemma_dec_opt_readable(v: Option<nat>)
    ensures
        opt_dec(v) matches Some(x) ==> trim(x) == x,
{
    if let Some(n) = v {
        lemma_dec_digits(n);
        assert forall|i: int| 0 <= i < dec(n).len() implies crate::settings::kv::key_char(#[trigger] dec(n)[i]) by {
            assert(is_digit(dec(n)[i]));
        }
        lemma_plain_key(dec(n));
    }
}

/// The entries of a writable file are readable.
proof fn lemma_entries_readable(e: InfoLlmView, texts: LlmFloatTextsView)
    requires
        llm_writable(e, texts),
    ensures
        readable_entries(head_entries(e) + optional_entries(e, texts) + tail_entries(e)),
{
    lemma_llm_keys();
    reveal_strlit("GPT");
    reveal_strlit("GEMINI");
    reveal_strlit("GROK");
    reveal_strlit("HUGGINGFACE");
    assert(plain_key(provider_code(e.provider)));
    lemma_plain_key(provider_code(e.provider));
    lemma_opt_text_round_trip(e.base_url);
    lemma_opt_text_round_trip(e.token);
    lemma_opt_text_round_trip(e.model);
    lemma_opt_text_round_trip(e.organization);
    lemma_opt_text_round_trip(e.user);
    lemma_stop_round_trip(e.stop_sequences);
    assert(readable_entries(head_entries(e)));
    assert(readable_entries(tail_entries(e))) by {
        assert(trim(bool_text(e.stream)) == bool_text(e.stream));
    }
    lemma_dec_opt_readable(opt_nat32(e.max_output_tokens));
    lemma_dec_opt_readable(opt_nat32(e.top_k));
    lemma_dec_opt_readable(opt_nat64(e.timeout_ms));
    let o1 = opt_entry("MAX_OUTPUT_TOKENS"@, opt_dec(opt_nat32(e.max_output_tokens)));
    let o2 = opt_entry("TEMPERATURE"@, texts.temperature);
    let o3 = opt_entry("TOP_P"@, texts.top_p);
    let o4 = opt_entry("TOP_K"@, opt_dec(opt_nat32(e.top_k)));
    let o5 = opt_entry("PRESENCE_PENALTY"@, texts.presence_penalty);
    let o6 = opt_entry("FREQUENCY_PENALTY"@, texts.frequency_penalty);
    let o7 = opt_entry("TIMEOUT_MS"@, opt_dec(opt_nat64(e.timeout_ms)));
    lemma_opt_readable("MAX_OUTPUT_TOKENS"@, opt_dec(opt_nat32(e.max_output_tokens)));
    lemma_opt_readable("TEMPERATURE"@, texts.temperature);
    lemma_opt_readable("TOP_P"@, texts.top_p);
    lemma_opt_readable("TOP_K"@, opt_dec(opt_nat32(e.top_k)));
    lemma_opt_readable("PRESENCE_PENALTY"@, texts.presence_penalty);
    lemma_opt_readable("FREQUENCY_PENALTY"@, texts.frequency_penalty);
    lemma_opt_readable("TIMEOUT_MS"@, opt_dec(opt_nat64(e.timeout_ms)));
    lemma_readable_append(o1, o2);
    lemma_readable_append(o1 + o2, o3);
    lemma_readable_append(o1 + o2 + o3, o4);
    lemma_readable_append(o1 + o2 + o3 + o4, o5);
    lemma_readable_append(o1 + o2 + o3 + o4 + o5, o6);
    lemma_readable_append(o1 + o2 + o3 + o4 + o5 + o6, o7);
    lemma_readable_append(head_entries(e), optional_entries(e, texts));
    lemma_readable_append(head_entries(e) + optional_entries(e, texts), tail_entries(e));
}

/// Reading the first lines sets the provider, base URL, token and model.
proof fn lemma_head_fold(st: LlmScan, e: InfoLlmView)
    requires
        e.base_url matches Some(u) ==> u.len() > 0 && trim(u) == u,
        e.token matches Some(u) ==> u.len() > 0 && trim(u) == u,
        e.model matches Some(u) ==> u.len() > 0 && trim(u) == u,
    ensures
        llm_fold(st, head_entries(e))
            == (InfoLlmView { provider: e.provider, base_url: e.base_url, token: e.token, model: e.model, ..st.0 }, st.1),
{
    let h = head_entries(e);
    lemma_llm_keys();
    lemma_provider_code_round_trip(e.provider);
    lemma_opt_text_round_trip(e.base_url);
    lemma_opt_text_round_trip(e.token);
    lemma_opt_text_round_trip(e.model);
    assert(h.take(0) =~= Seq::<(Seq<char>, Seq<char>)>::empty());
    lemma_fold_step(st, h, 0);
    lemma_fold_step(st, h, 1);
    lemma_fold_step(st, h, 2);
    lemma_fold_step(st, h, 3);
    assert(h.take(4) == h);
}

/// Reading the optional lines sets the numeric settings they hold and records
/// the `f32` texts.
proof fn lemma_optional_fold(st: LlmScan, e: InfoLlmView, texts: LlmFloatTextsView)
    requires
        st.1 == no_float_texts(),
        e.top_k is None ==> st.0.top_k is None,
        e.max_output_tokens is Some,
        e.timeout_ms is Some,
    ensures
        llm_fold(st, optional_entries(e, texts)) == (
            InfoLlmView { max_output_tokens: e.max_output_tokens, top_k: e.top_k, timeout_ms: e.timeout_ms, ..st.0 },
            texts,
        ),
{
    lemma_llm_keys();
    let o1 = opt_entry("MAX_OUTPUT_TOKENS"@, opt_dec(opt_nat32(e.max_output_tokens)));
    let o2 = opt_entry("TEMPERATURE"@, texts.temperature);
    let o3 = opt_entry("TOP_P"@, texts.top_p);
    let o4 = opt_entry("TOP_K"@, opt_dec(opt_nat32(e.top_k)));
    let o5 = opt_entry("PRESENCE_PENALTY"@, texts.presence_penalty);
    let o6 = opt_entry("FREQUENCY_PENALTY"@, texts.frequency_penalty);
    let o7 = opt_entry("TIMEOUT_MS"@, opt_dec(opt_nat64(e.timeout_ms)));
    lemma_fold_append(st, o1, o2);
    lemma_fold_append(st, o1 + o2, o3);
    lemma_fold_append(st, o1 + o2 + o3, o4);
    lemma_fold_append(st, o1 + o2 + o3 + o4, o5);
    lemma_fold_append(st, o1 + o2 + o3 + o4 + o5, o6);
    lemma_fold_append(st, o1 + o2 + o3 + o4 + o5 + o6, o7);
    let m = e.max_output_tokens.unwrap();
    lemma_parse_dec_small(m as nat);
    lemma_fold_opt(st, "MAX_OUTPUT_TOKENS"@, opt_dec(opt_nat32(e.max_output_tokens)));
    let s1 = llm_fold(st, o1);
    assert(s1 == (InfoLlmView { max_output_tokens: e.max_output_tokens, ..st.0 }, st.1));
    lemma_fold_opt(s1, "TEMPERATURE"@, texts.temperature);
    let s2 = llm_fold(s1, o2);
    assert(s2 == (s1.0, LlmFloatTextsView { temperature: texts.temperature, ..s1.1 }));
    lemma_fold_opt(s2, "TOP_P"@, texts.top_p);
    let s3 = llm_fold(s2, o3);
    assert(s3 == (s2.0, LlmFloatTextsView { top_p: texts.top_p, ..s2.1 }));
    if let Some(k) = e.top_k {
        lemma_parse_dec_small(k as nat);
    }
    lemma_fold_opt(s3, "TOP_K"@, opt_dec(opt_nat32(e.top_k)));
    let s4 = llm_fold(s3, o4);
    assert(s4 == (InfoLlmView { top_k: e.top_k, ..s3.0 }, s3.1));
    lemma_fold_opt(s4, "PRESENCE_PENALTY"@, texts.presence_penalty);
    let s5 = llm_fold(s4, o5);
    assert(s5 == (s4.0, LlmFloatTextsView { presence_penalty: texts.presence_penalty, ..s4.1 }));
    lemma_fold_opt(s5, "FREQUENCY_PENALTY"@, texts.frequency_penalty);
    let s6 = llm_fold(s5, o6);
    assert(s6 == (s5.0, LlmFloatTextsView { frequency_penalty: texts.frequency_penalty, ..s5.1 }));
    let t = e.timeout_ms.unwrap();
    lemma_parse_dec_u64(t);
    lemma_fold_opt(s6, "TIMEOUT_MS"@, opt_dec(opt_nat64(e.timeout_ms)));
    let s7 = llm_fold(s6, o7);
    assert(s7 == (InfoLlmView { timeout_ms: e.timeout_ms, ..s6.0 }, s6.1));
}

/// Reading the last lines sets streaming, stop sequences, organization, user,
/// times and version.
proof fn lemma_tail_fold(st: LlmScan, e: InfoLlmView, texts: LlmFloatTextsView)
    requires
        llm_writable(e, texts),
    ensures
        llm_fold(st, tail_entries(e)) == (
            InfoLlmView {
                stream: e.stream,
                stop_sequences: e.stop_sequences,
                organization: e.organization,
                user: e.user,
                created_at: e.created_at,
                updated_at: e.updated_at,
                version: e.version,
                ..st.0
            },
            st.1,
        ),
{
    let t = tail_entries(e);
    lemma_llm_keys();
    lemma_stop_round_trip(e.stop_sequences);
    lemma_opt_text_round_trip(e.organization);
    lemma_opt_text_round_trip(e.user);
    assert(t.take(0) =~= Seq::<(Seq<char>, Seq<char>)>::empty());
    lemma_fold_step(st, t, 0);
    lemma_fold_step(st, t, 1);
    lemma_fold_step(st, t, 2);
    lemma_fold_step(st, t, 3);
    lemma_fold_step(st, t, 4);
    lemma_fold_step(st, t, 5);
    lemma_fold_step(st, t, 6);
    assert(t.take(7) == t);
}

/// The `f32` settings of `e`, as bit patterns.
pub open spec fn float_bits_of(e: InfoLlmView) -> LlmFloatBits {
    LlmFloatBits {
        temperature: e.temperature_bits,
        top_p: e.top_p_bits,
        presence_penalty: e.presence_penalty_bits,
        frequency_penalty: e.frequency_penalty_bits,
    }
}

/// Reading back the lines that writing the LLM settings `e` produces gives `e`
/// again, with each `f32` setting as the caller reads it from its text, and
/// the `f32` texts read back are those written. This holds for settings that
/// `llm_writable` admits: a missing output-token limit, temperature or timeout
/// reads back as its default instead.
pub proof fn lemma_llm_file_round_trip(e: InfoLlmView, texts: LlmFloatTextsView, now: UtcTime)
    requires
        llm_writable(e, texts),
    ensures
        llm_from_lines(llm_file_lines(e, texts), now, float_bits_of(e)) == e,
        llm_scan(llm_file_lines(e, texts), now).1 == texts,
{
    let h = head_entries(e);
    let o = optional_entries(e, texts);
    let t = tail_entries(e);
    let st0 = (default_llm_view(now), no_float_texts());
    lemma_file_lines_as_entries(e, texts);
    lemma_scan_is_from(llm_file_lines(e, texts), now);
    lemma_entries_readable(e, texts);
    lemma_scan_entries(st0, h + o + t);
    lemma_fold_append(st0, h + o, t);
    lemma_fold_append(st0, h, o);
    lemma_head_fold(st0, e);
    let s1 = llm_fold(st0, h);
    lemma_optional_fold(s1, e, texts);
    let s2 = llm_fold(s1, o);
    lemma_tail_fold(s2, e, texts);
}

} // verus!
