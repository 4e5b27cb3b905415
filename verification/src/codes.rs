//! Codes of the alert rule enums and of the LLM providers, as written in the
//! settings files.
use vstd::prelude::*;
use crate::text::{key_upper, upper_key, all_ascii, to_ascii_upper, upper_seq, str_eq};

verus! {

// ---------------------------------------------------------------------------
// Alert rules
// ---------------------------------------------------------------------------

/// Metrics that can be evaluated by alert rules.
#[derive(Clone, Copy, Debug, PartialEq, Eq, Structural)]
pub enum AlertMetricType {
    CpuUsagePercent,
    MemoryUsagePercent,
    DiskUsagePercent,
    GpuUsagePercent,
}

/// Comparison operator for rule evaluation.
#[derive(Clone, Copy, Debug, PartialEq, Eq, Structural)]
pub enum AlertOperator {
    GreaterThan,
    LessThan,
    GreaterThanOrEqual,
    LessThanOrEqual,
}

/// Severity levels of an alert.
#[derive(Clone, Copy, Debug, PartialEq, Eq, Structural)]
pub enum AlertSeverity {
    Info,
    Warning,
    Critical,
}

/// Code of a metric type.
pub open spec fn metric_code(m: AlertMetricType) -> Seq<char> {
    match m {
        AlertMetricType::CpuUsagePercent => "CPU"@,
        AlertMetricType::MemoryUsagePercent => "MEMORY"@,
        AlertMetricType::DiskUsagePercent => "DISK"@,
        AlertMetricType::GpuUsagePercent => "GPU"@,
    }
}

/// The metric type whose code is exactly `u`.
pub open spec fn metric_of_code(u: Seq<char>) -> Option<AlertMetricType> {
    if u == "CPU"@ {
        Some(AlertMetricType::CpuUsagePercent)
    } else if u == "MEMORY"@ {
        Some(AlertMetricType::MemoryUsagePercent)
    } else if u == "DISK"@ {
        Some(AlertMetricType::DiskUsagePercent)
    } else if u == "GPU"@ {
        Some(AlertMetricType::GpuUsagePercent)
    } else {
        None
    }
}

/// Code of an operator.
pub open spec fn operator_code(o: AlertOperator) -> Seq<char> {
    match o {
        AlertOperator::GreaterThan => "GT"@,
        AlertOperator::LessThan => "LT"@,
        AlertOperator::GreaterThanOrEqual => "GTE"@,
        AlertOperator::LessThanOrEqual => "LTE"@,
    }
}

/// The operator whose code is exactly `u`.
pub open spec fn operator_of_code(u: Seq<char>) -> Option<AlertOperator> {
    if u == "GT"@ {
        Some(AlertOperator::GreaterThan)
    } else if u == "LT"@ {
        Some(AlertOperator::LessThan)
    } else if u == "GTE"@ {
        Some(AlertOperator::GreaterThanOrEqual)
    } else if u == "LTE"@ {
        Some(AlertOperator::LessThanOrEqual)
    } else {
        None
    }
}

/// Code of a severity.
pub open spec fn severity_code(s: AlertSeverity) -> Seq<char> {
    match s {
        AlertSeverity::Info => "INFO"@,
        AlertSeverity::Warning => "WARNING"@,
        AlertSeverity::Critical => "CRITICAL"@,
    }
}

/// The severity whose code is exactly `u`.
pub open spec fn severity_of_code(u: Seq<char>) -> Option<AlertSeverity> {
    if u == "INFO"@ {
        Some(AlertSeverity::Info)
    } else if u == "WARNING"@ {
        Some(AlertSeverity::Warning)
    } else if u == "CRITICAL"@ {
        Some(AlertSeverity::Critical)
    } else {
        None
    }
}

impl AlertMetricType {
    /// The metric type whose code is `upper` (already uppercased).
    pub fn from_upper_code(upper: &str) -> (r: Option<Self>)
        ensures
            r == metric_of_code(upper@),
    {
        if str_eq(upper, "CPU") {
            Some(AlertMetricType::CpuUsagePercent)
        } else if str_eq(upper, "MEMORY") {
            Some(AlertMetricType::MemoryUsagePercent)
        } else if str_eq(upper, "DISK") {
            Some(AlertMetricType::DiskUsagePercent)
        } else if str_eq(upper, "GPU") {
            Some(AlertMetricType::GpuUsagePercent)
        } else {
            None
        }
    }

    /// The metric type whose code is `code`, compared after Unicode uppercasing.
    pub fn from_code(code: &str) -> (r: Option<Self>)
        ensures
            r == metric_of_code(upper_key(code@)),
    {
        let u = key_upper(code);
        Self::from_upper_code(u.as_str())
    }

    /// Code of the metric type.
    pub fn as_code(&self) -> (s: &'static str)
        ensures
            s@ == metric_code(*self),
    {
        match self {
            AlertMetricType::CpuUsagePercent => "CPU",
            AlertMetricType::MemoryUsagePercent => "MEMORY",
            AlertMetricType::DiskUsagePercent => "DISK",
            AlertMetricType::GpuUsagePercent => "GPU",
        }
    }
}

impl AlertOperator {
    /// The operator whose code is `upper` (already uppercased).
    pub fn from_upper_code(upper: &str) -> (r: Option<Self>)
        ensures
            r == operator_of_code(upper@),
    {
        if str_eq(upper, "GT") {
            Some(AlertOperator::GreaterThan)
        } else if str_eq(upper, "LT") {
            Some(AlertOperator::LessThan)
        } else if str_eq(upper, "GTE") {
            Some(AlertOperator::GreaterThanOrEqual)
        } else if str_eq(upper, "LTE") {
            Some(AlertOperator::LessThanOrEqual)
        } else {
            None
        }
    }

    /// The operator whose code is `code`, compared after Unicode uppercasing.
    pub fn from_code(code: &str) -> (r: Option<Self>)
        ensures
            r == operator_of_code(upper_key(code@)),
    {
        let u = key_upper(code);
        Self::from_upper_code(u.as_str())
    }

    /// Code of the operator.
    pub fn as_code(&self) -> (s: &'static str)
        ensures
            s@ == operator_code(*self),
    {
        match self {
            AlertOperator::GreaterThan => "GT",
            AlertOperator::LessThan => "LT",
            AlertOperator::GreaterThanOrEqual => "GTE",
            AlertOperator::LessThanOrEqual => "LTE",
        }
    }
}

impl AlertSeverity {
    /// The severity whose code is `upper` (already uppercased).
    pub fn from_upper_code(upper: &str) -> (r: Option<Self>)
        ensures
            r == severity_of_code(upper@),
    {
        if str_eq(upper, "INFO") {
            Some(AlertSeverity::Info)
        } else if str_eq(upper, "WARNING") {
            Some(AlertSeverity::Warning)
        } else if str_eq(upper, "CRITICAL") {
            Some(AlertSeverity::Critical)
        } else {
            None
        }
    }

    /// The severity whose code is `code`, compared after Unicode uppercasing.
    pub fn from_code(code: &str) -> (r: Option<Self>)
        ensures
            r == severity_of_code(upper_key(code@)),
    {
        let u = key_upper(code);
        Self::from_upper_code(u.as_str())
    }

    /// Code of the severity.
    pub fn as_code(&self) -> (s: &'static str)
        ensures
            s@ == severity_code(*self),
    {
        match self {
            AlertSeverity::Info => "INFO",
            AlertSeverity::Warning => "WARNING",
            AlertSeverity::Critical => "CRITICAL",
        }
    }
}

/// Every alert code reads back as the value it names:
/// `from_code(x.as_code()) == Some(x)` for each enum.
pub proof fn lemma_alert_codes_round_trip(m: AlertMetricType, o: AlertOperator, s: AlertSeverity)
    ensures
        metric_of_code(upper_key(metric_code(m))) == Some(m),
        operator_of_code(upper_key(operator_code(o))) == Some(o),
        severity_of_code(upper_key(severity_code(s))) == Some(s),
        all_ascii(metric_code(m)),
        upper_seq(metric_code(m)) == metric_code(m),
        metric_of_code(metric_code(m)) == Some(m),
        all_ascii(operator_code(o)),
        upper_seq(operator_code(o)) == operator_code(o),
        operator_of_code(operator_code(o)) == Some(o),
        all_ascii(severity_code(s)),
        upper_seq(severity_code(s)) == severity_code(s),
        severity_of_code(severity_code(s)) == Some(s),
{
    reveal_strlit("CPU");
    reveal_strlit("MEMORY");
    reveal_strlit("DISK");
    reveal_strlit("GPU");
    reveal_strlit("GT");
    reveal_strlit("LT");
    reveal_strlit("GTE");
    reveal_strlit("LTE");
    reveal_strlit("INFO");
    reveal_strlit("WARNING");
    reveal_strlit("CRITICAL");
    assert("CPU"@.len() == 3 && "MEMORY"@.len() == 6 && "DISK"@.len() == 4 && "GPU"@.len() == 3);
    assert("CPU"@[0] != "GPU"@[0]);
    assert("GT"@.len() == 2 && "LT"@.len() == 2 && "GTE"@.len() == 3 && "LTE"@.len() == 3);
    assert("GT"@[0] != "LT"@[0] && "GTE"@[0] != "LTE"@[0]);
    assert("INFO"@.len() == 4 && "WARNING"@.len() == 7 && "CRITICAL"@.len() == 8);
    assert(upper_seq(metric_code(m)) =~= metric_code(m));
    assert(upper_seq(operator_code(o)) =~= operator_code(o));
    assert(upper_seq(severity_code(s)) =~= severity_code(s));
}

// ---------------------------------------------------------------------------
// LLM providers
// ---------------------------------------------------------------------------

/// Supported LLM providers.
#[derive(Clone, Copy, Debug, PartialEq, Eq, Structural)]
pub enum LlmProvider {
    Gpt,
    Gemini,
    Grok,
    HuggingFace,
}

/// Code of a provider.
pub open spec fn provider_code(p: LlmProvider) -> Seq<char> {
    match p {
        LlmProvider::Gpt => "GPT"@,
        LlmProvider::Gemini => "GEMINI"@,
        LlmProvider::Grok => "GROK"@,
        LlmProvider::HuggingFace => "HUGGINGFACE"@,
    }
}

/// The provider named by the (uppercase) code or alias `u`.
pub open spec fn provider_of_code(u: Seq<char>) -> Option<LlmProvider> {
    if u == "GPT"@ || u == "OPENAI"@ {
        Some(LlmProvider::Gpt)
    } else if u == "GEMINI"@ || u == "GOOGLE"@ {
        Some(LlmProvider::Gemini)
    } else if u == "GROK"@ || u == "XAI"@ {
        Some(LlmProvider::Grok)
    } else if u == "HUGGINGFACE"@ || u == "HF"@ {
        Some(LlmProvider::HuggingFace)
    } else {
        None
    }
}

impl LlmProvider {
    /// Code of the provider.
    pub fn as_code(&self) -> (s: &'static str)
        ensures
            s@ == provider_code(*self),
    {
        match self {
            LlmProvider::Gpt => "GPT",
            LlmProvider::Gemini => "GEMINI",
            LlmProvider::Grok => "GROK",
            LlmProvider::HuggingFace => "HUGGINGFACE",
        }
    }

    /// The provider named by `code` or one of its aliases, compared after
    /// ASCII uppercasing.
    pub fn from_code(code: &str) -> (r: Option<Self>)
        ensures
            r == provider_of_code(upper_seq(code@)),
    {
        let u = to_ascii_upper(code);
        let u = u.as_str();
        if str_eq(u, "GPT") || str_eq(u, "OPENAI") {
            Some(LlmProvider::Gpt)
        } else if str_eq(u, "GEMINI") || str_eq(u, "GOOGLE") {
            Some(LlmProvider::Gemini)
        } else if str_eq(u, "GROK") || str_eq(u, "XAI") {
            Some(LlmProvider::Grok)
        } else if str_eq(u, "HUGGINGFACE") || str_eq(u, "HF") {
            Some(LlmProvider::HuggingFace)
        } else {
            None
        }
    }
}

/// Reading back a provider's code gives that provider.
pub proof fn lemma_provider_code_round_trip(p: LlmProvider)
    ensures
        provider_of_code(upper_seq(provider_code(p))) == Some(p),
{
    reveal_strlit("GPT");
    reveal_strlit("OPENAI");
    reveal_strlit("GEMINI");
    reveal_strlit("GOOGLE");
    reveal_strlit("GROK");
    reveal_strlit("XAI");
    reveal_strlit("HUGGINGFACE");
    reveal_strlit("HF");
    assert("GPT"@.len() == 3 && "OPENAI"@.len() == 6 && "GEMINI"@.len() == 6 && "GOOGLE"@.len() == 6);
    assert("GROK"@.len() == 4 && "XAI"@.len() == 3 && "HUGGINGFACE"@.len() == 11 && "HF"@.len() == 2);
    assert("GEMINI"@[0] == 'G' && "OPENAI"@[0] == 'O' && "GOOGLE"@[1] == 'O' && "GEMINI"@[1] == 'E');
    assert("GPT"@[0] == 'G' && "XAI"@[0] == 'X' && "GROK"@[0] == 'G' && "HF"@[0] == 'H');
    assert(upper_seq(provider_code(p)) =~= provider_code(p));
}

} // verus!
