//! What the configuration commands decide: which kernel setting a
//! `moeb configure KEY VALUE` sets, which adapter setting a
//! `moeb adapter NAME config KEY VALUE` sets, what `moeb adapter NAME release`
//! removes, and how `moeb use NAME` treats the API key it is given.

use vstd::prelude::*;

use crate::config::{log_file_content_of, prompt_cache_of, run_retention_of, AdapterConfig, MoebConfig, Secrets};
use crate::numbers::{map_ascii_case, parse_i32, parse_signed, parse_u32, parse_u64, parse_unsigned, to_ascii_lower, to_ascii_upper};
use crate::text::{append_signed, signed_decimal, str_eq, trim_class, trim_str, CharClass};

verus! {

// ── Kernel settings ───────────────────────────────────────────────────────────

/// A kernel setting and its new value.
#[derive(Debug, Clone, Copy, PartialEq, Eq, Structural)]
pub enum KernelSetting {
    /// Traces kept per specification: -1 for all, 0 for none.
    RunRetention(i32),
    /// Whether traces embed file contents.
    LogFileContent(bool),
    /// Whether prompt caching is requested.
    PromptCache(bool),
}

/// Why a kernel setting was refused.
#[derive(Debug, Clone)]
pub enum ConfigureError {
    /// The retention value is not an integer.
    RetentionNotInteger { value: String },
    /// The retention value is below -1.
    RetentionBelowMinusOne,
    /// The file-content value is neither `true` nor `false`.
    LogFileContentNotBool { value: String },
    /// The prompt-cache value is not one of the accepted words.
    PromptCacheNotBool { value: String },
    /// The key names no kernel setting; `key` is in upper case.
    UnknownKey { key: String },
}

/// Mathematical model of a [`ConfigureError`].
pub enum ConfigureErrorView {
    RetentionNotInteger { value: Seq<char> },
    RetentionBelowMinusOne,
    LogFileContentNotBool { value: Seq<char> },
    PromptCacheNotBool { value: Seq<char> },
    UnknownKey { key: Seq<char> },
}

impl View for ConfigureError {
    type V = ConfigureErrorView;

    open spec fn view(&self) -> ConfigureErrorView {
        match self {
            ConfigureError::RetentionNotInteger { value } => ConfigureErrorView::RetentionNotInteger { value: value@ },
            ConfigureError::RetentionBelowMinusOne => ConfigureErrorView::RetentionBelowMinusOne,
            ConfigureError::LogFileContentNotBool { value } => ConfigureErrorView::LogFileContentNotBool { value: value@ },
            ConfigureError::PromptCacheNotBool { value } => ConfigureErrorView::PromptCacheNotBool { value: value@ },
            ConfigureError::UnknownKey { key } => ConfigureErrorView::UnknownKey { key: key@ },
        }
    }
}

/// The words accepted as `true` for the prompt cache.
pub open spec fn cache_true_word(w: Seq<char>) -> bool {
    w == "true"@ || w == "1"@ || w == "yes"@
}

/// The words accepted as `false` for the prompt cache.
pub open spec fn cache_false_word(w: Seq<char>) -> bool {
    w == "false"@ || w == "0"@ || w == "no"@
}

/// The kernel setting that `KEY VALUE` denotes: the key is matched without
/// regard to ASCII case, and so are the boolean values.
pub open spec fn kernel_setting_of(key: Seq<char>, value: Seq<char>) -> Result<KernelSetting, ConfigureErrorView> {
    let k = to_ascii_upper(key);
    let lv = to_ascii_lower(value);
    if k == "RUN_RETENTION"@ {
        match parse_signed(value, i32::MIN as int, i32::MAX as int) {
            None => Err(ConfigureErrorView::RetentionNotInteger { value: value }),
            Some(n) => if n < -1 {
                Err(ConfigureErrorView::RetentionBelowMinusOne)
            } else {
                Ok(KernelSetting::RunRetention(n as i32))
            },
        }
    } else if k == "LOG_FILE_CONTENT"@ {
        if lv == "true"@ {
            Ok(KernelSetting::LogFileContent(true))
        } else if lv == "false"@ {
            Ok(KernelSetting::LogFileContent(false))
        } else {
            Err(ConfigureErrorView::LogFileContentNotBool { value: value })
        }
    } else if k == "PROMPT_CACHE"@ {
        if cache_true_word(lv) {
            Ok(KernelSetting::PromptCache(true))
        } else if cache_false_word(lv) {
            Ok(KernelSetting::PromptCache(false))
        } else {
            Err(ConfigureErrorView::PromptCacheNotBool { value: value })
        }
    } else {
        Err(ConfigureErrorView::UnknownKey { key: k })
    }
}

/// `moeb configure PROMPT_CACHE VALUE`, the key in any ASCII case, takes
/// `true`, `1` and `yes` as true and `false`, `0` and `no` as false, each in
/// any ASCII case, and refuses any other value with the value named.
pub proof fn law_prompt_cache_words(key: Seq<char>, value: Seq<char>)
    requires
        to_ascii_upper(key) == "PROMPT_CACHE"@,
    ensures
        (to_ascii_lower(value) == "true"@ || to_ascii_lower(value) == "1"@ || to_ascii_lower(value) == "yes"@)
            ==> kernel_setting_of(key, value) == Ok::<KernelSetting, ConfigureErrorView>(KernelSetting::PromptCache(true)),
        (to_ascii_lower(value) == "false"@ || to_ascii_lower(value) == "0"@ || to_ascii_lower(value) == "no"@)
            ==> kernel_setting_of(key, value) == Ok::<KernelSetting, ConfigureErrorView>(KernelSetting::PromptCache(false)),
        !(to_ascii_lower(value) == "true"@ || to_ascii_lower(value) == "1"@ || to_ascii_lower(value) == "yes"@
            || to_ascii_lower(value) == "false"@ || to_ascii_lower(value) == "0"@ || to_ascii_lower(value) == "no"@)
            ==> kernel_setting_of(key, value) == Err::<KernelSetting, ConfigureErrorView>(
            ConfigureErrorView::PromptCacheNotBool { value: value },
        ),
{
    reveal_strlit("PROMPT_CACHE");
    reveal_strlit("RUN_RETENTION");
    reveal_strlit("LOG_FILE_CONTENT");
    reveal_strlit("true");
    reveal_strlit("false");
    reveal_strlit("1");
    reveal_strlit("0");
    reveal_strlit("yes");
    reveal_strlit("no");
    assert(to_ascii_upper(key) != "RUN_RETENTION"@) by {
        assert(to_ascii_upper(key)[0] != "RUN_RETENTION"@[0]);
    }
    assert(to_ascii_upper(key) != "LOG_FILE_CONTENT"@) by {
        assert(to_ascii_upper(key)[0] != "LOG_FILE_CONTENT"@[0]);
    }
    let lv = to_ascii_lower(value);
    if lv == "false"@ || lv == "0"@ || lv == "no"@ {
        assert(!cache_true_word(lv)) by {
            assert("false"@.len() != "true"@.len() && "false"@.len() != "1"@.len() && "false"@.len() != "yes"@.len());
            assert("0"@[0] != "1"@[0]);
            assert("no"@.len() != "true"@.len() && "no"@.len() != "1"@.len() && "no"@.len() != "yes"@.len());
        }
    }
}

/// `moeb configure LOG_FILE_CONTENT VALUE`, the key in any ASCII case, takes
/// `true` and `false` in any ASCII case and refuses anything else.
pub proof fn law_log_file_content_words(key: Seq<char>, value: Seq<char>)
    requires
        to_ascii_upper(key) == "LOG_FILE_CONTENT"@,
    ensures
        to_ascii_lower(value) == "true"@ ==> kernel_setting_of(key, value) == Ok::<KernelSetting, ConfigureErrorView>(
            KernelSetting::LogFileContent(true),
        ),
        to_ascii_lower(value) == "false"@ ==> kernel_setting_of(key, value) == Ok::<KernelSetting, ConfigureErrorView>(
            KernelSetting::LogFileContent(false),
        ),
        !(to_ascii_lower(value) == "true"@ || to_ascii_lower(value) == "false"@) ==> kernel_setting_of(key, value)
            == Err::<KernelSetting, ConfigureErrorView>(ConfigureErrorView::LogFileContentNotBool { value: value }),
{
    reveal_strlit("RUN_RETENTION");
    reveal_strlit("LOG_FILE_CONTENT");
    reveal_strlit("true");
    reveal_strlit("false");
    assert(to_ascii_upper(key) != "RUN_RETENTION"@) by {
        assert(to_ascii_upper(key)[0] != "RUN_RETENTION"@[0]);
    }
    assert("false"@ != "true"@) by {
        assert("false"@.len() != "true"@.len());
    }
}

/// The setting that `moeb configure KEY VALUE` makes, or why it is refused.
pub fn parse_kernel_setting(key: &str, value: &str) -> (r: Result<KernelSetting, ConfigureError>)
    ensures
        match r {
            Ok(s) => kernel_setting_of(key@, value@) == Ok::<KernelSetting, ConfigureErrorView>(s),
            Err(e) => kernel_setting_of(key@, value@) == Err::<KernelSetting, ConfigureErrorView>(e@),
        },
{
    let k = map_ascii_case(key, true);
    let lv = map_ascii_case(value, false);
    proof {
        reveal_strlit("RUN_RETENTION");
        reveal_strlit("LOG_FILE_CONTENT");
        reveal_strlit("PROMPT_CACHE");
        reveal_strlit("true");
        reveal_strlit("false");
        reveal_strlit("1");
        reveal_strlit("yes");
        reveal_strlit("0");
        reveal_strlit("no");
    }
    if str_eq(k.as_str(), "RUN_RETENTION") {
        match parse_i32(value) {
            None => Err(ConfigureError::RetentionNotInteger { value: String::from_str(value) }),
            Some(n) => if n < -1 {
                Err(ConfigureError::RetentionBelowMinusOne)
            } else {
                Ok(KernelSetting::RunRetention(n))
            },
        }
    } else if str_eq(k.as_str(), "LOG_FILE_CONTENT") {
        if str_eq(lv.as_str(), "true") {
            Ok(KernelSetting::LogFileContent(true))
        } else if str_eq(lv.as_str(), "false") {
            Ok(KernelSetting::LogFileContent(false))
        } else {
            Err(ConfigureError::LogFileContentNotBool { value: String::from_str(value) })
        }
    } else if str_eq(k.as_str(), "PROMPT_CACHE") {
        if str_eq(lv.as_str(), "true") || str_eq(lv.as_str(), "1") || str_eq(lv.as_str(), "yes") {
            Ok(KernelSetting::PromptCache(true))
        } else if str_eq(lv.as_str(), "false") || str_eq(lv.as_str(), "0") || str_eq(lv.as_str(), "no") {
            Ok(KernelSetting::PromptCache(false))
        } else {
            Err(ConfigureError::PromptCacheNotBool { value: String::from_str(value) })
        }
    } else {
        Err(ConfigureError::UnknownKey { key: k })
    }
}

/// The text of a refusal, as `moeb configure` reports it.
pub open spec fn configure_error_text(e: ConfigureErrorView) -> Seq<char> {
    match e {
        ConfigureErrorView::RetentionNotInteger { value } => "RUN_RETENTION requires an integer value (e.g. -1, 0, 10). Got: \""@
            + value + "\""@,
        ConfigureErrorView::RetentionBelowMinusOne => "RUN_RETENTION must be -1 (unlimited), 0 (disabled), or a positive integer."@,
        ConfigureErrorView::LogFileContentNotBool { value } => "LOG_FILE_CONTENT requires true or false. Got: \""@ + value
            + "\""@,
        ConfigureErrorView::PromptCacheNotBool { value } => "Invalid value '"@ + value + "' for PROMPT_CACHE. Use true or false."@,
        ConfigureErrorView::UnknownKey { key } => "Unknown configuration key \""@ + key
            + "\". Valid keys: RUN_RETENTION, LOG_FILE_CONTENT, PROMPT_CACHE"@,
    }
}

impl ConfigureError {
    /// The refusal as a sentence.
    pub fn message(&self) -> (r: String)
        ensures
            r@ == configure_error_text(self@),
    {
        match self {
            ConfigureError::RetentionNotInteger { value } => {
                let mut s = String::from_str("RUN_RETENTION requires an integer value (e.g. -1, 0, 10). Got: \"");
                s.append(value.as_str());
                s.append("\"");
                s
            },
            ConfigureError::RetentionBelowMinusOne => String::from_str(
                "RUN_RETENTION must be -1 (unlimited), 0 (disabled), or a positive integer.",
            ),
            ConfigureError::LogFileContentNotBool { value } => {
                let mut s = String::from_str("LOG_FILE_CONTENT requires true or false. Got: \"");
                s.append(value.as_str());
                s.append("\"");
                s
            },
            ConfigureError::PromptCacheNotBool { value } => {
                let mut s = String::from_str("Invalid value '");
                s.append(value.as_str());
                s.append("' for PROMPT_CACHE. Use true or false.");
                s
            },
            ConfigureError::UnknownKey { key } => {
                let mut s = String::from_str("Unknown configuration key \"");
                s.append(key.as_str());
                s.append("\". Valid keys: RUN_RETENTION, LOG_FILE_CONTENT, PROMPT_CACHE");
                s
            },
        }
    }
}

/// The text of a boolean.
pub open spec fn bool_text(b: bool) -> Seq<char> {
    if b {
        "true"@
    } else {
        "false"@
    }
}

fn append_bool(out: &mut String, b: bool)
    ensures
        final(out)@ == old(out)@ + bool_text(b),
{
    if b {
        out.append("true");
    } else {
        out.append("false");
    }
}

impl MoebConfig {
    /// Stores a kernel setting.
    pub fn apply_kernel_setting(&mut self, setting: KernelSetting)
        ensures
            kernel_setting_stored(*old(self), *final(self), setting),
            final(self).active_adapter == old(self).active_adapter,
            final(self).spec_retry_limit == old(self).spec_retry_limit,
            final(self).compaction_enabled == old(self).compaction_enabled,
            final(self).compaction_threshold == old(self).compaction_threshold,
            final(self).compaction_keep_turns == old(self).compaction_keep_turns,
            final(self).adapters.map_view() == old(self).adapters.map_view(),
    {
        match setting {
            KernelSetting::RunRetention(n) => self.run_retention = Some(n),
            KernelSetting::LogFileContent(b) => self.log_file_content = Some(b),
            KernelSetting::PromptCache(b) => self.prompt_cache = Some(b),
        }
    }
}

/// `after` is `before` with `setting` stored: its key holds the new value,
/// and the other two kernel settings are unchanged.
pub open spec fn kernel_setting_stored(before: MoebConfig, after: MoebConfig, setting: KernelSetting) -> bool {
    match setting {
        KernelSetting::RunRetention(n) => after.run_retention == Some(n) && after.log_file_content
            == before.log_file_content && after.prompt_cache == before.prompt_cache,
        KernelSetting::LogFileContent(b) => after.log_file_content == Some(b) && after.run_retention
            == before.run_retention && after.prompt_cache == before.prompt_cache,
        KernelSetting::PromptCache(b) => after.prompt_cache == Some(b) && after.run_retention == before.run_retention
            && after.log_file_content == before.log_file_content,
    }
}

/// A stored kernel setting is the effective value of its key from then on,
/// and the effective values of the other kernel keys do not change.
pub proof fn law_kernel_setting_takes_effect(before: MoebConfig, after: MoebConfig, setting: KernelSetting)
    requires
        kernel_setting_stored(before, after, setting),
    ensures
        match setting {
            KernelSetting::RunRetention(n) => run_retention_of(after) == n && log_file_content_of(after)
                == log_file_content_of(before) && prompt_cache_of(after) == prompt_cache_of(before),
            KernelSetting::LogFileContent(b) => log_file_content_of(after) == b && run_retention_of(after)
                == run_retention_of(before) && prompt_cache_of(after) == prompt_cache_of(before),
            KernelSetting::PromptCache(b) => prompt_cache_of(after) == b && run_retention_of(after) == run_retention_of(
                before,
            ) && log_file_content_of(after) == log_file_content_of(before),
        },
{
}

/// The line `moeb configure` prints once a setting is stored; the prompt
/// cache reports its effective value `effective_prompt_cache`.
pub open spec fn kernel_confirmation_text(setting: KernelSetting, effective_prompt_cache: bool) -> Seq<char> {
    match setting {
        KernelSetting::RunRetention(n) => "RUN_RETENTION set to "@ + signed_decimal(n as int) + "."@,
        KernelSetting::LogFileContent(b) => "LOG_FILE_CONTENT set to "@ + bool_text(b) + "."@,
        KernelSetting::PromptCache(_) => "PROMPT_CACHE set to "@ + bool_text(effective_prompt_cache),
    }
}

/// The line `moeb configure` prints once `setting` is stored in `config`.
pub fn kernel_confirmation(setting: KernelSetting, config: &MoebConfig) -> (r: String)
    ensures
        r@ == kernel_confirmation_text(
            setting,
            match config.prompt_cache {
                Some(b) => b,
                None => true,
            },
        ),
{
    match setting {
        KernelSetting::RunRetention(n) => {
            let mut s = String::from_str("RUN_RETENTION set to ");
            append_signed(&mut s, n as i64);
            s.append(".");
            s
        },
        KernelSetting::LogFileContent(b) => {
            let mut s = String::from_str("LOG_FILE_CONTENT set to ");
            append_bool(&mut s, b);
            s.append(".");
            s
        },
        KernelSetting::PromptCache(_) => {
            let mut s = String::from_str("PROMPT_CACHE set to ");
            append_bool(&mut s, config.effective_prompt_cache());
            s
        },
    }
}

// ── Adapter settings ──────────────────────────────────────────────────────────

/// The adapters whose settings `moeb adapter` manages: every adapter that
/// `moeb use` accepts.
pub open spec fn managed_adapter(name: Seq<char>) -> bool {
    name == "openai"@ || name == "anthropic"@ || name == "gemini"@ || name == "ollama"@
}

/// The adapters that take a request timeout.
pub open spec fn timed_adapter(name: Seq<char>) -> bool {
    name == "anthropic"@ || name == "gemini"@
}

/// A setting of an adapter.
#[derive(Debug, Clone, Copy, PartialEq, Eq, Structural)]
pub enum AdapterKey {
    Model,
    Retries,
    Timeout,
}

/// The keys an adapter accepts, in the order they are listed.
pub open spec fn adapter_keys(adapter: Seq<char>) -> Seq<AdapterKey> {
    if timed_adapter(adapter) {
        seq![AdapterKey::Model, AdapterKey::Retries, AdapterKey::Timeout]
    } else if adapter == "openai"@ || adapter == "ollama"@ {
        seq![AdapterKey::Model, AdapterKey::Retries]
    } else {
        seq![]
    }
}

/// The key that `key` names for `adapter`, matched without regard to ASCII case.
pub open spec fn adapter_key_of(adapter: Seq<char>, key: Seq<char>) -> Option<AdapterKey> {
    let ks = adapter_keys(adapter);
    let k = to_ascii_upper(key);
    if ks.contains(AdapterKey::Model) && k == "MODEL"@ {
        Some(AdapterKey::Model)
    } else if ks.contains(AdapterKey::Retries) && k == "RETRIES"@ {
        Some(AdapterKey::Retries)
    } else if ks.contains(AdapterKey::Timeout) && k == "TIMEOUT"@ {
        Some(AdapterKey::Timeout)
    } else {
        None
    }
}

/// A new value for an adapter setting.
#[derive(Debug, Clone)]
pub enum AdapterSetting {
    Model(String),
    Retries(u32),
    Timeout(u64),
}

/// Why an adapter command was refused.
#[derive(Debug, Clone)]
pub enum AdapterError {
    /// The adapter is not one that `moeb adapter` manages.
    UnknownAdapter { adapter: String },
    /// The key is not one the adapter accepts.
    UnknownKey { key: String, adapter: String },
    /// The model name is blank.
    EmptyModel,
    /// The retry count is not a non-negative integer.
    BadRetries { value: String, adapter: String },
    /// The timeout is not a non-negative integer.
    BadTimeout { value: String, adapter: String },
}

/// Mathematical model of an [`AdapterError`].
pub enum AdapterErrorView {
    UnknownAdapter { adapter: Seq<char> },
    UnknownKey { key: Seq<char>, adapter: Seq<char> },
    EmptyModel,
    BadRetries { value: Seq<char>, adapter: Seq<char> },
    BadTimeout { value: Seq<char>, adapter: Seq<char> },
}

impl View for AdapterError {
    type V = AdapterErrorView;

    open spec fn view(&self) -> AdapterErrorView {
        match self {
            AdapterError::UnknownAdapter { adapter } => AdapterErrorView::UnknownAdapter { adapter: adapter@ },
            AdapterError::UnknownKey { key, adapter } => AdapterErrorView::UnknownKey { key: key@, adapter: adapter@ },
            AdapterError::EmptyModel => AdapterErrorView::EmptyModel,
            AdapterError::BadRetries { value, adapter } => AdapterErrorView::BadRetries {
                value: value@,
                adapter: adapter@,
            },
            AdapterError::BadTimeout { value, adapter } => AdapterErrorView::BadTimeout {
                value: value@,
                adapter: adapter@,
            },
        }
    }
}

/// The key of `moeb adapter ADAPTER config KEY ...`, or why it is refused.
pub fn adapter_key(adapter: &str, key: &str) -> (r: Result<AdapterKey, AdapterError>)
    ensures
        match r {
            Ok(k) => managed_adapter(adapter@) && adapter_key_of(adapter@, key@) == Some(k),
            Err(e) => if !managed_adapter(adapter@) {
                e@ == (AdapterErrorView::UnknownAdapter { adapter: adapter@ })
            } else {
                adapter_key_of(adapter@, key@) is None && e@ == (AdapterErrorView::UnknownKey {
                    key: key@,
                    adapter: adapter@,
                })
            },
        },
{
    proof {
        reveal_strlit("openai");
        reveal_strlit("anthropic");
        reveal_strlit("ollama");
        reveal_strlit("gemini");
        reveal_strlit("MODEL");
        reveal_strlit("RETRIES");
        reveal_strlit("TIMEOUT");
    }
    let has_timeout = str_eq(adapter, "anthropic") || str_eq(adapter, "gemini");
    if !(str_eq(adapter, "openai") || has_timeout || str_eq(adapter, "ollama")) {
        return Err(AdapterError::UnknownAdapter { adapter: String::from_str(adapter) });
    }
    let k = map_ascii_case(key, true);
    proof {
        assert(adapter_keys(adapter@).contains(AdapterKey::Model)) by {
            assert(adapter_keys(adapter@)[0] == AdapterKey::Model);
        }
        assert(adapter_keys(adapter@).contains(AdapterKey::Retries)) by {
            assert(adapter_keys(adapter@)[1] == AdapterKey::Retries);
        }
        if has_timeout {
            assert(adapter_keys(adapter@)[2] == AdapterKey::Timeout);
        } else {
            assert(!adapter_keys(adapter@).contains(AdapterKey::Timeout)) by {
                assert forall|i: int| 0 <= i < adapter_keys(adapter@).len() implies adapter_keys(adapter@)[i]
                    != AdapterKey::Timeout by {}
            }
        }
    }
    if str_eq(k.as_str(), "MODEL") {
        Ok(AdapterKey::Model)
    } else if str_eq(k.as_str(), "RETRIES") {
        Ok(AdapterKey::Retries)
    } else if has_timeout && str_eq(k.as_str(), "TIMEOUT") {
        Ok(AdapterKey::Timeout)
    } else {
        Err(AdapterError::UnknownKey { key: String::from_str(key), adapter: String::from_str(adapter) })
    }
}

/// The value that `VALUE` gives the setting `key` of `adapter`: a model
/// name that is not blank (kept as given), or a count read after trimming
/// white space.
pub open spec fn adapter_value_of(adapter: Seq<char>, key: AdapterKey, value: Seq<char>) -> Result<
    AdapterValue,
    AdapterErrorView,
> {
    match key {
        AdapterKey::Model => if trim_class(value, CharClass::Space).len() == 0 {
            Err(AdapterErrorView::EmptyModel)
        } else {
            Ok(AdapterValue::Model(value))
        },
        AdapterKey::Retries => match parse_unsigned(trim_class(value, CharClass::Space), u32::MAX as nat) {
            Some(n) => Ok(AdapterValue::Retries(n)),
            None => Err(AdapterErrorView::BadRetries { value: value, adapter: adapter }),
        },
        AdapterKey::Timeout => match parse_unsigned(trim_class(value, CharClass::Space), u64::MAX as nat) {
            Some(n) => Ok(AdapterValue::Timeout(n)),
            None => Err(AdapterErrorView::BadTimeout { value: value, adapter: adapter }),
        },
    }
}

/// Mathematical model of an [`AdapterSetting`].
pub enum AdapterValue {
    Model(Seq<char>),
    Retries(nat),
    Timeout(nat),
}

impl View for AdapterSetting {
    type V = AdapterValue;

    open spec fn view(&self) -> AdapterValue {
        match self {
            AdapterSetting::Model(m) => AdapterValue::Model(m@),
            AdapterSetting::Retries(n) => AdapterValue::Retries(*n as nat),
            AdapterSetting::Timeout(n) => AdapterValue::Timeout(*n as nat),
        }
    }
}

/// The new value of the setting `key` of `adapter`, or why it is refused.
pub fn adapter_value(adapter: &str, key: AdapterKey, value: &str) -> (r: Result<AdapterSetting, AdapterError>)
    ensures
        match r {
            Ok(s) => adapter_value_of(adapter@, key, value@) == Ok::<AdapterValue, AdapterErrorView>(s@),
            Err(e) => adapter_value_of(adapter@, key, value@) == Err::<AdapterValue, AdapterErrorView>(e@),
        },
{
    let t = trim_str(value);
    match key {
        AdapterKey::Model => {
            if t.as_str().is_empty() {
                Err(AdapterError::EmptyModel)
            } else {
                Ok(AdapterSetting::Model(String::from_str(value)))
            }
        },
        AdapterKey::Retries => match parse_u32(t.as_str()) {
            Some(n) => Ok(AdapterSetting::Retries(n)),
            None => Err(AdapterError::BadRetries { value: String::from_str(value), adapter: String::from_str(adapter) }),
        },
        AdapterKey::Timeout => match parse_u64(t.as_str()) {
            Some(n) => Ok(AdapterSetting::Timeout(n)),
            None => Err(AdapterError::BadTimeout { value: String::from_str(value), adapter: String::from_str(adapter) }),
        },
    }
}

/// The settings of `adapter` in `c`, or empty settings when it has none.
pub open spec fn settings_of(c: MoebConfig, adapter: Seq<char>) -> AdapterConfig {
    if c.adapters.map_view().contains_key(adapter) {
        c.adapters.map_view()[adapter]
    } else {
        AdapterConfig { model: None, retries: None, timeout_secs: None }
    }
}

/// Adapter settings `a` with `setting` stored in them.
pub open spec fn with_setting(a: AdapterConfig, setting: AdapterSetting) -> AdapterConfig {
    match setting {
        AdapterSetting::Model(m) => AdapterConfig { model: Some(m), ..a },
        AdapterSetting::Retries(n) => AdapterConfig { retries: Some(n), ..a },
        AdapterSetting::Timeout(n) => AdapterConfig { timeout_secs: Some(n), ..a },
    }
}

impl MoebConfig {
    /// Stores `setting` among the settings of `adapter`, which get an entry
    /// if they had none; nothing else changes.
    pub fn apply_adapter_setting(&mut self, adapter: &str, setting: AdapterSetting)
        ensures
            final(self).adapters.map_view() == old(self).adapters.map_view().insert(
                adapter@,
                with_setting(settings_of(*old(self), adapter@), setting),
            ),
            final(self).active_adapter == old(self).active_adapter,
            final(self).spec_retry_limit == old(self).spec_retry_limit,
            final(self).run_retention == old(self).run_retention,
            final(self).log_file_content == old(self).log_file_content,
            final(self).prompt_cache == old(self).prompt_cache,
            final(self).compaction_enabled == old(self).compaction_enabled,
            final(self).compaction_threshold == old(self).compaction_threshold,
            final(self).compaction_keep_turns == old(self).compaction_keep_turns,
    {
        let current = self.adapter_config(adapter);
        let updated = match setting {
            AdapterSetting::Model(m) => AdapterConfig { model: Some(m), ..current },
            AdapterSetting::Retries(n) => AdapterConfig { retries: Some(n), ..current },
            AdapterSetting::Timeout(n) => AdapterConfig { timeout_secs: Some(n), ..current },
        };
        self.adapters.insert(String::from_str(adapter), updated);
    }

    /// Forgets that `adapter` is the active adapter, if it is; says whether
    /// it was.
    pub fn release_active(&mut self, adapter: &str) -> (r: bool)
        ensures
            r == (old(self).active_adapter matches Some(a) && a@ == adapter@),
            r ==> final(self).active_adapter is None,
            !r ==> final(self).active_adapter == old(self).active_adapter,
            final(self).spec_retry_limit == old(self).spec_retry_limit,
            final(self).run_retention == old(self).run_retention,
            final(self).adapters.map_view() == old(self).adapters.map_view(),
    {
        let is_active = match &self.active_adapter {
            Some(a) => str_eq(a.as_str(), adapter),
            None => false,
        };
        if is_active {
            self.active_adapter = None;
        }
        is_active
    }
}

/// The secret that `moeb adapter ADAPTER release` removes: the API key of an
/// adapter that has one.
pub open spec fn release_secret_of(adapter: Seq<char>) -> Option<Seq<char>> {
    if adapter == "openai"@ {
        Some("OPENAI_API_KEY"@)
    } else if adapter == "anthropic"@ {
        Some("ANTHROPIC_API_KEY"@)
    } else if adapter == "gemini"@ {
        Some("GEMINI_API_KEY"@)
    } else {
        None
    }
}

/// The secret to remove on `moeb adapter ADAPTER release`, if any, or why
/// the command is refused.
pub fn release_secret(adapter: &str) -> (r: Result<Option<&'static str>, AdapterError>)
    ensures
        match r {
            Ok(k) => managed_adapter(adapter@) && match (k, release_secret_of(adapter@)) {
                (Some(a), Some(b)) => a@ == b,
                (None, None) => true,
                _ => false,
            },
            Err(e) => !managed_adapter(adapter@) && e@ == (AdapterErrorView::UnknownAdapter { adapter: adapter@ }),
        },
{
    proof {
        reveal_strlit("openai");
        reveal_strlit("anthropic");
        reveal_strlit("ollama");
        reveal_strlit("gemini");
    }
    if str_eq(adapter, "openai") {
        Ok(Some("OPENAI_API_KEY"))
    } else if str_eq(adapter, "anthropic") {
        Ok(Some("ANTHROPIC_API_KEY"))
    } else if str_eq(adapter, "gemini") {
        Ok(Some("GEMINI_API_KEY"))
    } else if str_eq(adapter, "ollama") {
        Ok(None)
    } else {
        Err(AdapterError::UnknownAdapter { adapter: String::from_str(adapter) })
    }
}

/// The keys an adapter accepts, as a refusal lists them.
pub open spec fn adapter_keys_text(adapter: Seq<char>) -> Seq<char> {
    if timed_adapter(adapter) {
        "MODEL, RETRIES, TIMEOUT"@
    } else if adapter == "openai"@ || adapter == "ollama"@ {
        "MODEL, RETRIES"@
    } else {
        seq![]
    }
}

/// The text of a refusal, as `moeb adapter` reports it.
pub open spec fn adapter_error_text(e: AdapterErrorView) -> Seq<char> {
    match e {
        AdapterErrorView::UnknownAdapter { adapter } => "Unknown adapter '"@ + adapter
            + "'. Known adapters: openai, anthropic, gemini, ollama"@,
        AdapterErrorView::UnknownKey { key, adapter } => "Unknown key '"@ + key + "'. Valid keys for "@ + adapter
            + ": "@ + adapter_keys_text(adapter),
        AdapterErrorView::EmptyModel => "MODEL value must not be empty."@,
        AdapterErrorView::BadRetries { value, adapter } => "RETRIES requires a non-negative integer, got '"@ + value
            + "'. Example: moeb adapter "@ + adapter + " config RETRIES 3"@,
        AdapterErrorView::BadTimeout { value, adapter } => "TIMEOUT requires a positive integer (seconds), got '"@
            + value + "'. Example: moeb adapter "@ + adapter + " config TIMEOUT 600"@,
    }
}

fn append_adapter_keys(out: &mut String, adapter: &str)
    ensures
        final(out)@ == old(out)@ + adapter_keys_text(adapter@),
{
    proof {
        reveal_strlit("anthropic");
        reveal_strlit("gemini");
        reveal_strlit("openai");
        reveal_strlit("ollama");
    }
    if str_eq(adapter, "anthropic") || str_eq(adapter, "gemini") {
        out.append("MODEL, RETRIES, TIMEOUT");
    } else if str_eq(adapter, "openai") || str_eq(adapter, "ollama") {
        out.append("MODEL, RETRIES");
    } else {
        proof {
            assert(old(out)@ + adapter_keys_text(adapter@) =~= old(out)@);
        }
    }
}

impl AdapterError {
    /// The refusal as a sentence.
    pub fn message(&self) -> (r: String)
        ensures
            r@ == adapter_error_text(self@),
    {
        match self {
            AdapterError::UnknownAdapter { adapter } => {
                let mut s = String::from_str("Unknown adapter '");
                s.append(adapter.as_str());
                s.append("'. Known adapters: openai, anthropic, gemini, ollama");
                s
            },
            AdapterError::UnknownKey { key, adapter } => {
                let mut s = String::from_str("Unknown key '");
                s.append(key.as_str());
                s.append("'. Valid keys for ");
                s.append(adapter.as_str());
                s.append(": ");
                append_adapter_keys(&mut s, adapter.as_str());
                s
            },
            AdapterError::EmptyModel => String::from_str("MODEL value must not be empty."),
            AdapterError::BadRetries { value, adapter } => {
                let mut s = String::from_str("RETRIES requires a non-negative integer, got '");
                s.append(value.as_str());
                s.append("'. Example: moeb adapter ");
                s.append(adapter.as_str());
                s.append(" config RETRIES 3");
                s
            },
            AdapterError::BadTimeout { value, adapter } => {
                let mut s = String::from_str("TIMEOUT requires a positive integer (seconds), got '");
                s.append(value.as_str());
                s.append("'. Example: moeb adapter ");
                s.append(adapter.as_str());
                s.append(" config TIMEOUT 600");
                s
            },
        }
    }
}

// ── `moeb use` ───────────────────────────────────────────────────────────────

/// The adapters `moeb use` can make active.
pub open spec fn usable_adapter(name: Seq<char>) -> bool {
    name == "openai"@ || name == "anthropic"@ || name == "gemini"@ || name == "ollama"@
}

/// The secret holding the API key of `adapter`, for the adapters that need one.
pub open spec fn credential_key_of(adapter: Seq<char>) -> Option<Seq<char>> {
    if adapter == "openai"@ {
        Some("OPENAI_API_KEY"@)
    } else if adapter == "anthropic"@ {
        Some("ANTHROPIC_API_KEY"@)
    } else if adapter == "gemini"@ {
        Some("GEMINI_API_KEY"@)
    } else {
        None
    }
}

/// The secret holding the API key of `adapter`.
pub fn credential_key_for(adapter: &str) -> (r: &'static str)
    requires
        credential_key_of(adapter@) is Some,
    ensures
        credential_key_of(adapter@) == Some(r@),
{
    proof {
        reveal_strlit("openai");
        reveal_strlit("anthropic");
        reveal_strlit("gemini");
    }
    if str_eq(adapter, "openai") {
        "OPENAI_API_KEY"
    } else if str_eq(adapter, "anthropic") {
        "ANTHROPIC_API_KEY"
    } else {
        "GEMINI_API_KEY"
    }
}

/// How `adapter` is shown to the user.
pub open spec fn display_name_of(adapter: Seq<char>) -> Seq<char> {
    if adapter == "openai"@ {
        "OpenAI"@
    } else if adapter == "anthropic"@ {
        "Anthropic"@
    } else if adapter == "gemini"@ {
        "Gemini"@
    } else if adapter == "ollama"@ {
        "Ollama"@
    } else {
        adapter
    }
}

/// How `adapter` is shown to the user.
pub fn adapter_display_name(adapter: &str) -> (r: String)
    ensures
        r@ == display_name_of(adapter@),
{
    proof {
        reveal_strlit("openai");
        reveal_strlit("anthropic");
        reveal_strlit("gemini");
        reveal_strlit("ollama");
    }
    if str_eq(adapter, "openai") {
        String::from_str("OpenAI")
    } else if str_eq(adapter, "anthropic") {
        String::from_str("Anthropic")
    } else if str_eq(adapter, "gemini") {
        String::from_str("Gemini")
    } else if str_eq(adapter, "ollama") {
        String::from_str("Ollama")
    } else {
        String::from_str(adapter)
    }
}

/// Why `moeb use` was refused.
#[derive(Debug, Clone)]
pub enum UseError {
    /// The adapter is not one `moeb use` knows.
    UnknownAdapter { adapter: String },
    /// No key was given and none is stored.
    EmptyKey,
}

/// Mathematical model of a [`UseError`].
pub enum UseErrorView {
    UnknownAdapter { adapter: Seq<char> },
    EmptyKey,
}

impl View for UseError {
    type V = UseErrorView;

    open spec fn view(&self) -> UseErrorView {
        match self {
            UseError::UnknownAdapter { adapter } => UseErrorView::UnknownAdapter { adapter: adapter@ },
            UseError::EmptyKey => UseErrorView::EmptyKey,
        }
    }
}

/// The text of a refusal, as `moeb use` reports it.
pub open spec fn use_error_text(e: UseErrorView) -> Seq<char> {
    match e {
        UseErrorView::UnknownAdapter { adapter } => "Unknown adapter '"@ + adapter
            + "'. Available adapters: openai, anthropic, gemini, ollama"@,
        UseErrorView::EmptyKey => "API key must not be empty."@,
    }
}

impl UseError {
    /// The refusal as a sentence.
    pub fn message(&self) -> (r: String)
        ensures
            r@ == use_error_text(self@),
    {
        match self {
            UseError::UnknownAdapter { adapter } => {
                let mut s = String::from_str("Unknown adapter '");
                s.append(adapter.as_str());
                s.append("'. Available adapters: openai, anthropic, gemini, ollama");
                s
            },
            UseError::EmptyKey => String::from_str("API key must not be empty."),
        }
    }
}

/// What `moeb use ADAPTER` needs: `Some` secret for an adapter that takes an
/// API key, `None` for one that runs locally; or why it is refused.
pub fn use_target(adapter: &str) -> (r: Result<Option<&'static str>, UseError>)
    ensures
        match r {
            Ok(k) => usable_adapter(adapter@) && match (k, credential_key_of(adapter@)) {
                (Some(a), Some(b)) => a@ == b,
                (None, None) => true,
                _ => false,
            },
            Err(e) => !usable_adapter(adapter@) && e@ == (UseErrorView::UnknownAdapter { adapter: adapter@ }),
        },
{
    proof {
        reveal_strlit("openai");
        reveal_strlit("anthropic");
        reveal_strlit("gemini");
        reveal_strlit("ollama");
    }
    if str_eq(adapter, "ollama") {
        proof {
            assert(adapter@ != "openai"@ && adapter@ != "anthropic"@ && adapter@ != "gemini"@) by {
                assert(adapter@[1] != "openai"@[1]);
                assert(adapter@[0] != "anthropic"@[0]);
                assert(adapter@[0] != "gemini"@[0]);
            }
        }
        Ok(None)
    } else if str_eq(adapter, "openai") || str_eq(adapter, "anthropic") || str_eq(adapter, "gemini") {
        Ok(Some(credential_key_for(adapter)))
    } else {
        Err(UseError::UnknownAdapter { adapter: String::from_str(adapter) })
    }
}

/// The prompt for the API key of `adapter`.
pub open spec fn key_prompt_text(adapter: Seq<char>, already_configured: bool) -> Seq<char> {
    if already_configured {
        "Enter new API key (or press Enter to keep the existing one): "@
    } else {
        "Enter "@ + display_name_of(adapter) + " API key: "@
    }
}

/// The prompt for the API key of `adapter`, which mentions keeping the
/// stored key when there is one.
pub fn key_prompt(adapter: &str, already_configured: bool) -> (r: String)
    ensures
        r@ == key_prompt_text(adapter@, already_configured),
{
    if already_configured {
        String::from_str("Enter new API key (or press Enter to keep the existing one): ")
    } else {
        let mut s = String::from_str("Enter ");
        let name = adapter_display_name(adapter);
        s.append(name.as_str());
        s.append(" API key: ");
        s
    }
}

/// What the key typed at the prompt does: a blank answer keeps the stored
/// key, or is refused when there is none; any other answer is stored with
/// surrounding white space removed.
pub open spec fn key_decision(input: Seq<char>, already_configured: bool) -> Result<Option<Seq<char>>, UseErrorView> {
    let t = trim_class(input, CharClass::Space);
    if t.len() == 0 {
        if already_configured {
            Ok(None)
        } else {
            Err(UseErrorView::EmptyKey)
        }
    } else {
        Ok(Some(t))
    }
}

/// The key to store for the answer `input`, `None` to keep the stored one.
pub fn decide_new_key(input: &str, already_configured: bool) -> (r: Result<Option<String>, UseError>)
    ensures
        match r {
            Ok(Some(k)) => key_decision(input@, already_configured) == Ok::<Option<Seq<char>>, UseErrorView>(Some(k@)),
            Ok(None) => key_decision(input@, already_configured) == Ok::<Option<Seq<char>>, UseErrorView>(None),
            Err(e) => key_decision(input@, already_configured) == Err::<Option<Seq<char>>, UseErrorView>(e@),
        },
{
    let t = trim_str(input);
    if t.as_str().is_empty() {
        if already_configured {
            Ok(None)
        } else {
            Err(UseError::EmptyKey)
        }
    } else {
        Ok(Some(t))
    }
}


/// `after` is `before` with `adapter` as the active adapter and nothing
/// else changed.
pub open spec fn activated(before: MoebConfig, after: MoebConfig, adapter: Seq<char>) -> bool {
    &&& after.active_adapter matches Some(a) && a@ == adapter
    &&& after.spec_retry_limit == before.spec_retry_limit
    &&& after.run_retention == before.run_retention
    &&& after.log_file_content == before.log_file_content
    &&& after.prompt_cache == before.prompt_cache
    &&& after.compaction_enabled == before.compaction_enabled
    &&& after.compaction_threshold == before.compaction_threshold
    &&& after.compaction_keep_turns == before.compaction_keep_turns
    &&& after.adapters.map_view() == before.adapters.map_view()
}

/// What `moeb use ADAPTER` does once the key prompt was answered with
/// `input` (there is no prompt, and `input` is not read, when `secret_key`,
/// the adapter's secret from [`use_target`], is `None`): the key is stored,
/// kept or refused as [`key_decision`] says; on success the adapter becomes
/// the active one, and on refusal nothing changes.
pub fn finish_use(
    secrets: &mut Secrets,
    config: &mut MoebConfig,
    adapter: &str,
    secret_key: Option<&str>,
    input: &str,
) -> (r: Result<(), UseError>)
    ensures
        match secret_key {
            None => r is Ok && final(secrets)@ == old(secrets)@,
            Some(k) => match key_decision(input@, old(secrets)@.contains_key(k@)) {
                Err(e) => (r matches Err(x) && x@ == e) && final(secrets)@ == old(secrets)@,
                Ok(None) => r is Ok && final(secrets)@ == old(secrets)@,
                Ok(Some(v)) => r is Ok && final(secrets)@ == old(secrets)@.insert(k@, v),
            },
        },
        final(secrets).path_view() == old(secrets).path_view(),
        r is Ok ==> activated(*old(config), *final(config), adapter@),
        r is Err ==> *final(config) == *old(config),
{
    if let Some(k) = secret_key {
        let already = secrets.get(k).is_some();
        match decide_new_key(input, already) {
            Err(e) => {
                return Err(e);
            },
            Ok(Some(v)) => {
                secrets.set(k, v.as_str());
            },
            Ok(None) => {},
        }
    }
    config.active_adapter = Some(String::from_str(adapter));
    Ok(())
}
} // verus!
