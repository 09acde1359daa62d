//! Checks on configuration that the receiver loads at start-up.
use vstd::prelude::*;
use crate::text::{chars_of, is_unicode_whitespace, lemma_trim_both_empty, trim_both, trim_chars, CharClass};

verus! {

/// Where accepted emails are posted.
pub struct WebhookConfig {
    pub url: String,
}

/// Why a configuration was refused.
#[derive(Clone, Copy, Debug, PartialEq, Eq, Structural)]
pub enum ConfigError {
    /// The webhook URL is empty or only white space.
    EmptyWebhookUrl,
}

/// A webhook URL is usable when something other than white space remains of it.
pub open spec fn usable_url(url: Seq<char>) -> bool {
    trim_both(url, CharClass::Whitespace).len() > 0
}

/// The webhook configuration, if its URL is usable.
pub fn check_webhook_config(config: WebhookConfig) -> (r: Result<WebhookConfig, ConfigError>)
    ensures
        r is Ok <==> usable_url(config.url@),
        r matches Ok(c) ==> c.url@ == config.url@,
        r matches Err(e) ==> e == ConfigError::EmptyWebhookUrl,
{
    let trimmed = trim_chars(&chars_of(config.url.as_str()), CharClass::Whitespace);
    if trimmed.len() == 0 {
        Err(ConfigError::EmptyWebhookUrl)
    } else {
        Ok(config)
    }
}

/// Law: a webhook URL is refused exactly when it holds nothing but white space (the empty
/// URL included); every URL with some other character is accepted as it is, whatever its
/// scheme or form.
pub proof fn law_webhook_url_refused_only_when_blank(url: Seq<char>)
    ensures
        usable_url(url) <==> exists|i: int| 0 <= i < url.len() && !is_unicode_whitespace(
            #[trigger] url[i],
        ),
{
    lemma_trim_both_empty(url, CharClass::Whitespace);
}

} // verus!
