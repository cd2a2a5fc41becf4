//! The configuration of the policy, as far as its decisions read it.

use vstd::prelude::*;
use vstd::string::*;

use crate::codec::text_from_utf8_lossy;

verus! {

/// The settings of the policy.
#[derive(Clone, Debug)]
pub struct Config {
    pub data_blind_api_key: Option<String>,
    pub data_blind_api_uri: Option<String>,
    pub data_crypt_api_key: String,
    pub filter_rule: Option<Vec<String>>,
    pub policy_uses_mcp_response: bool,
    pub proxy_host: Option<String>,
    pub proxy_password: Option<String>,
    pub proxy_port: Option<String>,
    pub sensitive_fields_multi_line: Option<Vec<String>>,
    pub sensitive_fields_specified: bool,
}

/// What the decisions read of the settings.
#[verifier::ext_equal]
pub struct ConfigView {
    pub data_blind_api_key: Option<Seq<char>>,
    pub data_crypt_api_key: Seq<char>,
    pub filter_rule: Option<Seq<Seq<char>>>,
    pub policy_uses_mcp_response: bool,
    pub sensitive_fields_multi_line: Option<Seq<Seq<char>>>,
    pub sensitive_fields_specified: bool,
}

/// The text of a string that may be missing.
pub open spec fn option_text(text: Option<String>) -> Option<Seq<char>> {
    match text {
        Some(s) => Some(s@),
        None => None,
    }
}

/// The texts of lines that may be missing.
pub open spec fn option_lines(lines: Option<Vec<String>>) -> Option<Seq<Seq<char>>> {
    match lines {
        Some(v) => Some(crate::payload::texts(v@)),
        None => None,
    }
}

impl View for Config {
    type V = ConfigView;

    open spec fn view(&self) -> ConfigView {
        ConfigView {
            data_blind_api_key: option_text(self.data_blind_api_key),
            data_crypt_api_key: self.data_crypt_api_key@,
            filter_rule: option_lines(self.filter_rule),
            policy_uses_mcp_response: self.policy_uses_mcp_response,
            sensitive_fields_multi_line: option_lines(self.sensitive_fields_multi_line),
            sensitive_fields_specified: self.sensitive_fields_specified,
        }
    }
}

/// The value of configured lines, where there are any.
pub open spec fn configured_json(lines: Option<Seq<Seq<char>>>) -> Option<
    crate::json::JsonView,
> {
    match lines {
        Some(v) => if v.len() > 0 {
            Some(crate::payload::lines_json(v))
        } else {
            None
        },
        None => None,
    }
}

/// Reads configured lines as JSON, where there are any.
pub fn read_configured(lines: &Option<Vec<String>>) -> (r: Option<crate::json::Json>)
    ensures
        crate::codec::option_model(r) == configured_json(option_lines(*lines)),
{
    match lines {
        Some(v) => if v.len() > 0 {
            Some(crate::payload::parse_json_lines(v.as_slice()))
        } else {
            None
        },
        None => None,
    }
}

impl ConfigView {
    /// The key for the redaction service: its own, where one is set, else the key of the
    /// encryption service.
    pub open spec fn redaction_key(self) -> Seq<char> {
        match self.data_blind_api_key {
            Some(key) => if key.len() > 0 {
                key
            } else {
                self.data_crypt_api_key
            },
            None => self.data_crypt_api_key,
        }
    }
}

impl Config {
    /// The key for the redaction service.
    pub fn redaction_key(&self) -> (r: String)
        ensures
            r@ == self@.redaction_key(),
    {
        match &self.data_blind_api_key {
            Some(key) => if key.as_str().is_empty() {
                self.data_crypt_api_key.clone()
            } else {
                key.clone()
            },
            None => self.data_crypt_api_key.clone(),
        }
    }
}

/// The sentence for a configuration that could not be read.
pub open spec fn configuration_sentence(text: Seq<char>, cause: Seq<char>) -> Seq<char> {
    "Failed to parse configuration '"@ + text + "'. Cause: "@ + cause
}

/// The sentence for a configuration that could not be read, from its bytes and the cause.
pub fn configuration_error(bytes: &[u8], cause: &str) -> (r: String)
    ensures
        r@ == configuration_sentence(crate::codec::lossy_text(bytes@), cause@),
{
    let text = text_from_utf8_lossy(bytes);
    "Failed to parse configuration '".to_owned().concat(text.as_str()).concat("'. Cause: ").concat(
        cause,
    )
}

} // verus!
