//! The configuration model the pipeline is built from: general settings,
//! channels and rules.  Reading and decoding the configuration file is the
//! caller's business; the types here hold the decoded values, and a rule's
//! query text is brought into its structured form here.

use vstd::prelude::*;

verus! {

/// A free-form configuration option value, holding what the channel
/// constructors read: a text value, a table of named values, or anything
/// else (which no constructor accepts where it expects text).
pub enum OptionValue {
    Text(String),
    Table(Vec<(String, OptionValue)>),
    Other,
}

/// A configured delivery channel: its type tag and its free-form options.
pub struct Channel {
    pub chan_type: String,
    pub config: Vec<(String, OptionValue)>,
}

/// A named alert definition: a backend query (as JSON text) and the names
/// of the channels it notifies, each with a configured message string.
pub struct Rule {
    pub name: String,
    pub query: String,
    pub channels: Vec<(String, String)>,
}

/// Backend endpoint, index names to query, and the poll interval.
pub struct GeneralConfig {
    pub opensearch_url: String,
    pub indexes: Vec<String>,
    pub watch_interval: Option<u64>,
}

/// Poll interval used where the configuration names none.
pub const DEFAULT_WATCH_INTERVAL_SECS: u64 = 15;

impl GeneralConfig {
    /// The poll interval in seconds, defaulting where none is configured.
    pub fn effective_watch_interval(&self) -> (r: u64)
        ensures
            self.watch_interval is Some ==> r == self.watch_interval->0,
            self.watch_interval is None ==> r == DEFAULT_WATCH_INTERVAL_SECS,
    {
        match self.watch_interval {
            Some(v) => v,
            None => DEFAULT_WATCH_INTERVAL_SECS,
        }
    }
}

/// The whole configuration: general settings, named channels, named rules.
pub struct Config {
    pub general: GeneralConfig,
    pub channels: Vec<(String, Channel)>,
    pub rules: Vec<(String, Rule)>,
}

/// Options of an SMTP channel, for the transport still to come.
pub struct SmtpConfig {
    pub host: String,
    pub port: Option<u16>,
    pub auth: Option<bool>,
    pub username: Option<String>,
    pub password: Option<String>,
}

/// Options of a webhook channel in their typed form.
pub struct WebhookConfig {
    pub url: String,
    pub auth_user: Option<String>,
    pub auth_pass: Option<String>,
}

#[verifier::external_type_specification]
#[verifier::external_body]
pub struct ExJsonValue(serde_json::Value);

#[verifier::external_type_specification]
#[verifier::external_body]
pub struct ExJsonError(serde_json::Error);

/// Whether the text is a well-formed JSON document.
pub uninterp spec fn json_parses(s: Seq<char>) -> bool;

/// Relies on `serde_json::from_str::<serde_json::Value>`: it returns `Ok`
/// exactly when the text is well-formed JSON, by the text alone.
#[verifier::external_body]
fn parse_json(s: &str) -> (r: Result<serde_json::Value, serde_json::Error>)
    ensures
        r is Ok <==> json_parses(s@),
{
    serde_json::from_str(s)
}

/// Relies on `str`'s `==`: true exactly when the two texts are equal.
#[verifier::external_body]
pub(crate) fn str_eq(a: &str, b: &str) -> (r: bool)
    ensures
        r == (a@ == b@),
{
    a == b
}

/// Why a rule could not be brought into its executable form.
#[derive(Debug)]
pub enum RuleError {
    /// The rule's query text is not well-formed JSON; the parse error is
    /// kept for diagnostics.
    QueryNotJson(serde_json::Error),
}

/// A rule with its query brought into the backend's structured query form.
pub struct DSLRule {
    pub name: String,
    pub query: serde_json::Value,
    pub channels: Vec<(String, String)>,
}

impl DSLRule {
    /// Succeeds exactly when the rule's query text is well-formed JSON;
    /// name and channel bindings are carried over unchanged.
    pub fn try_from(r: &Rule) -> (res: Result<DSLRule, RuleError>)
        ensures
            res is Ok <==> json_parses(r.query@),
            res is Ok ==> res->Ok_0.name@ == r.name@ && res->Ok_0.channels@ == r.channels@,
            res is Err ==> res->Err_0 is QueryNotJson,
    {
        match parse_json(r.query.as_str()) {
            Ok(q) => Ok(
                DSLRule { name: r.name.clone(), query: q, channels: copy_string_pairs(&r.channels) },
            ),
            Err(e) => Err(RuleError::QueryNotJson(e)),
        }
    }
}

/// An element-wise copy of a list of string pairs.
pub(crate) fn copy_string_pairs(v: &Vec<(String, String)>) -> (r: Vec<(String, String)>)
    ensures
        r@ == v@,
{
    let mut r: Vec<(String, String)> = Vec::new();
    let mut i: usize = 0;
    while i < v.len()
        invariant
            i <= v@.len(),
            r@.len() == i,
            forall|j: int| 0 <= j < i ==> r@[j] == v@[j],
        decreases v@.len() - i,
    {
        let p = &v[i];
        r.push((p.0.clone(), p.1.clone()));
        i = i + 1;
    }
    proof {
        assert(r@ =~= v@);
    }
    r
}

} // verus!
