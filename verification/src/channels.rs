//! Delivery channels and their validated construction.
//!
//! A channel is built from a configured type tag and option map.  The
//! webhook channel requires `url` and `message` text options and accepts an
//! optional `headers` table; a wrong tag, a missing or mistyped option, or a
//! malformed header is a construction-time failure.  The SMTP channel is
//! declared but not yet implemented.

use crate::config::copy_string_pairs;
use crate::config::str_eq;
use crate::config::Channel;
use crate::config::OptionValue;
use vstd::prelude::*;

verus! {

/// Why a channel could not be built from its configuration.
#[derive(Debug)]
pub enum ParsingError {
    InvalidType,
    MissingOption(String),
    InvalidOptionType(String),
}

/// The SMTP channel type: declared as a placeholder for a transport still
/// to come.
pub struct SmtpChannel {}

impl SmtpChannel {
    /// Construction always fails: the SMTP transport is not implemented.
    pub fn try_from(_value: Channel) -> (r: Result<SmtpChannel, bool>)
        ensures
            r is Err,
            r->Err_0 == false,
    {
        Err(false)
    }
}

/// The delivery capability: accept a rendered message body and attempt
/// delivery, succeeding or reporting a delivery error.
pub trait Notify {
    type NotifyError;

    fn notify(&self, body: String) -> Result<(), Self::NotifyError>;
}

/// A webhook delivery target: a URL to POST to, the configured message
/// template text, and an optional fixed header set.
pub struct WebhookChannel {
    pub url: String,
    pub message: String,
    pub headers: Option<Vec<(String, String)>>,
}

/// Whether the text is a valid HTTP header name.
pub uninterp spec fn valid_header_name(s: Seq<char>) -> bool;

/// Whether the text is a valid HTTP header value.
pub uninterp spec fn valid_header_value(s: Seq<char>) -> bool;

/// Relies on `reqwest::header::HeaderName::from_str`: it accepts exactly
/// the valid header names, by the text alone.
#[verifier::external_body]
fn header_name_ok(s: &str) -> (r: bool)
    ensures
        r == valid_header_name(s@),
{
    <reqwest::header::HeaderName as core::str::FromStr>::from_str(s).is_ok()
}

/// Relies on `reqwest::header::HeaderValue::from_str`: it accepts exactly
/// the valid header values, by the text alone.
#[verifier::external_body]
fn header_value_ok(s: &str) -> (r: bool)
    ensures
        r == valid_header_value(s@),
{
    <reqwest::header::HeaderValue as core::str::FromStr>::from_str(s).is_ok()
}

/// The value bound to the first option with the given name, if any.
pub open spec fn opt_lookup(config: Seq<(String, OptionValue)>, name: Seq<char>) -> Option<
    OptionValue,
>
    decreases config.len(),
{
    if config.len() == 0 {
        None
    } else if config[0].0@ == name {
        Some(config[0].1)
    } else {
        opt_lookup(config.drop_first(), name)
    }
}

/// The text of the option with the given name, where it is present and is
/// text.
pub open spec fn text_option(config: Seq<(String, OptionValue)>, name: Seq<char>) -> Option<
    Seq<char>,
> {
    match opt_lookup(config, name) {
        Some(OptionValue::Text(s)) => Some(s@),
        _ => None,
    }
}

/// The `headers` option's table, where it is present and is a table.
pub open spec fn headers_table(config: Seq<(String, OptionValue)>) -> Option<
    Seq<(String, OptionValue)>,
> {
    match opt_lookup(config, "headers"@) {
        Some(OptionValue::Table(t)) => Some(t@),
        _ => None,
    }
}

/// A usable header entry: a text value under a valid header name, the text
/// being a valid header value.
pub open spec fn header_entry_ok(e: (String, OptionValue)) -> bool {
    &&& e.1 is Text
    &&& valid_header_name(e.0@)
    &&& valid_header_value(e.1->Text_0@)
}

/// The header set a table yields: every entry's name and text, in table
/// order, or the name of the first unusable entry.
pub open spec fn parsed_headers(t: Seq<(String, OptionValue)>) -> Result<
    Seq<(Seq<char>, Seq<char>)>,
    Seq<char>,
>
    decreases t.len(),
{
    if t.len() == 0 {
        Ok(Seq::empty())
    } else if !header_entry_ok(t[0]) {
        Err(t[0].0@)
    } else {
        match parsed_headers(t.drop_first()) {
            Ok(rest) => Ok(seq![(t[0].0@, t[0].1->Text_0@)] + rest),
            Err(k) => Err(k),
        }
    }
}

/// The views of a list of string pairs.
pub open spec fn pairs_view(s: Seq<(String, String)>) -> Seq<(Seq<char>, Seq<char>)> {
    s.map(|i: int, p: (String, String)| (p.0@, p.1@))
}

/// A configuration that yields a webhook channel: the right type tag, text
/// options `url` and `message`, and, where a `headers` table is given,
/// every entry usable.
pub open spec fn webhook_config_ok(chan: Channel) -> bool {
    &&& chan.chan_type@ == "webhook"@
    &&& text_option(chan.config@, "url"@) is Some
    &&& text_option(chan.config@, "message"@) is Some
    &&& (headers_table(chan.config@) is Some ==> parsed_headers(headers_table(chan.config@)->0)
        is Ok)
}

proof fn lemma_parsed_headers_all_ok(t: Seq<(String, OptionValue)>)
    requires
        forall|j: int| 0 <= j < t.len() ==> header_entry_ok(#[trigger] t[j]),
    ensures
        parsed_headers(t) is Ok,
        parsed_headers(t)->Ok_0.len() == t.len(),
        forall|j: int|
            0 <= j < t.len() ==> parsed_headers(t)->Ok_0[j] === ((#[trigger] t[j]).0@, t[j].1->Text_0@),
    decreases t.len(),
{
    if t.len() > 0 {
        lemma_parsed_headers_all_ok(t.drop_first());
        assert forall|j: int| 0 <= j < t.len() implies parsed_headers(t)->Ok_0[j] === ((
        #[trigger] t[j]).0@, t[j].1->Text_0@) by {
            if j > 0 {
                assert(t.drop_first()[j - 1] == t[j]);
            }
        }
    }
}

proof fn lemma_parsed_headers_first_bad(t: Seq<(String, OptionValue)>, i: int)
    requires
        0 <= i < t.len(),
        forall|j: int| 0 <= j < i ==> header_entry_ok(#[trigger] t[j]),
        !header_entry_ok(t[i]),
    ensures
        parsed_headers(t) is Err,
        parsed_headers(t)->Err_0 == t[i].0@,
    decreases i,
{
    if i > 0 {
        assert forall|j: int| 0 <= j < i - 1 implies header_entry_ok(#[trigger] t.drop_first()[j]) by {
            assert(t.drop_first()[j] == t[j + 1]);
        }
        assert(t.drop_first()[i - 1] == t[i]);
        lemma_parsed_headers_first_bad(t.drop_first(), i - 1);
    }
}

/// The first option with the given name, by reference.
fn lookup<'a>(config: &'a Vec<(String, OptionValue)>, name: &str) -> (r: Option<&'a OptionValue>)
    ensures
        r is Some <==> opt_lookup(config@, name@) is Some,
        r is Some ==> *r->0 == opt_lookup(config@, name@)->0,
{
    let mut i: usize = 0;
    proof {
        assert(config@.skip(0) =~= config@);
    }
    while i < config.len()
        invariant
            i <= config@.len(),
            opt_lookup(config@, name@) == opt_lookup(config@.skip(i as int), name@),
        decreases config@.len() - i,
    {
        let p = &config[i];
        if str_eq(p.0.as_str(), name) {
            proof {
                assert(config@.skip(i as int)[0] == config@[i as int]);
            }
            return Some(&p.1);
        }
        proof {
            assert(config@.skip(i as int)[0] == config@[i as int]);
            assert(config@.skip(i as int).drop_first() =~= config@.skip(i as int + 1));
        }
        i = i + 1;
    }
    proof {
        assert(config@.skip(i as int) =~= Seq::<(String, OptionValue)>::empty());
    }
    None
}

impl WebhookChannel {
    /// Validated construction from a configured channel.  Succeeds exactly
    /// on a well-formed webhook configuration; otherwise reports the first
    /// violation, in the order: type tag, `url`, `message`, header entries.
    /// A mistyped option's error names the expected type; a bad header
    /// entry's error names the entry.  A `headers` option that is not a
    /// table is ignored.  The message template is kept as configured text:
    /// one that does not compile is a render-time failure, reported per
    /// document at dispatch, not a construction-time failure.
    #[verifier::loop_isolation(false)]
    pub fn try_from(chan: &Channel) -> (r: Result<WebhookChannel, ParsingError>)
        ensures
            r is Ok <==> webhook_config_ok(*chan),
            r is Ok ==> ({
                let w = r->Ok_0;
                &&& w.url@ == text_option(chan.config@, "url"@)->0
                &&& w.message@ == text_option(chan.config@, "message"@)->0
                &&& (headers_table(chan.config@) is None ==> w.headers is None)
                &&& (headers_table(chan.config@) is Some ==> w.headers is Some && pairs_view(
                    w.headers->0@,
                ) == parsed_headers(headers_table(chan.config@)->0)->Ok_0)
            }),
            chan.chan_type@ != "webhook"@ ==> r is Err && r->Err_0 is InvalidType,
            chan.chan_type@ == "webhook"@ && opt_lookup(chan.config@, "url"@) is None ==> r is Err
                && r->Err_0 is MissingOption && r->Err_0->MissingOption_0@ == "url"@,
            chan.chan_type@ == "webhook"@ && opt_lookup(chan.config@, "url"@) is Some
                && text_option(chan.config@, "url"@) is None ==> r is Err && r->Err_0
                is InvalidOptionType && r->Err_0->InvalidOptionType_0@
                == "Expected \"String\" for url"@,
            chan.chan_type@ == "webhook"@ && text_option(chan.config@, "url"@) is Some
                && opt_lookup(chan.config@, "message"@) is None ==> r is Err && r->Err_0
                is MissingOption && r->Err_0->MissingOption_0@ == "message"@,
            chan.chan_type@ == "webhook"@ && text_option(chan.config@, "url"@) is Some
                && opt_lookup(chan.config@, "message"@) is Some && text_option(
                chan.config@,
                "message"@,
            ) is None ==> r is Err && r->Err_0 is InvalidOptionType
                && r->Err_0->InvalidOptionType_0@ == "Expected \"String\" for message"@,
            chan.chan_type@ == "webhook"@ && text_option(chan.config@, "url"@) is Some
                && text_option(chan.config@, "message"@) is Some && headers_table(chan.config@)
                is Some && parsed_headers(headers_table(chan.config@)->0) is Err ==> r is Err
                && r->Err_0 is InvalidOptionType && r->Err_0->InvalidOptionType_0@
                == parsed_headers(headers_table(chan.config@)->0)->Err_0,
    {
        if !str_eq(chan.chan_type.as_str(), "webhook") {
            return Err(ParsingError::InvalidType);
        }
        let url: String = match lookup(&chan.config, "url") {
            None => {
                return Err(ParsingError::MissingOption(String::from_str("url")));
            },
            Some(OptionValue::Text(s)) => s.clone(),
            Some(_) => {
                return Err(
                    ParsingError::InvalidOptionType(String::from_str("Expected \"String\" for url")),
                );
            },
        };
        let message: String = match lookup(&chan.config, "message") {
            None => {
                return Err(ParsingError::MissingOption(String::from_str("message")));
            },
            Some(OptionValue::Text(s)) => s.clone(),
            Some(_) => {
                return Err(
                    ParsingError::InvalidOptionType(
                        String::from_str("Expected \"String\" for message"),
                    ),
                );
            },
        };
        let mut headers: Option<Vec<(String, String)>> = None;
        let hdrs = lookup(&chan.config, "headers");
        if let Some(OptionValue::Table(t)) = hdrs {
            proof {
                assert(opt_lookup(chan.config@, "headers"@) is Some);
                assert(opt_lookup(chan.config@, "headers"@)->0 is Table);
                assert(headers_table(chan.config@) == Some(t@));
            }
            let ghost tbl = t@;
            let mut hm: Vec<(String, String)> = Vec::new();
            let mut i: usize = 0;
            while i < t.len()
                invariant
                    tbl == t@,
                    i <= tbl.len(),
                    hm@.len() == i,
                    forall|j: int| 0 <= j < i ==> header_entry_ok(#[trigger] tbl[j]),
                    forall|j: int|
                        0 <= j < i ==> (#[trigger] hm@[j]).0@ == tbl[j].0@ && hm@[j].1@
                            == tbl[j].1->Text_0@,
                decreases tbl.len() - i,
            {
                let entry = &t[i];
                match &entry.1 {
                    OptionValue::Text(v) => {
                        if header_name_ok(entry.0.as_str()) && header_value_ok(v.as_str()) {
                            hm.push((entry.0.clone(), v.clone()));
                            i = i + 1;
                        } else {
                            proof {
                                lemma_parsed_headers_first_bad(tbl, i as int);
                            }
                            return Err(ParsingError::InvalidOptionType(entry.0.clone()));
                        }
                    },
                    _ => {
                        proof {
                            lemma_parsed_headers_first_bad(tbl, i as int);
                        }
                        return Err(ParsingError::InvalidOptionType(entry.0.clone()));
                    },
                }
            }
            proof {
                lemma_parsed_headers_all_ok(tbl);
                assert(pairs_view(hm@) =~= parsed_headers(tbl)->Ok_0);
            }
            headers = Some(hm);
        }
        Ok(WebhookChannel { url, message, headers })
    }
}

/// One HTTP POST for the transport to perform: target URL, headers, body.
pub struct HttpPost {
    pub url: String,
    pub headers: Vec<(String, String)>,
    pub body: String,
}

/// One prepared notification: the channel it goes to and the POST to make.
pub struct Delivery {
    pub channel: String,
    pub post: HttpPost,
}

impl WebhookChannel {
    /// The one request a `notify` on this channel issues: a POST of the
    /// message body to the configured URL with the configured headers
    /// attached.
    pub fn notify_request(&self, body: String) -> (r: HttpPost)
        ensures
            r.url@ == self.url@,
            self.headers is Some ==> r.headers@ == self.headers->0@,
            self.headers is None ==> r.headers@.len() == 0,
            r.body@ == body@,
    {
        let headers = match &self.headers {
            Some(h) => copy_string_pairs(h),
            None => Vec::new(),
        };
        HttpPost { url: self.url.clone(), headers, body }
    }
}

} // verus!
