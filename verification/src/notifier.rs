//! The dispatcher: fan-out of one matched document to every channel bound
//! to its rule.
//!
//! For each binding, in binding order: look up the channel by name (a
//! missing binding is skipped), render the channel's message template
//! against the document, escape backslashes in the rendered text (so
//! literal backslashes survive downstream transport), and produce the POST
//! to deliver.  A render failure skips only that one channel and never
//! blocks the others; the failed channel's name is handed back beside the
//! deliveries, so the caller can log it and go on.

use crate::channels::pairs_view;
use crate::channels::Delivery;
use crate::channels::WebhookChannel;
use crate::config::str_eq;
use crate::config::DSLRule;
use crate::watcher::Document;
use vstd::prelude::*;

verus! {

/// What one backslash-escaping step yields for one character.
pub open spec fn esc_char(c: char) -> Seq<char> {
    if c == '\\' {
        seq!['\\', '\\']
    } else {
        seq![c]
    }
}

/// The text with every backslash doubled.
pub open spec fn escaped(s: Seq<char>) -> Seq<char>
    decreases s.len(),
{
    if s.len() == 0 {
        Seq::empty()
    } else {
        esc_char(s[0]) + escaped(s.drop_first())
    }
}

proof fn lemma_escaped_push(s: Seq<char>, c: char)
    ensures
        escaped(s.push(c)) == escaped(s) + esc_char(c),
    decreases s.len(),
{
    if s.len() == 0 {
        assert(s.push(c)[0] == c);
        assert(s.push(c).drop_first() =~= Seq::<char>::empty());
        assert(escaped(Seq::<char>::empty()) =~= Seq::<char>::empty());
        assert(escaped(s.push(c)) =~= esc_char(c) + Seq::<char>::empty());
        assert(escaped(s.push(c)) =~= escaped(s) + esc_char(c));
    } else {
        assert(s.push(c)[0] == s[0]);
        assert(s.push(c).drop_first() =~= s.drop_first().push(c));
        lemma_escaped_push(s.drop_first(), c);
        assert(esc_char(s[0]) + (escaped(s.drop_first()) + esc_char(c)) =~= (esc_char(s[0])
            + escaped(s.drop_first())) + esc_char(c));
    }
}

/// Relies on `String::push`: appends the one character at the end.
#[verifier::external_body]
fn push_char(s: &mut String, c: char)
    ensures
        final(s)@ == old(s)@.push(c),
{
    s.push(c);
}

/// The rendered text with every backslash doubled.
pub fn escape_backslashes(s: &str) -> (r: String)
    ensures
        r@ == escaped(s@),
{
    let n = s.unicode_len();
    let mut r = String::new();
    let mut i: usize = 0;
    proof {
        assert(s@.take(0) =~= Seq::<char>::empty());
    }
    while i < n
        invariant
            n == s@.len(),
            i <= n,
            r@ == escaped(s@.take(i as int)),
        decreases n - i,
    {
        let c = s.get_char(i);
        proof {
            assert(s@.take(i as int + 1) =~= s@.take(i as int).push(s@[i as int]));
            lemma_escaped_push(s@.take(i as int), s@[i as int]);
        }
        if c == '\\' {
            push_char(&mut r, '\\');
            push_char(&mut r, '\\');
            proof {
                assert(r@ =~= escaped(s@.take(i as int)) + esc_char(c));
            }
        } else {
            push_char(&mut r, c);
            proof {
                assert(r@ =~= escaped(s@.take(i as int)) + esc_char(c));
            }
        }
        i = i + 1;
    }
    proof {
        assert(s@.take(n as int) =~= s@);
    }
    r
}

/// What rendering a message template against a JSON document yields: the
/// rendered text, or nothing where the document text is not well-formed
/// JSON, the template does not compile, or rendering fails.
pub uninterp spec fn rendered(tmpl: Seq<char>, ctx: Seq<char>) -> Option<Seq<char>>;

/// Relies on `handlebars::Handlebars::render` (with
/// `register_template_string` for the template and `serde_json::from_str`
/// for the document): the outcome depends on the two texts alone.
#[verifier::external_body]
fn render_template(tmpl: &str, ctx: &str) -> (r: Option<String>)
    ensures
        r is Some <==> rendered(tmpl@, ctx@) is Some,
        r is Some ==> r->0@ == rendered(tmpl@, ctx@)->0,
{
    let data: serde_json::Value = match serde_json::from_str(ctx) {
        Ok(v) => v,
        Err(_) => return None,
    };
    let mut registry = handlebars::Handlebars::new();
    if registry.register_template_string("t", tmpl).is_err() {
        return None;
    }
    registry.render("t", &data).ok()
}

/// The channel registered under the given name, if any.
pub open spec fn reg_lookup(reg: Seq<(String, WebhookChannel)>, name: Seq<char>) -> Option<
    WebhookChannel,
>
    decreases reg.len(),
{
    if reg.len() == 0 {
        None
    } else if reg[0].0@ == name {
        Some(reg[0].1)
    } else {
        reg_lookup(reg.drop_first(), name)
    }
}

/// A channel's fixed header set, empty where none is configured.
pub open spec fn headers_model(c: WebhookChannel) -> Seq<(Seq<char>, Seq<char>)> {
    match c.headers {
        Some(h) => pairs_view(h@),
        None => Seq::empty(),
    }
}

/// A delivery reduced to its texts: channel name, URL, headers, body.
pub open spec fn delivery_model(d: Delivery) -> (
    Seq<char>,
    Seq<char>,
    Seq<(Seq<char>, Seq<char>)>,
    Seq<char>,
) {
    (d.channel@, d.post.url@, pairs_view(d.post.headers@), d.post.body@)
}

/// What one binding contributes to the fan-out: one POST of the escaped
/// rendering of the named channel's own template, where that channel is
/// registered and its template renders; nothing otherwise.
pub open spec fn binding_deliveries(
    reg: Seq<(String, WebhookChannel)>,
    name: String,
    ctx: Seq<char>,
) -> Seq<(Seq<char>, Seq<char>, Seq<(Seq<char>, Seq<char>)>, Seq<char>)> {
    match reg_lookup(reg, name@) {
        Some(c) => match rendered(c.message@, ctx) {
            Some(out) => seq![(name@, c.url@, headers_model(c), escaped(out))],
            None => Seq::empty(),
        },
        None => Seq::empty(),
    }
}

/// The whole fan-out for a list of bindings, in binding order.
pub open spec fn deliveries_of(
    reg: Seq<(String, WebhookChannel)>,
    bindings: Seq<(String, String)>,
    ctx: Seq<char>,
) -> Seq<(Seq<char>, Seq<char>, Seq<(Seq<char>, Seq<char>)>, Seq<char>)>
    decreases bindings.len(),
{
    if bindings.len() == 0 {
        Seq::empty()
    } else {
        binding_deliveries(reg, bindings[0].0, ctx) + deliveries_of(reg, bindings.drop_first(), ctx)
    }
}

/// What one binding contributes to the render-failure report: its channel
/// name, exactly where that channel is registered but its template does not
/// render against the document; nothing otherwise.  A missing binding is a
/// silent skip, not a failure.
pub open spec fn binding_failure(
    reg: Seq<(String, WebhookChannel)>,
    name: String,
    ctx: Seq<char>,
) -> Seq<Seq<char>> {
    match reg_lookup(reg, name@) {
        Some(c) => if rendered(c.message@, ctx) is None {
            seq![name@]
        } else {
            Seq::empty()
        },
        None => Seq::empty(),
    }
}

/// The bindings whose rendering fails, in binding order, for the caller to
/// log and skip.
pub open spec fn failed_renders_of(
    reg: Seq<(String, WebhookChannel)>,
    bindings: Seq<(String, String)>,
    ctx: Seq<char>,
) -> Seq<Seq<char>>
    decreases bindings.len(),
{
    if bindings.len() == 0 {
        Seq::empty()
    } else {
        binding_failure(reg, bindings[0].0, ctx) + failed_renders_of(
            reg,
            bindings.drop_first(),
            ctx,
        )
    }
}

proof fn lemma_failures_push(
    reg: Seq<(String, WebhookChannel)>,
    bindings: Seq<(String, String)>,
    b: (String, String),
    ctx: Seq<char>,
)
    ensures
        failed_renders_of(reg, bindings.push(b), ctx) == failed_renders_of(reg, bindings, ctx)
            + binding_failure(reg, b.0, ctx),
    decreases bindings.len(),
{
    if bindings.len() == 0 {
        assert(bindings.push(b)[0] == b);
        assert(bindings.push(b).drop_first() =~= Seq::<(String, String)>::empty());
        assert(failed_renders_of(reg, Seq::<(String, String)>::empty(), ctx) =~= Seq::<
            Seq<char>,
        >::empty());
        assert(failed_renders_of(reg, bindings.push(b), ctx) =~= binding_failure(reg, b.0, ctx)
            + Seq::<Seq<char>>::empty());
        assert(failed_renders_of(reg, bindings.push(b), ctx) =~= failed_renders_of(
            reg,
            bindings,
            ctx,
        ) + binding_failure(reg, b.0, ctx));
    } else {
        assert(bindings.push(b)[0] == bindings[0]);
        assert(bindings.push(b).drop_first() =~= bindings.drop_first().push(b));
        lemma_failures_push(reg, bindings.drop_first(), b, ctx);
        assert(binding_failure(reg, bindings[0].0, ctx) + (failed_renders_of(
            reg,
            bindings.drop_first(),
            ctx,
        ) + binding_failure(reg, b.0, ctx)) =~= (binding_failure(reg, bindings[0].0, ctx)
            + failed_renders_of(reg, bindings.drop_first(), ctx)) + binding_failure(
            reg,
            b.0,
            ctx,
        ));
    }
}

proof fn lemma_deliveries_push(
    reg: Seq<(String, WebhookChannel)>,
    bindings: Seq<(String, String)>,
    b: (String, String),
    ctx: Seq<char>,
)
    ensures
        deliveries_of(reg, bindings.push(b), ctx) == deliveries_of(reg, bindings, ctx)
            + binding_deliveries(reg, b.0, ctx),
    decreases bindings.len(),
{
    if bindings.len() == 0 {
        assert(bindings.push(b)[0] == b);
        assert(bindings.push(b).drop_first() =~= Seq::<(String, String)>::empty());
        assert(deliveries_of(reg, Seq::<(String, String)>::empty(), ctx) =~= Seq::<
            (Seq<char>, Seq<char>, Seq<(Seq<char>, Seq<char>)>, Seq<char>),
        >::empty());
        assert(deliveries_of(reg, bindings.push(b), ctx) =~= binding_deliveries(reg, b.0, ctx)
            + Seq::<(Seq<char>, Seq<char>, Seq<(Seq<char>, Seq<char>)>, Seq<char>)>::empty());
        assert(deliveries_of(reg, bindings.push(b), ctx) =~= deliveries_of(reg, bindings, ctx)
            + binding_deliveries(reg, b.0, ctx));
    } else {
        assert(bindings.push(b)[0] == bindings[0]);
        assert(bindings.push(b).drop_first() =~= bindings.drop_first().push(b));
        lemma_deliveries_push(reg, bindings.drop_first(), b, ctx);
        assert(binding_deliveries(reg, bindings[0].0, ctx) + (deliveries_of(
            reg,
            bindings.drop_first(),
            ctx,
        ) + binding_deliveries(reg, b.0, ctx)) =~= (binding_deliveries(reg, bindings[0].0, ctx)
            + deliveries_of(reg, bindings.drop_first(), ctx)) + binding_deliveries(
            reg,
            b.0,
            ctx,
        ));
    }
}

/// Fan-out completeness: with a rule bound to channel `a` and then channel
/// `b`, the deliveries are exactly `a`'s contribution followed by `b`'s,
/// and so is the render-failure report.  What `b` receives never depends on
/// `a`'s outcome: where both names are registered and both templates
/// render, each channel is notified exactly once, with the escaped
/// rendering of its own template against the same document; where `a`'s
/// lookup or rendering fails, `b`'s delivery stands unchanged.
pub proof fn lemma_fanout_independent(
    reg: Seq<(String, WebhookChannel)>,
    a: (String, String),
    b: (String, String),
    ctx: Seq<char>,
)
    ensures
        deliveries_of(reg, seq![a, b], ctx) == binding_deliveries(reg, a.0, ctx)
            + binding_deliveries(reg, b.0, ctx),
        failed_renders_of(reg, seq![a, b], ctx) == binding_failure(reg, a.0, ctx)
            + binding_failure(reg, b.0, ctx),
{
    let two = seq![a, b];
    assert(two[0] == a);
    assert(two.drop_first() =~= seq![b]);
    assert(seq![b][0] == b);
    assert(seq![b].drop_first() =~= Seq::<(String, String)>::empty());
    assert(deliveries_of(reg, Seq::<(String, String)>::empty(), ctx) =~= Seq::<
        (Seq<char>, Seq<char>, Seq<(Seq<char>, Seq<char>)>, Seq<char>),
    >::empty());
    assert(deliveries_of(reg, seq![b], ctx) =~= binding_deliveries(reg, b.0, ctx) + Seq::<
        (Seq<char>, Seq<char>, Seq<(Seq<char>, Seq<char>)>, Seq<char>),
    >::empty());
    assert(deliveries_of(reg, seq![b], ctx) =~= binding_deliveries(reg, b.0, ctx));
    assert(failed_renders_of(reg, Seq::<(String, String)>::empty(), ctx) =~= Seq::<
        Seq<char>,
    >::empty());
    assert(failed_renders_of(reg, seq![b], ctx) =~= binding_failure(reg, b.0, ctx) + Seq::<
        Seq<char>,
    >::empty());
    assert(failed_renders_of(reg, seq![b], ctx) =~= binding_failure(reg, b.0, ctx));
    assert(failed_renders_of(reg, two, ctx) =~= binding_failure(reg, a.0, ctx) + binding_failure(
        reg,
        b.0,
        ctx,
    ));
    assert(deliveries_of(reg, two, ctx) =~= binding_deliveries(reg, a.0, ctx)
        + binding_deliveries(reg, b.0, ctx));
}

/// The dispatcher's registry: the webhook channels by name.
pub struct Notifier {
    pub webhook_channels: Vec<(String, WebhookChannel)>,
}

/// The channel registered under the given name, by reference.
fn reg_find<'a>(reg: &'a Vec<(String, WebhookChannel)>, name: &str) -> (r: Option<
    &'a WebhookChannel,
>)
    ensures
        r is Some <==> reg_lookup(reg@, name@) is Some,
        r is Some ==> *r->0 == reg_lookup(reg@, name@)->0,
{
    let mut i: usize = 0;
    proof {
        assert(reg@.skip(0) =~= reg@);
    }
    while i < reg.len()
        invariant
            i <= reg@.len(),
            reg_lookup(reg@, name@) == reg_lookup(reg@.skip(i as int), name@),
        decreases reg@.len() - i,
    {
        let p = &reg[i];
        if str_eq(p.0.as_str(), name) {
            proof {
                assert(reg@.skip(i as int)[0] == reg@[i as int]);
            }
            return Some(&p.1);
        }
        proof {
            assert(reg@.skip(i as int)[0] == reg@[i as int]);
            assert(reg@.skip(i as int).drop_first() =~= reg@.skip(i as int + 1));
        }
        i = i + 1;
    }
    proof {
        assert(reg@.skip(i as int) =~= Seq::<(String, WebhookChannel)>::empty());
    }
    None
}

impl Notifier {
    pub fn new(webhook_channels: Vec<(String, WebhookChannel)>) -> (n: Notifier)
        ensures
            n.webhook_channels == webhook_channels,
    {
        Notifier { webhook_channels }
    }

    /// Fan-out for one dequeued (rule, document) pair: exactly one prepared
    /// POST per bound channel that is registered and whose template renders
    /// against the document, in binding order, beside the names of the
    /// bound channels whose rendering failed, for the caller to log.
    /// Missing bindings and render failures are skipped and never block the
    /// remaining channels.
    #[verifier::loop_isolation(false)]
    pub fn prepare(&self, rule: &DSLRule, doc: &Document) -> (out: (Vec<Delivery>, Vec<String>))
        ensures
            out.0@.map(|i: int, d: Delivery| delivery_model(d)) == deliveries_of(
                self.webhook_channels@,
                rule.channels@,
                doc.payload@,
            ),
            out.1@.map(|i: int, s: String| s@) == failed_renders_of(
                self.webhook_channels@,
                rule.channels@,
                doc.payload@,
            ),
    {
        let ghost reg = self.webhook_channels@;
        let ghost bindings = rule.channels@;
        let ghost ctx = doc.payload@;
        let mut out: Vec<Delivery> = Vec::new();
        let mut failed: Vec<String> = Vec::new();
        let mut i: usize = 0;
        proof {
            assert(bindings.take(0) =~= Seq::<(String, String)>::empty());
            assert(out@.map(|i: int, d: Delivery| delivery_model(d)) =~= deliveries_of(
                reg,
                bindings.take(0),
                ctx,
            ));
            assert(failed@.map(|i: int, s: String| s@) =~= failed_renders_of(
                reg,
                bindings.take(0),
                ctx,
            ));
        }
        while i < rule.channels.len()
            invariant
                i <= bindings.len(),
                out@.map(|i: int, d: Delivery| delivery_model(d)) == deliveries_of(
                    reg,
                    bindings.take(i as int),
                    ctx,
                ),
                failed@.map(|i: int, s: String| s@) == failed_renders_of(
                    reg,
                    bindings.take(i as int),
                    ctx,
                ),
            decreases bindings.len() - i,
        {
            let binding = &rule.channels[i];
            match reg_find(&self.webhook_channels, binding.0.as_str()) {
                Some(c) => {
                    match render_template(c.message.as_str(), doc.payload.as_str()) {
                        Some(msg) => {
                            let body = escape_backslashes(msg.as_str());
                            let post = c.notify_request(body);
                            proof {
                                if c.headers is None {
                                    assert(pairs_view(post.headers@) =~= headers_model(*c));
                                }
                            }
                            out.push(Delivery { channel: binding.0.clone(), post });
                        },
                        None => {
                            failed.push(binding.0.clone());
                        },
                    }
                },
                None => {},
            }
            proof {
                assert(bindings.take(i as int + 1) =~= bindings.take(i as int).push(
                    bindings[i as int],
                ));
                lemma_deliveries_push(reg, bindings.take(i as int), bindings[i as int], ctx);
                lemma_failures_push(reg, bindings.take(i as int), bindings[i as int], ctx);
                assert(out@.map(|i: int, d: Delivery| delivery_model(d)) =~= deliveries_of(
                    reg,
                    bindings.take(i as int + 1),
                    ctx,
                ));
                assert(failed@.map(|i: int, s: String| s@) =~= failed_renders_of(
                    reg,
                    bindings.take(i as int + 1),
                    ctx,
                ));
            }
            i = i + 1;
        }
        proof {
            assert(bindings.take(i as int) =~= bindings);
        }
        (out, failed)
    }
}

} // verus!
