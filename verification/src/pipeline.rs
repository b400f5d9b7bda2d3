//! The shared export pipeline: a bounded channel on the way to the exporter,
//! and what the exporter is made of.
//!
//! Sending never blocks. A span that finds the channel full is dropped and
//! counted.

use std::sync::atomic::{AtomicUsize, Ordering};
use std::time::Duration;

use http::{HeaderMap, HeaderValue};
use tokio::sync::mpsc::{Receiver, Sender};
use vstd::prelude::*;
use vstd::string::*;

use crate::config::{clone_pairs, Config};
use crate::exporter::otlp_http::{DEFAULT_SERVICE_NAME, PROTOBUF_CONTENT_TYPE};
use crate::exporter::post::build_header_map;
use crate::exporter::zipkin::JSON_CONTENT_TYPE;
use crate::sink::{Endpoint, ExporterKind, SinkUrl};
use crate::span::FinishedSpan;

verus! {

/// How many spans wait in the channel at most.
pub const CHANNEL_CAPACITY: usize = 2048;

/// Most that `tokio` allows as a capacity on any machine.
pub const MAX_CAPACITY: usize = 0x1fff_ffff;

/// The sending end of a bounded channel.
#[verifier::external_type_specification]
#[verifier::external_body]
#[verifier::reject_recursive_types(T)]
pub struct ExSender<T>(tokio::sync::mpsc::Sender<T>);

/// The receiving end of a bounded channel.
#[verifier::external_type_specification]
#[verifier::external_body]
#[verifier::reject_recursive_types(T)]
pub struct ExReceiver<T>(tokio::sync::mpsc::Receiver<T>);

/// How many spans wait at most in the channel that a sending end belongs to.
pub uninterp spec fn sender_limit(sender: Sender<FinishedSpan>) -> nat;

/// The channel that a sending end belongs to.
pub uninterp spec fn sender_channel(sender: Sender<FinishedSpan>) -> int;

/// The channel that a receiving end belongs to.
pub uninterp spec fn receiver_channel(receiver: Receiver<FinishedSpan>) -> int;

/// Calls `tokio::sync::mpsc::channel`: the two ends of one channel, in which as
/// many spans wait at most as the capacity says. It panics on a capacity of
/// zero, and on one above its limit, which are left out.
#[verifier::external_body]
fn new_channel(capacity: usize) -> (r: (Sender<FinishedSpan>, Receiver<FinishedSpan>))
    requires
        0 < capacity <= MAX_CAPACITY,
    ensures
        sender_limit(r.0) == capacity,
        sender_channel(r.0) == receiver_channel(r.1),
{
    tokio::sync::mpsc::channel(capacity)
}

/// Calls `Sender::try_send`: whether the channel took the span. That depends on
/// what the receiving end has done in the meantime, so nothing is stated of it.
#[verifier::external_body]
pub(crate) fn try_send(sender: &Sender<FinishedSpan>, span: FinishedSpan) -> (r: bool) {
    sender.try_send(span).is_ok()
}

/// What became of a span that was sent.
#[derive(Clone, Copy, Debug, PartialEq, Eq, Structural)]
pub enum SendOutcome {
    /// Export is disabled; the span was not looked at.
    Ignored,
    /// The channel took the span.
    Accepted,
    /// There was no room, or no channel; the span was dropped.
    Dropped,
}

/// What becomes of a span, given whether export is enabled, and whether there
/// is a channel that took it.
pub open spec fn outcome_of(enabled: bool, accepted: Option<bool>) -> SendOutcome {
    if !enabled {
        SendOutcome::Ignored
    } else if accepted == Some(true) {
        SendOutcome::Accepted
    } else {
        SendOutcome::Dropped
    }
}

/// What becomes of a span, given whether export is enabled, and whether there
/// is a channel that took it.
pub fn send_outcome(enabled: bool, accepted: Option<bool>) -> (r: SendOutcome)
    ensures
        r == outcome_of(enabled, accepted),
{
    if !enabled {
        return SendOutcome::Ignored;
    }
    match accepted {
        Some(true) => SendOutcome::Accepted,
        _ => SendOutcome::Dropped,
    }
}

/// The configuration, the sending end of the channel, and the count of dropped
/// spans.
#[derive(Debug)]
pub struct Pipeline {
    config: Config,
    drop_count: AtomicUsize,
    sender: Option<Sender<FinishedSpan>>,
}

impl Pipeline {
    /// The configuration.
    pub closed spec fn settings(self) -> crate::config::ConfigView {
        self.config@
    }

    /// Whether there is a channel to send to.
    pub closed spec fn has_channel(self) -> bool {
        self.sender is Some
    }

    /// The sending end of the channel, where there is one.
    pub closed spec fn sending_end(self) -> Sender<FinishedSpan> {
        self.sender->0
    }

    /// A pipeline with a channel of a capacity, and its receiving end.
    pub fn with_capacity(config: Config, capacity: usize) -> (r: (Pipeline, Receiver<FinishedSpan>))
        requires
            0 < capacity <= MAX_CAPACITY,
        ensures
            r.0.settings() == config@,
            r.0.has_channel(),
            sender_limit(r.0.sending_end()) == capacity,
            sender_channel(r.0.sending_end()) == receiver_channel(r.1),
    {
        let (sender, receiver) = new_channel(capacity);
        (
            Pipeline { config, drop_count: AtomicUsize::new(0), sender: Some(sender) },
            receiver,
        )
    }

    /// The pipeline of a configuration, and the worker to start for it.
    ///
    /// A disabled configuration has neither channel nor worker. An enabled one
    /// has a channel, and a worker where it selects a usable exporter; what is
    /// sent goes to the channel that the worker receives from. Where no worker
    /// runs, spans that are sent are dropped.
    pub fn from_config(config: Config) -> (r: (Pipeline, Option<Worker>))
        ensures
            r.0.settings() == config@,
            r.0.has_channel() == config@.enabled(),
            r.0.has_channel() ==> sender_limit(r.0.sending_end()) == CHANNEL_CAPACITY,
            r.1 is Some ==> config@.enabled() && planned(config@) is Some,
            config@.enabled() && planned(config@) is Some && !headers_overflow(config@) ==> r.1
                is Some,
            config.headers@.len() + 1 > crate::exporter::post::MAX_ENTRIES ==> r.1 is None,
            r.1 matches Some(w) ==> {
                &&& sender_channel(r.0.sending_end()) == receiver_channel(w.receiver)
                &&& Some(w.plan@) == planned(config@)
                &&& w.max_batch == config.max_export_batch_size
                &&& w.schedule_delay == config.schedule_delay
            },
    {
        if !config.is_enabled() {
            return (Pipeline { config, drop_count: AtomicUsize::new(0), sender: None }, None);
        }
        let max_batch = config.max_export_batch_size;
        let schedule_delay = config.schedule_delay;
        let plan = build_exporter(&config);
        let (pipeline, receiver) = Pipeline::with_capacity(config, CHANNEL_CAPACITY);
        match plan {
            Some(plan) => (pipeline, Some(Worker { receiver, plan, max_batch, schedule_delay })),
            None => (pipeline, None),
        }
    }

    /// Whether exporting is enabled.
    pub fn is_enabled(&self) -> (r: bool)
        ensures
            r == self.settings().enabled(),
    {
        self.config.is_enabled()
    }

    /// The configuration.
    pub fn config(&self) -> (r: &Config)
        ensures
            r@ == self.settings(),
    {
        &self.config
    }

    /// Number of spans dropped so far. A disabled pipeline ignores what is sent
    /// to it, so it has dropped none. The count of an enabled one is shared
    /// between threads and depends on what they have sent, so nothing is stated
    /// of it.
    pub fn dropped_count(&self) -> (r: usize)
        ensures
            !self.settings().enabled() ==> r == 0,
            self.settings().enabled() ==> self.count_showed(r),
    {
        if !self.is_enabled() {
            return 0;
        }
        self.drop_count.load(Ordering::Relaxed)
    }

    /// Whether the pipeline's channel answered like this when the span was handed
    /// to it: that it took the span, or that it did not.
    pub closed spec fn channel_answered(self, span: FinishedSpan, took: bool) -> bool {
        call_ensures(try_send, (&self.sending_end(), span), took)
    }

    /// The counter of dropped spans.
    pub closed spec fn counter(self) -> AtomicUsize {
        self.drop_count
    }

    /// Whether one was added to the count of dropped spans.
    pub open spec fn counted_a_drop(self) -> bool {
        exists|before: usize|
            #[trigger] call_ensures(
                AtomicUsize::fetch_add,
                (&self.counter(), 1usize, Ordering::Relaxed),
                before,
            )
    }

    /// Whether the count of dropped spans was this when it was read.
    pub open spec fn count_showed(self, count: usize) -> bool {
        call_ensures(AtomicUsize::load, (&self.counter(), Ordering::Relaxed), count)
    }

    /// What goes out when a span is sent: the span itself, to the channel of the
    /// pipeline, or nothing where export is disabled or there is no channel.
    pub fn outgoing(&self, span: FinishedSpan) -> (r: Option<(&Sender<FinishedSpan>, FinishedSpan)>)
        ensures
            r is Some <==> self.settings().enabled() && self.has_channel(),
            r matches Some(p) ==> *p.0 == self.sending_end() && p.1 == span,
    {
        if !self.is_enabled() {
            return None;
        }
        match &self.sender {
            Some(sender) => Some((sender, span)),
            None => None,
        }
    }

    /// Sends a finished span on its way, without ever waiting, and says what
    /// became of it. A dropped span adds one to the count of dropped spans.
    ///
    /// What is handed to the channel is what [`Pipeline::outgoing`] gives.
    /// Whether an enabled pipeline with a channel accepts a span depends on the
    /// room in the channel at that moment, so it is not stated.
    pub fn send(&self, span: FinishedSpan) -> (r: SendOutcome)
        ensures
            r == SendOutcome::Ignored <==> !self.settings().enabled(),
            self.settings().enabled() && !self.has_channel() ==> r == SendOutcome::Dropped,
            r == SendOutcome::Accepted ==> self.has_channel() && self.channel_answered(span, true),
            r == SendOutcome::Dropped && self.has_channel() ==> self.channel_answered(span, false),
            r == SendOutcome::Dropped ==> self.counted_a_drop(),
    {
        let accepted = match self.outgoing(span) {
            Some((sender, span)) => Some(try_send(sender, span)),
            None => None,
        };
        let outcome = send_outcome(self.is_enabled(), accepted);
        if outcome == SendOutcome::Dropped {
            self.drop_count.fetch_add(1, Ordering::Relaxed);
        }
        outcome
    }
}

/// What the background worker needs: the receiving end of the channel, the
/// exporter, and the batch settings.
#[derive(Debug)]
pub struct Worker {
    pub receiver: Receiver<FinishedSpan>,
    pub plan: ExporterPlan,
    pub max_batch: usize,
    pub schedule_delay: Duration,
}

/// What an exporter is made of.
#[derive(Debug)]
pub struct ExporterPlan {
    pub kind: ExporterKind,
    pub url: SinkUrl,
    pub headers: HeaderMap<HeaderValue>,
    pub service_name: String,
    pub resource_attributes: Vec<(String, String)>,
}

/// What an exporter is made of, as values.
pub ghost struct PlanView {
    pub kind: ExporterKind,
    pub url: crate::sink::UrlParts,
    pub headers: Map<Seq<char>, Seq<u8>>,
    pub service_name: Seq<char>,
    pub resource_attributes: Seq<(Seq<char>, Seq<char>)>,
}

impl View for ExporterPlan {
    type V = PlanView;

    open spec fn view(&self) -> PlanView {
        PlanView {
            kind: self.kind,
            url: self.url@,
            headers: crate::exporter::post::header_items(self.headers),
            service_name: self.service_name@,
            resource_attributes: crate::config::pairs_view(self.resource_attributes@),
        }
    }
}

/// The content type of what an exporter posts.
pub open spec fn content_type_of(kind: ExporterKind) -> Seq<char> {
    match kind {
        ExporterKind::Otlp => "application/x-protobuf"@,
        _ => "application/json"@,
    }
}

/// Whether the headers of a configuration may be too many for a request.
pub open spec fn headers_overflow(config: crate::config::ConfigView) -> bool {
    crate::exporter::post::may_overflow(content_type_of(config.exporter), config.headers)
}

/// The exporter of a configuration: the kind and the endpoint have to agree,
/// and every header has to be valid. Without a service name it is
/// `unknown_service`.
pub open spec fn planned(config: crate::config::ConfigView) -> Option<PlanView> {
    let headers = crate::exporter::post::header_map(content_type_of(config.exporter), config.headers);
    match config.endpoint {
        Some(ep) => if config.exporter == crate::sink::kind_of(ep) && headers is Ok {
            Some(
                PlanView {
                    kind: config.exporter,
                    url: ep.address(),
                    headers: headers->Ok_0,
                    service_name: match config.service_name {
                        Some(n) => n,
                        None => "unknown_service"@,
                    },
                    resource_attributes: config.resource_attributes,
                },
            )
        } else {
            None
        },
        None => None,
    }
}

proof fn lemma_content_types()
    ensures
        crate::exporter::post::is_header_value("application/x-protobuf"@),
        crate::exporter::post::is_header_value("application/json"@),
{
    reveal_strlit("application/x-protobuf");
    reveal_strlit("application/json");
}

/// The exporter of a configuration, if it has a usable one. Too many headers for
/// a request make it unusable.
pub fn build_exporter(config: &Config) -> (r: Option<ExporterPlan>)
    ensures
        match r {
            Some(plan) => planned(config@) == Some(plan@),
            None => planned(config@) is None || headers_overflow(config@),
        },
        config.headers@.len() + 1 > crate::exporter::post::MAX_ENTRIES ==> r is None,
{
    proof {
        lemma_content_types();
    }
    let (url, content_type) = match (config.exporter, &config.endpoint) {
        (ExporterKind::Otlp, Some(Endpoint::OtlpHttp(url))) => (url, PROTOBUF_CONTENT_TYPE),
        (ExporterKind::Zipkin, Some(Endpoint::Zipkin(url))) => (url, JSON_CONTENT_TYPE),
        _ => {
            return None;
        },
    };
    match build_header_map(content_type, &config.headers) {
        Ok(headers) => Some(
            ExporterPlan {
                kind: config.exporter,
                url: url.clone(),
                headers,
                service_name: match &config.service_name {
                    Some(n) => n.clone(),
                    None => DEFAULT_SERVICE_NAME.to_owned(),
                },
                resource_attributes: clone_pairs(&config.resource_attributes),
            },
        ),
        Err(_) => None,
    }
}

/// A tracer that the environment enables has a usable exporter for its sink
/// wherever its headers are valid: the kind and the endpoint agree.
pub proof fn law_enabled_environment_exports(env: Seq<(Seq<char>, Seq<char>)>)
    requires
        crate::config::environment_config(env).enabled(),
    ensures
        ({
            let config = crate::config::environment_config(env);
            planned(config) is Some <==> crate::exporter::post::header_map(
                content_type_of(config.exporter),
                config.headers,
            ) is Ok
        }),
{
    crate::config::law_environment_settles(env);
}

/// What became of a span follows from what its channel said: a disabled pipeline
/// ignores it, a channel that takes it accepts it, and without a channel, or
/// with one that does not take it, it is dropped.
pub proof fn law_send_outcomes(accepted: Option<bool>)
    ensures
        outcome_of(false, accepted) == SendOutcome::Ignored,
        outcome_of(true, Some(true)) == SendOutcome::Accepted,
        outcome_of(true, Some(false)) == SendOutcome::Dropped,
        outcome_of(true, None) == SendOutcome::Dropped,
{
}

/// An exporter is made of what the configuration says: the URL of the endpoint,
/// the service name or `unknown_service`, the resource attributes as they are,
/// the configured headers, and the content type of its kind where no header says
/// otherwise. There is none without an endpoint, or where the kind is not the
/// endpoint's, or with a header that is not valid.
pub proof fn law_plan_follows_configuration(config: crate::config::ConfigView)
    ensures
        planned(config) matches Some(plan) ==> {
            &&& config.endpoint matches Some(ep)
            &&& plan.url == ep.address()
            &&& ep is OtlpHttp ==> plan.kind == ExporterKind::Otlp
            &&& ep is Zipkin ==> plan.kind == ExporterKind::Zipkin
            &&& config.service_name matches Some(n) ==> plan.service_name == n
            &&& config.service_name is None ==> plan.service_name == "unknown_service"@
            &&& plan.resource_attributes == config.resource_attributes
            &&& crate::exporter::post::header_map(
                if ep is OtlpHttp {
                    "application/x-protobuf"@
                } else {
                    "application/json"@
                },
                config.headers,
            ) == Ok::<Map<Seq<char>, Seq<u8>>, Seq<char>>(plan.headers)
        },
        config.endpoint is None ==> planned(config) is None,
        config.endpoint matches Some(ep) ==> (config.exporter != crate::sink::kind_of(ep)
            ==> planned(config) is None),
        (forall|i: int|
            0 <= i < config.headers.len() ==> crate::exporter::post::is_header_name(
                (#[trigger] config.headers[i]).0,
            ) && crate::exporter::post::is_header_value(config.headers[i].1)) ==> (
        config.endpoint matches Some(ep) ==> (config.exporter == crate::sink::kind_of(ep)
            ==> planned(config) is Some)),
{
    crate::exporter::post::law_valid_headers(content_type_of(config.exporter), config.headers);
}

/// A channel's answer is what handing the span itself, unchanged, to the sending
/// end of the pipeline gave.
pub(crate) proof fn law_channel_gets_the_span(p: Pipeline, span: FinishedSpan, took: bool)
    ensures
        p.channel_answered(span, took) <==> call_ensures(
            try_send,
            (&p.sending_end(), span),
            took,
        ),
{
}

/// A drop is counted by adding one to the counter of the pipeline, and the count
/// is what reading that counter gives.
pub proof fn law_drops_are_counted_by_one(p: Pipeline, count: usize)
    ensures
        p.counted_a_drop() <==> exists|before: usize|
            #[trigger] call_ensures(
                AtomicUsize::fetch_add,
                (&p.counter(), 1usize, Ordering::Relaxed),
                before,
            ),
        p.count_showed(count) <==> call_ensures(
            AtomicUsize::load,
            (&p.counter(), Ordering::Relaxed),
            count,
        ),
{
}

/// Whatever a pipeline says of a span that was sent: accepted means that its
/// channel took that very span, dropped that a drop was counted and that the
/// channel, where there is one, did not take that very span, and ignored that
/// export is disabled.
pub proof fn law_sent_span_is_accounted_for(p: Pipeline, span: FinishedSpan, r: SendOutcome)
    requires
        call_ensures(Pipeline::send, (&p, span), r),
    ensures
        r == SendOutcome::Accepted ==> p.settings().enabled() && p.has_channel()
            && p.channel_answered(span, true),
        r == SendOutcome::Dropped ==> p.settings().enabled() && p.counted_a_drop() && (
        p.has_channel() ==> p.channel_answered(span, false)),
        r == SendOutcome::Ignored <==> !p.settings().enabled(),
{
}

/// Whatever pipeline is made of a configuration has a channel of 2048 places
/// exactly where that is enabled, and a worker only for a usable exporter; the
/// worker receives from that channel and goes by the configuration.
pub proof fn law_pipeline_follows_configuration(config: Config, r: (Pipeline, Option<Worker>))
    requires
        call_ensures(Pipeline::from_config, (config,), r),
    ensures
        r.0.settings() == config@,
        r.0.has_channel() <==> !config@.disabled && (config@.endpoint is Some || config@.sink_uri
            is Some),
        r.0.has_channel() ==> sender_limit(r.0.sending_end()) == 2048,
        r.1 matches Some(w) ==> {
            &&& r.0.has_channel()
            &&& sender_channel(r.0.sending_end()) == receiver_channel(w.receiver)
            &&& w.max_batch == config.max_export_batch_size
            &&& w.schedule_delay == config.schedule_delay
            &&& config@.endpoint matches Some(ep) && w.plan@.url == ep.address()
            &&& w.plan@.resource_attributes == config@.resource_attributes
        },
        r.1 is None && config@.enabled() ==> planned(config@) is None || headers_overflow(config@),
{
    law_plan_follows_configuration(config@);
}

} // verus!
