//! The scan engine: the probe of one port, as the steps that its driver
//! takes and as the entry that it leaves in the report, and how a scan's
//! duration is shown.

use std::time::Duration;
use vstd::prelude::*;
use vstd::string::StringExecFns;
use crate::signatures::{
    identified, identify_service, name_view, signature_views, text_view, Signature,
    SignatureView,
};
use crate::text::{decimal, decimal_string};

verus! {

/// The whole seconds of a duration.
pub uninterp spec fn whole_seconds(duration: Duration) -> u64;

/// The part of a duration beyond its whole seconds, in nanoseconds.
pub uninterp spec fn subsecond_nanos(duration: Duration) -> u32;

/// `Duration::as_secs` of std returns the number of whole seconds that the
/// duration holds.
pub assume_specification[ Duration::as_secs ](duration: &Duration) -> (seconds: u64)
    ensures
        seconds == whole_seconds(*duration),
;

/// `Duration::subsec_nanos` of std returns the fractional part of the
/// duration in nanoseconds.
pub assume_specification[ Duration::subsec_nanos ](duration: &Duration) -> (nanos: u32)
    ensures
        nanos == subsecond_nanos(*duration),
;

/// How a duration of `seconds` whole seconds and `nanos` further nanoseconds
/// is shown: by its two or three largest units from hours down to seconds,
/// by its milliseconds below one second, by its nanoseconds below one
/// millisecond.
pub open spec fn duration_text(seconds: nat, nanos: nat) -> Seq<char> {
    let hours = seconds / 3600;
    let minutes = (seconds % 3600) / 60;
    let rest = seconds % 60;
    let millis = nanos / 1_000_000;
    if hours > 0 {
        decimal(hours) + "h "@ + decimal(minutes) + "m "@ + decimal(rest) + "s"@
    } else if minutes > 0 {
        decimal(minutes) + "m "@ + decimal(rest) + "s"@
    } else if rest > 0 {
        decimal(rest) + "s "@ + decimal(millis) + "ms"@
    } else if millis > 0 {
        decimal(millis) + "ms"@
    } else {
        decimal(nanos) + "ns"@
    }
}

/// Shows a duration given by its whole seconds and its further nanoseconds.
pub fn format_duration_parts(seconds: u64, nanos: u32) -> (text: String)
    ensures
        text@ == duration_text(seconds as nat, nanos as nat),
{
    let hours = seconds / 3600;
    let minutes = (seconds % 3600) / 60;
    let rest = seconds % 60;
    let millis = nanos / 1_000_000;
    if hours > 0 {
        let mut text = decimal_string(hours as u128);
        text.append("h ");
        text.append(decimal_string(minutes as u128).as_str());
        text.append("m ");
        text.append(decimal_string(rest as u128).as_str());
        text.append("s");
        text
    } else if minutes > 0 {
        let mut text = decimal_string(minutes as u128);
        text.append("m ");
        text.append(decimal_string(rest as u128).as_str());
        text.append("s");
        text
    } else if rest > 0 {
        let mut text = decimal_string(rest as u128);
        text.append("s ");
        text.append(decimal_string(millis as u128).as_str());
        text.append("ms");
        text
    } else if millis > 0 {
        let mut text = decimal_string(millis as u128);
        text.append("ms");
        text
    } else {
        let mut text = decimal_string(nanos as u128);
        text.append("ns");
        text
    }
}

/// Shows a duration in its largest fitting units.
pub fn format_duration(duration: Duration) -> (text: String)
    ensures
        text@ == duration_text(
            whole_seconds(duration) as nat,
            subsecond_nanos(duration) as nat,
        ),
{
    format_duration_parts(duration.as_secs(), duration.subsec_nanos())
}

/// Where the probe of one port stands. `Closed`, `OpenIdentified` and
/// `OpenUnidentified` are final: no event leads out of them.
#[derive(Debug, Clone, Copy, PartialEq, Eq, Structural)]
pub enum ProbeState {
    Pending,
    Connecting,
    Closed,
    Connected,
    Fetching,
    OpenIdentified,
    OpenUnidentified,
}

/// What happened to a probe: it was told to go on, or the connection or the
/// request it had asked for ended.
#[derive(Debug)]
pub enum ProbeEvent {
    Proceed,
    ConnectFailed,
    ConnectSucceeded,
    FetchFailed,
    FetchSucceeded(String),
}

/// What a probe asks of its driver next: to open the connection, to send
/// the request, to tell it to go on, or nothing more.
#[derive(Debug, Clone, Copy, PartialEq, Eq, Structural)]
pub enum ProbeAction {
    Connect,
    Fetch,
    Continue,
    Stop,
}

/// The probe of one port: its state, and the service found once the state
/// is `OpenIdentified`.
#[derive(Debug)]
pub struct Probe {
    pub port: u16,
    pub state: ProbeState,
    pub service: Option<String>,
}

/// An event with the response body as plain characters.
pub enum EventView {
    Proceed,
    ConnectFailed,
    ConnectSucceeded,
    FetchFailed,
    FetchSucceeded(Seq<char>),
}

/// A probe with the service name as plain characters.
pub struct ProbeView {
    pub port: u16,
    pub state: ProbeState,
    pub service: Option<Seq<char>>,
}

impl View for ProbeEvent {
    type V = EventView;

    open spec fn view(&self) -> EventView {
        match *self {
            ProbeEvent::Proceed => EventView::Proceed,
            ProbeEvent::ConnectFailed => EventView::ConnectFailed,
            ProbeEvent::ConnectSucceeded => EventView::ConnectSucceeded,
            ProbeEvent::FetchFailed => EventView::FetchFailed,
            ProbeEvent::FetchSucceeded(body) => EventView::FetchSucceeded(body@),
        }
    }
}

impl View for Probe {
    type V = ProbeView;

    open spec fn view(&self) -> ProbeView {
        ProbeView { port: self.port, state: self.state, service: name_view(self.service) }
    }
}

/// The state is final.
pub open spec fn is_final(state: ProbeState) -> bool {
    state == ProbeState::Closed || state == ProbeState::OpenIdentified || state
        == ProbeState::OpenUnidentified
}

/// The probe of `port` before anything happened.
pub open spec fn fresh(port: u16) -> ProbeView {
    ProbeView { port, state: ProbeState::Pending, service: None }
}

/// The probe after `event`. A failed connection closes the port for good; a
/// failed request leaves it open without a service; a response leaves it
/// open with the service that the signatures find in its body. An event
/// that the state does not wait for changes nothing.
pub open spec fn after(
    probe: ProbeView,
    event: EventView,
    signatures: Seq<SignatureView>,
) -> ProbeView {
    match (probe.state, event) {
        (ProbeState::Pending, EventView::Proceed) => ProbeView {
            state: ProbeState::Connecting,
            ..probe
        },
        (ProbeState::Connecting, EventView::ConnectFailed) => ProbeView {
            state: ProbeState::Closed,
            ..probe
        },
        (ProbeState::Connecting, EventView::ConnectSucceeded) => ProbeView {
            state: ProbeState::Connected,
            ..probe
        },
        (ProbeState::Connected, EventView::Proceed) => ProbeView {
            state: ProbeState::Fetching,
            ..probe
        },
        (ProbeState::Fetching, EventView::FetchFailed) => ProbeView {
            state: ProbeState::OpenUnidentified,
            ..probe
        },
        (ProbeState::Fetching, EventView::FetchSucceeded(body)) => {
            let service = identified(body, signatures);
            ProbeView {
                port: probe.port,
                state: if service is Some {
                    ProbeState::OpenIdentified
                } else {
                    ProbeState::OpenUnidentified
                },
                service,
            }
        },
        _ => probe,
    }
}

/// What the probe asks for when `event` reaches it in `state`.
pub open spec fn action_for(state: ProbeState, event: EventView) -> ProbeAction {
    match (state, event) {
        (ProbeState::Pending, EventView::Proceed) => ProbeAction::Connect,
        (ProbeState::Connecting, EventView::ConnectSucceeded) => ProbeAction::Continue,
        (ProbeState::Connected, EventView::Proceed) => ProbeAction::Fetch,
        _ => ProbeAction::Stop,
    }
}

/// What the probe contributes to the report: nothing unless it ended open.
pub open spec fn result_of(probe: ProbeView) -> Option<(u16, Option<Seq<char>>)> {
    match probe.state {
        ProbeState::OpenIdentified => Some((probe.port, probe.service)),
        ProbeState::OpenUnidentified => Some((probe.port, None)),
        _ => None,
    }
}

/// One entry of the report with the service name as plain characters.
pub open spec fn entry_view(entry: (u16, Option<String>)) -> (u16, Option<Seq<char>>) {
    (entry.0, name_view(entry.1))
}

/// An optional entry with the service name as plain characters.
pub open spec fn found_view(found: Option<(u16, Option<String>)>) -> Option<
    (u16, Option<Seq<char>>),
> {
    match found {
        Some(entry) => Some(entry_view(entry)),
        None => None,
    }
}

impl Probe {
    /// The probe of `port`, not yet begun.
    pub fn new(port: u16) -> (probe: Probe)
        ensures
            probe@ == fresh(port),
    {
        Probe { port, state: ProbeState::Pending, service: None }
    }

    /// Takes `event` in and says what to do next.
    pub fn step(&mut self, event: ProbeEvent, signatures: &[Signature]) -> (action: ProbeAction)
        ensures
            final(self)@ == after(old(self)@, event@, signature_views(signatures@)),
            action == action_for(old(self).state, event@),
    {
        match (self.state, event) {
            (ProbeState::Pending, ProbeEvent::Proceed) => {
                self.state = ProbeState::Connecting;
                ProbeAction::Connect
            },
            (ProbeState::Connecting, ProbeEvent::ConnectFailed) => {
                self.state = ProbeState::Closed;
                ProbeAction::Stop
            },
            (ProbeState::Connecting, ProbeEvent::ConnectSucceeded) => {
                self.state = ProbeState::Connected;
                ProbeAction::Continue
            },
            (ProbeState::Connected, ProbeEvent::Proceed) => {
                self.state = ProbeState::Fetching;
                ProbeAction::Fetch
            },
            (ProbeState::Fetching, ProbeEvent::FetchFailed) => {
                self.state = ProbeState::OpenUnidentified;
                ProbeAction::Stop
            },
            (ProbeState::Fetching, ProbeEvent::FetchSucceeded(body)) => {
                let service = identify_service(body.as_str(), signatures);
                self.state = if service.is_some() {
                    ProbeState::OpenIdentified
                } else {
                    ProbeState::OpenUnidentified
                };
                self.service = service;
                ProbeAction::Stop
            },
            _ => ProbeAction::Stop,
        }
    }

    /// Whether the probe has ended.
    pub fn is_finished(&self) -> (finished: bool)
        ensures
            finished == is_final(self.state),
    {
        self.state == ProbeState::Closed || self.state == ProbeState::OpenIdentified || self.state
            == ProbeState::OpenUnidentified
    }

    /// What the probe contributes to the report.
    pub fn result(self) -> (found: Option<(u16, Option<String>)>)
        ensures
            found_view(found) == result_of(self@),
    {
        match self.state {
            ProbeState::OpenIdentified => Some((self.port, self.service)),
            ProbeState::OpenUnidentified => Some((self.port, None)),
            _ => None,
        }
    }
}

/// What the probe of `port` amounts to, given what the network showed: no
/// entry where the connection failed; else an entry for the port, with the
/// service that the signatures find in the response body, and without one
/// where no body came back.
pub open spec fn outcome(
    port: u16,
    connected: bool,
    body: Option<Seq<char>>,
    signatures: Seq<SignatureView>,
) -> Option<(u16, Option<Seq<char>>)> {
    if !connected {
        None
    } else {
        Some(
            (
                port,
                match body {
                    Some(text) => identified(text, signatures),
                    None => None,
                },
            ),
        )
    }
}

/// Decides the report entry of one port from what its probe observed:
/// whether the connection was made, and the response body if one was read.
pub fn scan_port(
    port: u16,
    connected: bool,
    body: Option<&str>,
    signatures: &[Signature],
) -> (found: Option<(u16, Option<String>)>)
    ensures
        found_view(found) == outcome(
            port,
            connected,
            text_view(body),
            signature_views(signatures@),
        ),
{
    if !connected {
        return None;
    }
    let service = match body {
        Some(text) => identify_service(text, signatures),
        None => None,
    };
    Some((port, service))
}

/// The events that reach a probe whose connection and request end as
/// given.
pub open spec fn events_of(connected: bool, body: Option<Seq<char>>) -> Seq<EventView> {
    if !connected {
        seq![EventView::Proceed, EventView::ConnectFailed]
    } else {
        seq![
            EventView::Proceed,
            EventView::ConnectSucceeded,
            EventView::Proceed,
            match body {
                Some(text) => EventView::FetchSucceeded(text),
                None => EventView::FetchFailed,
            },
        ]
    }
}

/// The probe after a run of events, taken in order.
pub open spec fn after_all(
    probe: ProbeView,
    events: Seq<EventView>,
    signatures: Seq<SignatureView>,
) -> ProbeView
    decreases events.len(),
{
    if events.len() == 0 {
        probe
    } else {
        after(after_all(probe, events.drop_last(), signatures), events.last(), signatures)
    }
}

/// A probe that has ended stays as it is whatever reaches it: there is no
/// way back and no second try.
pub proof fn lemma_final_states_absorb(
    probe: ProbeView,
    event: EventView,
    signatures: Seq<SignatureView>,
)
    requires
        is_final(probe.state),
    ensures
        after(probe, event, signatures) == probe,
        action_for(probe.state, event) == ProbeAction::Stop,
{
}

/// Driving a fresh probe through the events of an observation ends it, and
/// what it then contributes is what `scan_port` decides for that
/// observation.
pub proof fn lemma_probe_run_gives_outcome(
    port: u16,
    connected: bool,
    body: Option<Seq<char>>,
    signatures: Seq<SignatureView>,
)
    ensures
        is_final(after_all(fresh(port), events_of(connected, body), signatures).state),
        result_of(after_all(fresh(port), events_of(connected, body), signatures)) == outcome(
            port,
            connected,
            body,
            signatures,
        ),
{
    let events = events_of(connected, body);
    let start = fresh(port);
    reveal_with_fuel(after_all, 5);
    if !connected {
        assert(events.drop_last() =~= seq![EventView::Proceed]);
        assert(events.drop_last().drop_last() =~= Seq::<EventView>::empty());
    } else {
        let e3 = events.drop_last();
        let e2 = e3.drop_last();
        let e1 = e2.drop_last();
        assert(e3 =~= seq![EventView::Proceed, EventView::ConnectSucceeded, EventView::Proceed]);
        assert(e2 =~= seq![EventView::Proceed, EventView::ConnectSucceeded]);
        assert(e1 =~= seq![EventView::Proceed]);
        assert(e1.drop_last() =~= Seq::<EventView>::empty());
        assert(after_all(start, e1, signatures).state == ProbeState::Connecting);
        assert(after_all(start, e2, signatures).state == ProbeState::Connected);
        assert(after_all(start, e3, signatures).state == ProbeState::Fetching);
    }
}

/// How long a probe waits for the connection, in milliseconds.
pub const CONNECT_TIMEOUT_MILLIS: u64 = 200;

/// How long a probe waits for the response, in seconds.
pub const REQUEST_TIMEOUT_SECS: u64 = 1;

/// The name by which a probe makes itself known in its request.
pub const USER_AGENT: &'static str = "port-explorer";

/// The address that a probe asks over plain HTTP: the root of the target at
/// the port.
pub fn probe_url(address: &str, port: u16) -> (url: String)
    ensures
        url@ == "http://"@ + address@ + ":"@ + decimal(port as nat),
{
    let mut url = "http://".to_owned();
    url.append(address);
    url.append(":");
    url.append(decimal_string(port as u128).as_str());
    url
}

} // verus!
