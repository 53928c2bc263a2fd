//! The course of one connection, from its acceptance to its end.
//!
//! A stage says what is to be done for the connection, and an event is the answer
//! to it. An event that answers something else than the stage asks for is ignored.

use crate::address::IpAddr;
use crate::config::{ListenConfig, Targets};
use crate::relay::RelayError;
use crate::request::RequestInfo;
use crate::security;
use crate::security::{is_proxy_ip_allowed, InvalidAllowEntry};
use vstd::prelude::*;
use vstd::string::StringExecFns;

verus! {

/// What is to be done for a connection.
pub enum Stage {
    /// Perform the TLS handshake.
    AcceptTls,
    /// Perform the WebSocket handshake.
    AcceptWebSocket,
    /// Connect to the backend at this address.
    Connect { address: String, client_ip: Option<String> },
    /// Relay data between the two.
    Relay { client_ip: Option<String> },
    /// Drop the connection.
    Closed(CloseReason),
}

/// Why a connection is dropped.
pub enum CloseReason {
    /// The proxy is not on the allow list.
    ProxyNotAllowed,
    /// The allow list has an entry that cannot be read.
    InvalidAllowList(InvalidAllowEntry),
    /// The TLS handshake failed.
    TlsHandshakeFailed,
    /// The connection could not be served.
    Failed(ConnectionError),
    /// One of the two sides ended the connection.
    Finished,
}

/// The error of a connection that could not be served.
pub enum ConnectionError {
    Handshake,
    NoHostHeader,
    UnknownDomain(String),
    Connect(String),
    Relay(RelayError),
}

/// What happened to a connection.
pub enum SessionEvent {
    TlsAccepted,
    TlsFailed,
    /// The WebSocket handshake was done for this request.
    Upgraded(RequestInfo),
    UpgradeFailed,
    Connected,
    ConnectFailed,
    RelayEnded(Result<(), RelayError>),
}

impl ConnectionError {
    /// The description of the error.
    pub open spec fn message_text(self) -> Seq<char> {
        match self {
            ConnectionError::Handshake => "Failed to perform WebSocket handshake"@,
            ConnectionError::NoHostHeader => "No Host header found in request"@,
            ConnectionError::UnknownDomain(domain) => "No target configured for domain: "@
                + domain@,
            ConnectionError::Connect(address) => "Failed to connect to target "@ + address@,
            ConnectionError::Relay(error) => error.message_text(),
        }
    }

    /// Describes the error.
    pub fn message(&self) -> (message: String)
        ensures
            message@ == self.message_text(),
    {
        match self {
            ConnectionError::Handshake => "Failed to perform WebSocket handshake".to_owned(),
            ConnectionError::NoHostHeader => "No Host header found in request".to_owned(),
            ConnectionError::UnknownDomain(domain) => "No target configured for domain: ".to_owned()
                .concat(domain.as_str()),
            ConnectionError::Connect(address) => "Failed to connect to target ".to_owned().concat(
                address.as_str(),
            ),
            ConnectionError::Relay(error) => error.message(),
        }
    }
}

impl ListenConfig {
    /// The texts of the allow list, where there is one.
    pub open spec fn allow_list(self) -> Option<Seq<Seq<char>>> {
        match self.allowed_proxy_ips {
            Some(list) => Some(security::texts_of(list@)),
            None => None,
        }
    }
}

/// `stage` is the first stage of a connection, given what the allow list says of
/// the proxy and whether TLS is configured.
pub open spec fn is_first_stage(
    stage: Stage,
    verdict: Result<bool, Seq<char>>,
    tls: bool,
) -> bool {
    match verdict {
        Ok(true) => if tls {
            stage is AcceptTls
        } else {
            stage is AcceptWebSocket
        },
        Ok(false) => stage == Stage::Closed(CloseReason::ProxyNotAllowed),
        Err(entry) => stage matches Stage::Closed(CloseReason::InvalidAllowList(error))
            && error.entry@ == entry,
    }
}

/// `stage` answers a request for a domain: the connection to its backend, or an
/// error where the request names no domain or none that has a backend.
pub open spec fn is_route(stage: Stage, request: RequestInfo, targets: Targets) -> bool {
    match request.host {
        None => stage == Stage::Closed(CloseReason::Failed(ConnectionError::NoHostHeader)),
        Some(host) => if targets@.contains_key(host@) {
            stage matches Stage::Connect { address, client_ip } && address@
                == targets@[host@].address_text() && client_ip == request.client_ip
        } else {
            stage matches Stage::Closed(
                CloseReason::Failed(ConnectionError::UnknownDomain(domain)),
            ) && domain@ == host@
        },
    }
}

/// `after` is the stage that follows `before` under `event`.
pub open spec fn follows(
    before: Stage,
    event: SessionEvent,
    targets: Targets,
    after: Stage,
) -> bool {
    match (before, event) {
        (Stage::AcceptTls, SessionEvent::TlsAccepted) => after == Stage::AcceptWebSocket,
        (Stage::AcceptTls, SessionEvent::TlsFailed) => after == Stage::Closed(
            CloseReason::TlsHandshakeFailed,
        ),
        (Stage::AcceptWebSocket, SessionEvent::Upgraded(request)) => is_route(
            after,
            request,
            targets,
        ),
        (Stage::AcceptWebSocket, SessionEvent::UpgradeFailed) => after == Stage::Closed(
            CloseReason::Failed(ConnectionError::Handshake),
        ),
        (Stage::Connect { client_ip, .. }, SessionEvent::Connected) => after == (Stage::Relay {
            client_ip,
        }),
        (Stage::Connect { address, .. }, SessionEvent::ConnectFailed) => after == Stage::Closed(
            CloseReason::Failed(ConnectionError::Connect(address)),
        ),
        (Stage::Relay { .. }, SessionEvent::RelayEnded(Ok(_))) => after == Stage::Closed(
            CloseReason::Finished,
        ),
        (Stage::Relay { .. }, SessionEvent::RelayEnded(Err(error))) => after == Stage::Closed(
            CloseReason::Failed(ConnectionError::Relay(error)),
        ),
        _ => after == before,
    }
}

impl Stage {
    /// Makes the first stage of what is known of the proxy.
    pub fn first(verdict: Result<bool, InvalidAllowEntry>, tls: bool) -> (stage: Stage)
        ensures
            is_first_stage(stage, security::verdict_view(verdict), tls),
    {
        match verdict {
            Ok(true) => if tls {
                Stage::AcceptTls
            } else {
                Stage::AcceptWebSocket
            },
            Ok(false) => Stage::Closed(CloseReason::ProxyNotAllowed),
            Err(error) => Stage::Closed(CloseReason::InvalidAllowList(error)),
        }
    }

    /// Begins the course of a connection from `proxy_ip`.
    pub fn begin(listen: &ListenConfig, proxy_ip: IpAddr) -> (stage: Stage)
        ensures
            is_first_stage(
                stage,
                security::proxy_verdict(listen.allow_list(), proxy_ip),
                listen.tls is Some,
            ),
            listen.allowed_proxy_ips matches Some(list) ==> forall|i: int|
                0 <= i < list@.len() ==> security::AllowEntry::is_read_as_written(
                    (#[trigger] list@[i])@,
                ),
    {
        Stage::first(
            is_proxy_ip_allowed(proxy_ip, listen.allowed_proxy_ips.as_ref()),
            listen.tls.is_some(),
        )
    }

    /// Finds the backend for a request.
    pub fn route(request: RequestInfo, targets: &Targets) -> (stage: Stage)
        ensures
            is_route(stage, request, *targets),
    {
        let host = match request.host {
            Some(host) => host,
            None => {
                return Stage::Closed(CloseReason::Failed(ConnectionError::NoHostHeader));
            },
        };
        match targets.get(host.as_str()) {
            Some(target) => Stage::Connect {
                address: target.address(),
                client_ip: request.client_ip,
            },
            None => Stage::Closed(CloseReason::Failed(ConnectionError::UnknownDomain(host))),
        }
    }

    /// Moves on to the stage that follows under `event`.
    pub fn next(self, event: SessionEvent, targets: &Targets) -> (next: Stage)
        ensures
            follows(self, event, *targets, next),
    {
        match (self, event) {
            (Stage::AcceptTls, SessionEvent::TlsAccepted) => Stage::AcceptWebSocket,
            (Stage::AcceptTls, SessionEvent::TlsFailed) => Stage::Closed(
                CloseReason::TlsHandshakeFailed,
            ),
            (Stage::AcceptWebSocket, SessionEvent::Upgraded(request)) => Stage::route(
                request,
                targets,
            ),
            (Stage::AcceptWebSocket, SessionEvent::UpgradeFailed) => Stage::Closed(
                CloseReason::Failed(ConnectionError::Handshake),
            ),
            (Stage::Connect { client_ip, .. }, SessionEvent::Connected) => Stage::Relay {
                client_ip,
            },
            (Stage::Connect { address, .. }, SessionEvent::ConnectFailed) => Stage::Closed(
                CloseReason::Failed(ConnectionError::Connect(address)),
            ),
            (Stage::Relay { .. }, SessionEvent::RelayEnded(Ok(_))) => Stage::Closed(
                CloseReason::Finished,
            ),
            (Stage::Relay { .. }, SessionEvent::RelayEnded(Err(error))) => Stage::Closed(
                CloseReason::Failed(ConnectionError::Relay(error)),
            ),
            (current, _) => current,
        }
    }
}

/// `stages` are the stages that a connection from `proxy_ip` goes through under
/// `events`.
pub open spec fn is_session(
    listen: ListenConfig,
    targets: Targets,
    proxy_ip: IpAddr,
    stages: Seq<Stage>,
    events: Seq<SessionEvent>,
) -> bool {
    &&& stages.len() == events.len() + 1
    &&& is_first_stage(
        stages[0],
        security::proxy_verdict(listen.allow_list(), proxy_ip),
        listen.tls is Some,
    )
    &&& forall|i: int|
        0 <= i < events.len() ==> follows(stages[i], #[trigger] events[i], targets, stages[i + 1])
}

/// A closed connection stays closed, for the reason that closed it.
pub proof fn law_closed_stays_closed(
    before: Stage,
    event: SessionEvent,
    targets: Targets,
    after: Stage,
)
    requires
        before is Closed,
        follows(before, event, targets, after),
    ensures
        after == before,
{
}

/// Nothing is done for a connection from a proxy that the allow list does not let
/// in, or where the list cannot be read: it is closed from the first.
pub proof fn law_only_admitted_proxies_are_served(
    listen: ListenConfig,
    targets: Targets,
    proxy_ip: IpAddr,
    stages: Seq<Stage>,
    events: Seq<SessionEvent>,
    i: int,
)
    requires
        is_session(listen, targets, proxy_ip, stages, events),
        0 <= i < stages.len(),
        security::proxy_verdict(listen.allow_list(), proxy_ip) != Ok::<bool, Seq<char>>(true),
    ensures
        stages[i] is Closed,
        stages[i] == stages[0],
    decreases i,
{
    if i > 0 {
        law_only_admitted_proxies_are_served(listen, targets, proxy_ip, stages, events, i - 1);
        assert(follows(stages[i - 1], events[i - 1], targets, stages[i - 1 + 1]));
    }
}

/// With TLS configured, a connection gets to the WebSocket handshake and beyond
/// only after a TLS handshake that succeeded.
pub proof fn law_tls_comes_first(
    listen: ListenConfig,
    targets: Targets,
    proxy_ip: IpAddr,
    stages: Seq<Stage>,
    events: Seq<SessionEvent>,
    i: int,
)
    requires
        is_session(listen, targets, proxy_ip, stages, events),
        0 <= i < stages.len(),
        listen.tls is Some,
        stages[i] is AcceptWebSocket || stages[i] is Connect || stages[i] is Relay,
    ensures
        exists|j: int|
            0 <= j < i && stages[j] is AcceptTls && #[trigger] events[j] is TlsAccepted,
    decreases i,
{
    if i > 0 {
        assert(follows(stages[i - 1], events[i - 1], targets, stages[i - 1 + 1]));
        if stages[i - 1] is AcceptTls {
            assert(events[i - 1] is TlsAccepted);
        } else {
            law_tls_comes_first(listen, targets, proxy_ip, stages, events, i - 1);
        }
    }
}

/// Without TLS configured, no TLS handshake is performed.
pub proof fn law_no_tls_unless_configured(
    listen: ListenConfig,
    targets: Targets,
    proxy_ip: IpAddr,
    stages: Seq<Stage>,
    events: Seq<SessionEvent>,
    i: int,
)
    requires
        is_session(listen, targets, proxy_ip, stages, events),
        0 <= i < stages.len(),
        listen.tls is None,
    ensures
        stages[i] !is AcceptTls,
    decreases i,
{
    if i > 0 {
        law_no_tls_unless_configured(listen, targets, proxy_ip, stages, events, i - 1);
        assert(follows(stages[i - 1], events[i - 1], targets, stages[i - 1 + 1]));
    }
}

/// The relay connects to a backend only for a proxy that may connect, and only to
/// the backend of the domain that the request named.
pub proof fn law_connects_only_to_the_domains_backend(
    listen: ListenConfig,
    targets: Targets,
    proxy_ip: IpAddr,
    stages: Seq<Stage>,
    events: Seq<SessionEvent>,
    i: int,
)
    requires
        is_session(listen, targets, proxy_ip, stages, events),
        0 <= i < stages.len(),
        stages[i] is Connect,
    ensures
        security::proxy_verdict(listen.allow_list(), proxy_ip) == Ok::<bool, Seq<char>>(true),
        exists|j: int|
            0 <= j < i && stages[j] is AcceptWebSocket && (#[trigger] events[j] matches SessionEvent::Upgraded(
                request,
            ) && request.host matches Some(host) && targets@.contains_key(host@)
                && stages[i]->address@ == targets@[host@].address_text()),
    decreases i,
{
    if security::proxy_verdict(listen.allow_list(), proxy_ip) != Ok::<bool, Seq<char>>(true) {
        law_only_admitted_proxies_are_served(listen, targets, proxy_ip, stages, events, i);
    }
    assert(i > 0);
    assert(follows(stages[i - 1], events[i - 1], targets, stages[i - 1 + 1]));
    if stages[i - 1] is Connect {
        law_connects_only_to_the_domains_backend(
            listen,
            targets,
            proxy_ip,
            stages,
            events,
            i - 1,
        );
        let j = choose|j: int|
            0 <= j < i - 1 && stages[j] is AcceptWebSocket && (#[trigger] events[j] matches SessionEvent::Upgraded(
                request,
            ) && request.host matches Some(host) && targets@.contains_key(host@)
                && stages[i - 1]->address@ == targets@[host@].address_text());
        assert(stages[i] == stages[i - 1]);
        assert(events[j] is Upgraded);
    } else {
        assert(events[i - 1] is Upgraded);
    }
}

/// Data is relayed only after a connection to a backend was made.
pub proof fn law_relays_only_when_connected(
    listen: ListenConfig,
    targets: Targets,
    proxy_ip: IpAddr,
    stages: Seq<Stage>,
    events: Seq<SessionEvent>,
    i: int,
)
    requires
        is_session(listen, targets, proxy_ip, stages, events),
        0 <= i < stages.len(),
        stages[i] is Relay,
    ensures
        exists|j: int| 0 <= j < i && stages[j] is Connect && #[trigger] events[j] is Connected,
    decreases i,
{
    if i > 0 {
        assert(follows(stages[i - 1], events[i - 1], targets, stages[i - 1 + 1]));
        if stages[i - 1] is Relay {
            law_relays_only_when_connected(listen, targets, proxy_ip, stages, events, i - 1);
        } else {
            assert(events[i - 1] is Connected);
        }
    }
}

/// A request for a domain without a backend is rejected, with an error that names
/// the domain.
pub proof fn law_unknown_domains_are_rejected(
    request: RequestInfo,
    targets: Targets,
    after: Stage,
)
    requires
        request.host matches Some(host) && !targets@.contains_key(host@),
        follows(Stage::AcceptWebSocket, SessionEvent::Upgraded(request), targets, after),
    ensures
        after matches Stage::Closed(reason) && reason matches CloseReason::Failed(error)
            && error.message_text() == "No target configured for domain: "@ + request.host->0@,
{
}

/// A domain that was given a backend is routed to it, and the routes of all other
/// domains stay as they were.
pub proof fn law_inserted_backend_is_routed_to(
    before: Targets,
    domain: Seq<char>,
    target: crate::config::TargetConfig,
    after: Targets,
    request: RequestInfo,
    stage: Stage,
)
    requires
        after@ == before@.insert(domain, target),
        request.host is Some,
    ensures
        request.host->0@ == domain ==> (is_route(stage, request, after) <==> (
        stage matches Stage::Connect { address, client_ip } && address@ == target.address_text()
            && client_ip == request.client_ip)),
        request.host->0@ != domain ==> (is_route(stage, request, after) <==> is_route(
            stage,
            request,
            before,
        )),
{
}

/// How far a connection has come.
pub open spec fn progress(stage: Stage) -> nat {
    match stage {
        Stage::AcceptTls => 0,
        Stage::AcceptWebSocket => 1,
        Stage::Connect { .. } => 2,
        Stage::Relay { .. } => 3,
        Stage::Closed(_) => 4,
    }
}

/// A connection never goes back: an event leaves its stage as it is or moves it
/// on.
pub proof fn law_connections_only_move_on(
    before: Stage,
    event: SessionEvent,
    targets: Targets,
    after: Stage,
)
    requires
        follows(before, event, targets, after),
    ensures
        after == before || progress(before) < progress(after),
{
}

/// Without an allow list every proxy is served. With one, a proxy is served exactly
/// where one of the texts of the whole list is its address or a network that holds it.
/// What is served begins with the TLS handshake where TLS is configured, and else with
/// that of the WebSocket.
pub proof fn law_the_whole_list_decides(listen: ListenConfig, proxy_ip: IpAddr, stage: Stage)
    requires
        call_ensures(Stage::begin, (&listen, proxy_ip), stage),
    ensures
        listen.allowed_proxy_ips is None ==> stage !is Closed,
        listen.allowed_proxy_ips matches Some(list) ==> (stage !is Closed <==> exists|i: int|
            0 <= i < list@.len() && security::text_admits((#[trigger] list@[i])@, proxy_ip)),
        stage is AcceptTls || stage is AcceptWebSocket || stage is Closed,
        stage !is Closed ==> (stage is AcceptTls <==> listen.tls is Some),
{
    if let Some(list) = listen.allowed_proxy_ips {
        security::lemma_listed_strings(list@, proxy_ip);
    }
}

/// A proxy whose address stands in the allow list in its usual notation is served, and
/// so is one that lies in a network whose usual notation stands there.
pub proof fn law_spelled_proxies_are_served(
    listen: ListenConfig,
    list: Vec<String>,
    i: int,
    net: crate::address::IpNet,
    proxy_ip: IpAddr,
    stage: Stage,
)
    requires
        call_ensures(Stage::begin, (&listen, proxy_ip), stage),
        listen.allowed_proxy_ips == Some(list),
        0 <= i < list@.len(),
        crate::address::spells_address(list@[i]@, proxy_ip) || (crate::address::spells_network(
            list@[i]@,
            net,
        ) && net.holds(proxy_ip)),
    ensures
        stage !is Closed,
{
    assert(security::AllowEntry::is_read_as_written(list@[i]@));
    assert(security::text_admits(list@[i]@, proxy_ip));
    security::lemma_listed_strings(list@, proxy_ip);
}

/// A proxy that no text of the allow list lets in is told apart from a list that
/// cannot be read: the reason is the first text that is neither an address nor a
/// network, where there is one, and else that the proxy is not allowed.
pub proof fn law_rejections_have_their_reason(
    listen: ListenConfig,
    list: Vec<String>,
    n: int,
    proxy_ip: IpAddr,
    stage: Stage,
)
    requires
        call_ensures(Stage::begin, (&listen, proxy_ip), stage),
        listen.allowed_proxy_ips == Some(list),
        forall|i: int|
            0 <= i < list@.len() ==> !security::text_admits((#[trigger] list@[i])@, proxy_ip),
        0 <= n <= list@.len(),
        forall|i: int| 0 <= i < n ==> security::text_is_readable((#[trigger] list@[i])@),
        n < list@.len() ==> !security::text_is_readable(list@[n]@),
    ensures
        n == list@.len() ==> stage == Stage::Closed(CloseReason::ProxyNotAllowed),
        n < list@.len() ==> (stage matches Stage::Closed(CloseReason::InvalidAllowList(error))
            && error.entry@ == list@[n]@),
{
    security::lemma_unlisted_strings(list@, n, proxy_ip);
}

/// A first stage is open exactly where the proxy may connect, and a rejection keeps
/// the reason.
pub proof fn law_first_stage_keeps_the_verdict(
    verdict: Result<bool, InvalidAllowEntry>,
    tls: bool,
    stage: Stage,
)
    requires
        call_ensures(Stage::first, (verdict, tls), stage),
    ensures
        stage is AcceptTls <==> verdict == Ok::<bool, InvalidAllowEntry>(true) && tls,
        stage is AcceptWebSocket <==> verdict == Ok::<bool, InvalidAllowEntry>(true) && !tls,
        stage == Stage::Closed(CloseReason::ProxyNotAllowed) <==> verdict == Ok::<
            bool,
            InvalidAllowEntry,
        >(false),
        verdict matches Err(error) ==> (stage matches Stage::Closed(
            CloseReason::InvalidAllowList(kept),
        ) && kept.entry@ == error.entry@),
{
}

/// A request for a configured domain goes on to the backend of that domain, whether or
/// not its client is known: to the host, a colon and the number of the port. The
/// client is kept.
pub proof fn law_configured_domains_are_connected(
    request: RequestInfo,
    host: String,
    targets: Targets,
    after: Stage,
)
    requires
        call_ensures(
            Stage::next,
            (Stage::AcceptWebSocket, SessionEvent::Upgraded(request), &targets),
            after,
        ) || call_ensures(Stage::route, (request, &targets), after),
        request.host == Some(host),
        targets@.contains_key(host@),
    ensures
        after matches Stage::Connect { address, client_ip } && client_ip == request.client_ip
            && address@ == targets@[host@].host@ + seq![':'] + crate::text::decimal(
            targets@[host@].port as nat,
        ),
{
}

/// Who the client is does not change where a request goes: two requests for one domain
/// are both connected, to the same address, or both rejected.
pub proof fn law_client_does_not_change_the_route(
    one: RequestInfo,
    other: RequestInfo,
    targets: Targets,
    one_after: Stage,
    other_after: Stage,
)
    requires
        one.host.deep_view() == other.host.deep_view(),
        call_ensures(
            Stage::next,
            (Stage::AcceptWebSocket, SessionEvent::Upgraded(one), &targets),
            one_after,
        ),
        call_ensures(
            Stage::next,
            (Stage::AcceptWebSocket, SessionEvent::Upgraded(other), &targets),
            other_after,
        ),
    ensures
        one_after is Connect <==> other_after is Connect,
        one_after is Closed <==> other_after is Closed,
        one_after is Connect ==> one_after->address@ == other_after->address@,
{
}

/// A request is rejected exactly where it names no domain, or one without a backend.
/// The reason tells which, and names the domain.
pub proof fn law_rejected_requests_have_no_backend(
    request: RequestInfo,
    targets: Targets,
    after: Stage,
)
    requires
        call_ensures(
            Stage::next,
            (Stage::AcceptWebSocket, SessionEvent::Upgraded(request), &targets),
            after,
        ) || call_ensures(Stage::route, (request, &targets), after),
    ensures
        after is Closed || after is Connect,
        after is Closed <==> (request.host matches Some(host) ==> !targets@.contains_key(host@)),
        after == Stage::Closed(CloseReason::Failed(ConnectionError::NoHostHeader))
            <==> request.host is None,
        (request.host matches Some(host) && !targets@.contains_key(host@)) ==> (
        after matches Stage::Closed(CloseReason::Failed(ConnectionError::UnknownDomain(domain)))
            && domain@ == request.host->0@),
{
}

/// `event` answers what is to be done in `stage`.
pub open spec fn answers(event: SessionEvent, stage: Stage) -> bool {
    match stage {
        Stage::AcceptTls => event is TlsAccepted || event is TlsFailed,
        Stage::AcceptWebSocket => event is Upgraded || event is UpgradeFailed,
        Stage::Connect { .. } => event is Connected || event is ConnectFailed,
        Stage::Relay { .. } => event is RelayEnded,
        Stage::Closed(_) => false,
    }
}

/// A connection moves on exactly under the events that answer what is to be done.
pub proof fn law_only_answers_move_a_connection(
    before: Stage,
    event: SessionEvent,
    targets: Targets,
    after: Stage,
)
    requires
        call_ensures(Stage::next, (before, event, &targets), after),
    ensures
        after == before <==> !answers(event, before),
{
}

/// The TLS handshake leads to that of the WebSocket exactly where it succeeds, and to
/// an end of its own where it fails.
pub proof fn law_tls_handshake_leads_to_the_websocket(
    event: SessionEvent,
    targets: Targets,
    after: Stage,
)
    requires
        call_ensures(Stage::next, (Stage::AcceptTls, event, &targets), after),
    ensures
        after is AcceptWebSocket <==> event is TlsAccepted,
        after is Closed <==> event is TlsFailed,
        after is Closed ==> after == Stage::Closed(CloseReason::TlsHandshakeFailed),
        after is AcceptTls || after is AcceptWebSocket || after is Closed,
{
}

/// A WebSocket handshake that fails ends the connection with the error of that.
pub proof fn law_failed_handshake_ends_the_connection(
    event: SessionEvent,
    targets: Targets,
    after: Stage,
)
    requires
        call_ensures(Stage::next, (Stage::AcceptWebSocket, event, &targets), after),
    ensures
        after == Stage::Closed(CloseReason::Failed(ConnectionError::Handshake))
            <==> event is UpgradeFailed,
        after is Connect ==> event is Upgraded,
{
}

/// Data is relayed for the same client exactly where the backend could be connected
/// to, whatever its address, and else the connection ends with an error that holds the
/// address.
pub proof fn law_connected_backends_are_relayed(
    address: String,
    client_ip: Option<String>,
    event: SessionEvent,
    targets: Targets,
    after: Stage,
)
    requires
        call_ensures(Stage::next, (Stage::Connect { address, client_ip }, event, &targets), after),
    ensures
        after is Relay <==> event is Connected,
        after is Relay ==> after == (Stage::Relay { client_ip }),
        after is Closed <==> event is ConnectFailed,
        after is Closed ==> after == Stage::Closed(
            CloseReason::Failed(ConnectionError::Connect(address)),
        ),
{
}

/// Relaying ends exactly where one of the two directions has ended, and the connection
/// is finished exactly where that was no failure. A failure keeps its error.
pub proof fn law_relaying_ends_with_its_outcome(
    client_ip: Option<String>,
    event: SessionEvent,
    targets: Targets,
    after: Stage,
    error: RelayError,
)
    requires
        call_ensures(Stage::next, (Stage::Relay { client_ip }, event, &targets), after),
    ensures
        after is Relay || after is Closed,
        after is Closed <==> event is RelayEnded,
        after == Stage::Closed(CloseReason::Finished) <==> (
        event matches SessionEvent::RelayEnded(Ok(_))),
        after == Stage::Closed(CloseReason::Failed(ConnectionError::Relay(error))) <==> event
            == SessionEvent::RelayEnded(Err::<(), RelayError>(error)),
{
}

/// A closed connection stays closed, for the reason that closed it, whatever happens.
pub proof fn law_closing_is_final(
    before: Stage,
    event: SessionEvent,
    targets: Targets,
    after: Stage,
)
    requires
        call_ensures(Stage::next, (before, event, &targets), after),
        before is Closed,
    ensures
        after == before,
{
}

/// A connection from a proxy that may connect, for a configured domain, comes to be
/// relayed where its handshakes succeed and the backend answers, with TLS and without,
/// and whether or not its client is known.
pub proof fn law_good_connections_are_relayed(
    listen: ListenConfig,
    proxy_ip: IpAddr,
    request: RequestInfo,
    host: String,
    targets: Targets,
    first: Stage,
    accepted: Stage,
    routed: Stage,
    connected: Stage,
)
    requires
        listen.allowed_proxy_ips matches Some(list) ==> exists|i: int|
            0 <= i < list@.len() && security::text_admits((#[trigger] list@[i])@, proxy_ip),
        request.host == Some(host),
        targets@.contains_key(host@),
        call_ensures(Stage::begin, (&listen, proxy_ip), first),
        if listen.tls is Some {
            call_ensures(Stage::next, (first, SessionEvent::TlsAccepted, &targets), accepted)
        } else {
            accepted == first
        },
        call_ensures(Stage::next, (accepted, SessionEvent::Upgraded(request), &targets), routed),
        call_ensures(Stage::next, (routed, SessionEvent::Connected, &targets), connected),
    ensures
        connected == (Stage::Relay { client_ip: request.client_ip }),
{
    law_the_whole_list_decides(listen, proxy_ip, first);
}

/// The error of a connection names what it failed on.
pub proof fn law_connection_errors_name_their_subject(error: ConnectionError, message: String)
    requires
        call_ensures(ConnectionError::message, (&error,), message),
    ensures
        match error {
            ConnectionError::Handshake => message@ == "Failed to perform WebSocket handshake"@,
            ConnectionError::NoHostHeader => message@ == "No Host header found in request"@,
            ConnectionError::UnknownDomain(domain) => message@
                == "No target configured for domain: "@ + domain@,
            ConnectionError::Connect(address) => message@ == "Failed to connect to target "@
                + address@,
            ConnectionError::Relay(RelayError::TcpWrite) => message@
                == "Failed to write WebSocket data to TCP connection"@,
            ConnectionError::Relay(RelayError::WsSend) => message@
                == "Failed to send TCP data via WebSocket"@,
        },
{
}

} // verus!
