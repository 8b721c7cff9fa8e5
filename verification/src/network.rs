//! Network intelligence: protocol and C2 heuristics on indicators, the
//! endpoints built from them, what GeoIP and RDAP replies add to an
//! endpoint, the network graph and the destination summary.
//!
//! The lookups themselves are network I/O and stand outside this library;
//! what they send and what is done with their replies stands here.
use vstd::prelude::*;
use crate::model::{
    evidence_views, network_views, Evidence, EvidenceView, NetworkIndicator,
    NetworkIndicatorView, NetworkKind,
};
use crate::report::{
    edge_views, meta_views, node_views, GraphEdge, GraphEdgeView, GraphNode, GraphNodeView,
    GraphPayload, MetaValue, MetaValueView,
};
use crate::rename::join_with;
use crate::semantic::join_first;
use crate::strings::take_upto;
use crate::text::{
    contains_seq, copy_opt_string, copy_string, dec_of, eq_str, has, lower_chars, lower_seq,
    opt_view, owned, push_dec, push_str, push_string, space, starts_with, starts_with_seq,
    str_chars, string_of, strings_view, trim, trim_chars,
};

verus! {

// ---------------------------------------------------------------------------
// Heuristics on an indicator's text
// ---------------------------------------------------------------------------

/// The protocol a text suggests by its scheme or by words in it.
pub open spec fn spec_protocol_guess(v: Seq<char>) -> Option<Seq<char>> {
    let l = lower_seq(v);
    if starts_with_seq(l, "https://"@) {
        Some("https"@)
    } else if starts_with_seq(l, "http://"@) {
        Some("http"@)
    } else if starts_with_seq(l, "ws://"@) || starts_with_seq(l, "wss://"@) {
        Some("websocket"@)
    } else if contains_seq(l, "mqtt"@) {
        Some("mqtt"@)
    } else if contains_seq(l, "ftp://"@) {
        Some("ftp"@)
    } else if contains_seq(l, "smtp"@) {
        Some("smtp"@)
    } else if contains_seq(l, "\\\\.\\pipe"@) || contains_seq(l, "\\\\"@) {
        Some("named_pipe"@)
    } else {
        None
    }
}

/// Whether a text names a service that command-and-control traffic favours.
pub open spec fn spec_looks_like_c2(v: Seq<char>) -> bool {
    let l = lower_seq(v);
    contains_seq(l, "ngrok"@) || contains_seq(l, "duckdns"@) || contains_seq(l, ".onion"@)
        || contains_seq(l, "pastebin"@) || contains_seq(l, "discord.com/api/webhooks"@)
        || contains_seq(l, "/gate"@) || contains_seq(l, "/panel"@)
}

/// The hint given where a text speaks of sleeping, beacons or jitter.
pub open spec fn beacon_note() -> Seq<char> {
    "Static strings suggest sleep/jitter-based beaconing; confirm dynamically"@
}

pub open spec fn spec_beacon_hint(v: Seq<char>) -> Option<Seq<char>> {
    let l = lower_seq(v);
    if contains_seq(l, "sleep"@) || contains_seq(l, "beacon"@) || contains_seq(l, "jitter"@) {
        Some(beacon_note())
    } else {
        None
    }
}

/// The protocol a text suggests, if any.
pub fn protocol_guess(v: &str) -> (r: Option<String>)
    ensures
        opt_view(r) == spec_protocol_guess(v@),
{
    let c = str_chars(v);
    let l = lower_chars(c.as_slice());
    let l = l.as_slice();
    if starts_with(l, "https://") {
        Some(owned("https"))
    } else if starts_with(l, "http://") {
        Some(owned("http"))
    } else if starts_with(l, "ws://") || starts_with(l, "wss://") {
        Some(owned("websocket"))
    } else if has(l, "mqtt") {
        Some(owned("mqtt"))
    } else if has(l, "ftp://") {
        Some(owned("ftp"))
    } else if has(l, "smtp") {
        Some(owned("smtp"))
    } else if has(l, "\\\\.\\pipe") || has(l, "\\\\") {
        Some(owned("named_pipe"))
    } else {
        None
    }
}

/// Whether a text looks like a command-and-control endpoint.
pub fn looks_like_c2(v: &str) -> (r: bool)
    ensures
        r == spec_looks_like_c2(v@),
{
    let c = str_chars(v);
    let l = lower_chars(c.as_slice());
    let l = l.as_slice();
    has(l, "ngrok") || has(l, "duckdns") || has(l, ".onion") || has(l, "pastebin") || has(
        l,
        "discord.com/api/webhooks",
    ) || has(l, "/gate") || has(l, "/panel")
}

/// A beaconing hint, where the text speaks of sleeping, beacons or jitter.
pub fn beacon_hint(v: &str) -> (r: Option<String>)
    ensures
        opt_view(r) == spec_beacon_hint(v@),
{
    let c = str_chars(v);
    let l = lower_chars(c.as_slice());
    let l = l.as_slice();
    if has(l, "sleep") || has(l, "beacon") || has(l, "jitter") {
        Some(owned("Static strings suggest sleep/jitter-based beaconing; confirm dynamically"))
    } else {
        None
    }
}

// ---------------------------------------------------------------------------
// The host an indicator names
// ---------------------------------------------------------------------------

/// What `url::Url::parse` makes of a text: `None` where it does not parse,
/// else the host of the parsed URL, if it has one.
pub uninterp spec fn url_host(s: Seq<char>) -> Option<Option<Seq<char>>>;

pub open spec fn opt_opt_view(o: Option<Option<String>>) -> Option<Option<Seq<char>>> {
    match o {
        Some(h) => Some(opt_view(h)),
        None => None,
    }
}

/// Parses the text with `url::Url::parse` and takes the URL's `host_str`.
/// The contract names the result and says nothing of which texts parse or
/// which host they give.
#[verifier::external_body]
fn parse_url_host(s: &str) -> (r: Option<Option<String>>)
    ensures
        opt_opt_view(r) == url_host(s@),
{
    match url::Url::parse(s) {
        Ok(u) => Some(u.host_str().map(str::to_string)),
        Err(_) => None,
    }
}

pub open spec fn is_sep(c: char) -> bool {
    c == '/' || c == ':'
}

/// The index of the first `/` or `:` at `i` or later, or the length.
pub open spec fn first_sep_from(s: Seq<char>, i: int) -> int
    decreases s.len() - i,
{
    if i < 0 || i >= s.len() {
        s.len() as int
    } else if is_sep(s[i]) {
        i
    } else {
        first_sep_from(s, i + 1)
    }
}

/// The host of a text that is no URL: what stands before the first `/` or
/// `:`, trimmed, where the text holds a dot and no space.
pub open spec fn host_fallback(v: Seq<char>) -> Option<Seq<char>> {
    if contains_seq(v, "."@) && !contains_seq(v, " "@) {
        Some(trim(v.take(first_sep_from(v, 0))))
    } else {
        None
    }
}

/// The host of an indicator, given what URL parsing made of it.
pub open spec fn spec_extract_host(v: Seq<char>, parsed: Option<Option<Seq<char>>>) -> Option<
    Seq<char>,
> {
    match parsed {
        Some(h) => h,
        None => host_fallback(v),
    }
}

fn head_before_sep(c: &[char]) -> (r: Vec<char>)
    ensures
        r@ == c@.take(first_sep_from(c@, 0)),
{
    let n = c.len();
    let mut i: usize = 0;
    while i < n && !(c[i] == '/' || c[i] == ':')
        invariant
            i <= n,
            n == c@.len(),
            first_sep_from(c@, 0) == first_sep_from(c@, i as int),
        decreases n - i,
    {
        i += 1;
    }
    crate::text::slice_chars(c, 0, i)
}

/// The host of an indicator, given what URL parsing made of it (`parsed`):
/// the parsed host where the text parsed, else the fallback.
pub fn host_from_parse(value: &str, parsed: Option<Option<String>>) -> (r: Option<String>)
    ensures
        opt_view(r) == spec_extract_host(value@, opt_opt_view(parsed)),
{
    match parsed {
        Some(h) => h,
        None => {
            let c = str_chars(value);
            let dot = has(c.as_slice(), ".");
            let blank = has(c.as_slice(), " ");
            if dot && !blank {
                let head = head_before_sep(c.as_slice());
                let t = trim_chars(head.as_slice());
                Some(string_of(t.as_slice()))
            } else {
                None
            }
        },
    }
}

/// The host an indicator names, if any.
pub fn extract_host(value: &str) -> (r: Option<String>)
    ensures
        opt_view(r) == spec_extract_host(value@, url_host(value@)),
{
    let parsed = parse_url_host(value);
    host_from_parse(value, parsed)
}

// ---------------------------------------------------------------------------
// Endpoints
// ---------------------------------------------------------------------------

/// A network indicator with what is known of its destination.
#[derive(Debug, Clone)]
pub struct EnrichedEndpoint {
    pub indicator: String,
    pub kind: NetworkKind,
    pub ip: Option<String>,
    pub country: Option<String>,
    pub city: Option<String>,
    pub asn: Option<String>,
    pub as_org: Option<String>,
    pub whois_summary: Option<String>,
    pub protocol: Option<String>,
    pub possible_c2: bool,
    pub beacon_interval_hint: Option<String>,
    pub evidence: Vec<Evidence>,
}

pub struct EndpointView {
    pub indicator: Seq<char>,
    pub kind: NetworkKind,
    pub ip: Option<Seq<char>>,
    pub country: Option<Seq<char>>,
    pub city: Option<Seq<char>>,
    pub asn: Option<Seq<char>>,
    pub as_org: Option<Seq<char>>,
    pub whois_summary: Option<Seq<char>>,
    pub protocol: Option<Seq<char>>,
    pub possible_c2: bool,
    pub beacon_interval_hint: Option<Seq<char>>,
    pub evidence: Seq<EvidenceView>,
}

impl View for EnrichedEndpoint {
    type V = EndpointView;

    open spec fn view(&self) -> EndpointView {
        EndpointView {
            indicator: self.indicator@,
            kind: self.kind,
            ip: opt_view(self.ip),
            country: opt_view(self.country),
            city: opt_view(self.city),
            asn: opt_view(self.asn),
            as_org: opt_view(self.as_org),
            whois_summary: opt_view(self.whois_summary),
            protocol: opt_view(self.protocol),
            possible_c2: self.possible_c2,
            beacon_interval_hint: opt_view(self.beacon_interval_hint),
            evidence: evidence_views(self.evidence@),
        }
    }
}

pub open spec fn endpoint_views(v: Seq<EnrichedEndpoint>) -> Seq<EndpointView> {
    v.map_values(|e: EnrichedEndpoint| e@)
}

/// The most indicators that are enriched.
pub open spec fn endpoint_limit() -> int {
    40
}

/// The endpoint of an indicator before any lookup: its own protocol or a
/// guessed one, its address where it is an IP, and C2 suspicion where the
/// indicator was suspicious or looks like C2.
pub open spec fn initial_view(ind: NetworkIndicatorView) -> EndpointView {
    EndpointView {
        indicator: ind.value,
        kind: ind.kind,
        ip: if ind.kind == NetworkKind::Ip { Some(ind.value) } else { None },
        country: None,
        city: None,
        asn: None,
        as_org: None,
        whois_summary: None,
        protocol: match ind.protocol {
            Some(p) => Some(p),
            None => spec_protocol_guess(ind.value),
        },
        possible_c2: ind.suspicious || spec_looks_like_c2(ind.value),
        beacon_interval_hint: spec_beacon_hint(ind.value),
        evidence: ind.evidence,
    }
}

/// The endpoints of the first indicators, before any lookup.
pub open spec fn spec_initial_endpoints(inds: Seq<NetworkIndicatorView>) -> Seq<EndpointView> {
    take_upto(inds, endpoint_limit()).map_values(|i: NetworkIndicatorView| initial_view(i))
}

/// The endpoint of one indicator before any lookup.
pub fn initial_endpoint(ind: &NetworkIndicator) -> (r: EnrichedEndpoint)
    ensures
        r@ == initial_view(ind@),
{
    let ip = match ind.kind {
        NetworkKind::Ip => Some(copy_string(&ind.value)),
        _ => None,
    };
    let protocol = match &ind.protocol {
        Some(p) => Some(copy_string(p)),
        None => protocol_guess(ind.value.as_str()),
    };
    let c2 = ind.suspicious || looks_like_c2(ind.value.as_str());
    EnrichedEndpoint {
        indicator: copy_string(&ind.value),
        kind: ind.kind,
        ip,
        country: None,
        city: None,
        asn: None,
        as_org: None,
        whois_summary: None,
        protocol,
        possible_c2: c2,
        beacon_interval_hint: beacon_hint(ind.value.as_str()),
        evidence: crate::model::copy_evidence(&ind.evidence),
    }
}

/// The endpoints of the first forty indicators, in order, before any lookup.
pub fn initial_endpoints(indicators: &Vec<NetworkIndicator>) -> (r: Vec<EnrichedEndpoint>)
    ensures
        endpoint_views(r@) == spec_initial_endpoints(network_views(indicators@)),
{
    let n: usize = if indicators.len() < 40 { indicators.len() } else { 40 };
    let ghost all = network_views(indicators@);
    let mut out: Vec<EnrichedEndpoint> = Vec::new();
    let mut i: usize = 0;
    while i < n
        invariant
            i <= n,
            n <= indicators@.len(),
            n == (if indicators@.len() < 40 { indicators@.len() as int } else { 40int }),
            all == network_views(indicators@),
            endpoint_views(out@) == all.subrange(0, i as int).map_values(
                |x: NetworkIndicatorView| initial_view(x),
            ),
        decreases n - i,
    {
        let e = initial_endpoint(&indicators[i]);
        let ghost before = out@;
        out.push(e);
        proof {
            assert(all.subrange(0, i + 1) == all.subrange(0, i as int).push(all[i as int]));
            assert(endpoint_views(out@) =~= endpoint_views(before).push(e@));
            assert(endpoint_views(out@) =~= all.subrange(0, i + 1).map_values(
                |x: NetworkIndicatorView| initial_view(x),
            ));
        }
        i += 1;
    }
    proof {
        assert(take_upto(all, 40) =~= all.subrange(0, n as int));
    }
    out
}

/// The host to look up for an endpoint, if its indicator names one.
pub fn lookup_host(ep: &EnrichedEndpoint) -> (r: Option<String>)
    ensures
        opt_view(r) == spec_extract_host(ep.indicator@, url_host(ep.indicator@)),
{
    extract_host(ep.indicator.as_str())
}

// ---------------------------------------------------------------------------
// What the lookups send and what their replies add
// ---------------------------------------------------------------------------

/// The GeoIP query for a host.
pub fn geoip_url(host: &str) -> (r: String)
    ensures
        r@ == "http://ip-api.com/json/"@ + host@ + "?fields=status,message,country,city,query,as,org"@,
{
    let mut s = owned("http://ip-api.com/json/");
    push_str(&mut s, host);
    push_str(&mut s, "?fields=status,message,country,city,query,as,org");
    s
}

/// The RDAP query for a host.
pub fn rdap_url(host: &str) -> (r: String)
    ensures
        r@ == "https://rdap.org/domain/"@ + host@,
{
    let mut s = owned("https://rdap.org/domain/");
    push_str(&mut s, host);
    s
}

/// The text fields of a GeoIP reply.
#[derive(Debug, Clone)]
pub struct GeoReply {
    pub status: Option<String>,
    pub query: Option<String>,
    pub country: Option<String>,
    pub city: Option<String>,
    pub as_name: Option<String>,
    pub org: Option<String>,
}

/// Where a host is, as a successful GeoIP reply gives it.
#[derive(Debug, Clone)]
pub struct GeoInfo {
    pub ip: Option<String>,
    pub country: Option<String>,
    pub city: Option<String>,
    pub asn: Option<String>,
    pub as_org: Option<String>,
}

pub struct GeoView {
    pub ip: Option<Seq<char>>,
    pub country: Option<Seq<char>>,
    pub city: Option<Seq<char>>,
    pub asn: Option<Seq<char>>,
    pub as_org: Option<Seq<char>>,
}

impl View for GeoInfo {
    type V = GeoView;

    open spec fn view(&self) -> GeoView {
        GeoView {
            ip: opt_view(self.ip),
            country: opt_view(self.country),
            city: opt_view(self.city),
            asn: opt_view(self.asn),
            as_org: opt_view(self.as_org),
        }
    }
}

pub open spec fn geo_opt_view(g: Option<GeoInfo>) -> Option<GeoView> {
    match g {
        Some(x) => Some(x@),
        None => None,
    }
}

/// A GeoIP reply counts only where its status is `success`; then the queried
/// address, country, city, AS and organisation are taken from it.
pub fn geo_from_reply(reply: &GeoReply) -> (r: Option<GeoInfo>)
    ensures
        r.is_some() <==> opt_view(reply.status) == Some("success"@),
        r.is_some() ==> geo_opt_view(r) == Some(
            GeoView {
                ip: opt_view(reply.query),
                country: opt_view(reply.country),
                city: opt_view(reply.city),
                asn: opt_view(reply.as_name),
                as_org: opt_view(reply.org),
            },
        ),
{
    let ok = match &reply.status {
        Some(s) => {
            let c = str_chars(s.as_str());
            eq_str(c.as_slice(), "success")
        },
        None => false,
    };
    if !ok {
        return None;
    }
    Some(
        GeoInfo {
            ip: copy_opt_string(&reply.query),
            country: copy_opt_string(&reply.country),
            city: copy_opt_string(&reply.city),
            asn: copy_opt_string(&reply.as_name),
            as_org: copy_opt_string(&reply.org),
        },
    )
}

/// `RDAP {name} status={statuses joined by ","}`, the name defaulting to the
/// host.
pub open spec fn spec_rdap_summary(host: Seq<char>, name: Option<Seq<char>>, statuses: Seq<Seq<char>>) -> Seq<char> {
    "RDAP "@ + (match name {
        Some(n) => n,
        None => host,
    }) + " status="@ + join_with(","@, statuses)
}

/// The WHOIS summary of an RDAP reply.
pub fn rdap_summary(host: &str, name: Option<String>, statuses: &Vec<String>) -> (r: String)
    ensures
        r@ == spec_rdap_summary(host@, opt_view(name), strings_view(statuses@)),
{
    let mut s = owned("RDAP ");
    match &name {
        Some(n) => push_string(&mut s, n),
        None => push_str(&mut s, host),
    }
    push_str(&mut s, " status=");
    let joined = join_first(statuses.as_slice(), ",", statuses.len());
    push_string(&mut s, &joined);
    proof {
        assert(take_upto(strings_view(statuses@), statuses@.len() as int) == strings_view(statuses@));
    }
    s
}

pub open spec fn geo_note() -> Seq<char> {
    "GeoIP/ASN enrichment"@
}

/// An endpoint after its lookups: a GeoIP result replaces the location
/// fields (keeping the address where the reply has none) and is cited as
/// evidence; a WHOIS summary is recorded.
pub open spec fn with_lookups(ep: EndpointView, host: Seq<char>, geo: Option<GeoView>, whois: Option<Seq<char>>) -> EndpointView {
    let e1 = match geo {
        Some(g) => EndpointView {
            indicator: ep.indicator,
            kind: ep.kind,
            ip: match g.ip {
                Some(i) => Some(i),
                None => ep.ip,
            },
            country: g.country,
            city: g.city,
            asn: g.asn,
            as_org: g.as_org,
            whois_summary: ep.whois_summary,
            protocol: ep.protocol,
            possible_c2: ep.possible_c2,
            beacon_interval_hint: ep.beacon_interval_hint,
            evidence: ep.evidence.push(EvidenceView::NetworkIndicator { indicator: host, note: geo_note() }),
        },
        None => ep,
    };
    match whois {
        Some(w) => EndpointView {
            indicator: e1.indicator,
            kind: e1.kind,
            ip: e1.ip,
            country: e1.country,
            city: e1.city,
            asn: e1.asn,
            as_org: e1.as_org,
            whois_summary: Some(w),
            protocol: e1.protocol,
            possible_c2: e1.possible_c2,
            beacon_interval_hint: e1.beacon_interval_hint,
            evidence: e1.evidence,
        },
        None => e1,
    }
}

/// Records what the GeoIP and RDAP lookups of `host` gave.
pub fn apply_lookups(ep: &mut EnrichedEndpoint, host: &str, geo: Option<GeoInfo>, whois: Option<String>)
    ensures
        final(ep)@ == with_lookups(old(ep)@, host@, geo_opt_view(geo), opt_view(whois)),
{
    if let Some(g) = geo {
        if g.ip.is_some() {
            ep.ip = g.ip;
        }
        ep.country = g.country;
        ep.city = g.city;
        ep.asn = g.asn;
        ep.as_org = g.as_org;
        let ghost before = ep.evidence@;
        ep.evidence.push(Evidence::NetworkIndicator { indicator: owned(host), note: owned("GeoIP/ASN enrichment") });
        proof {
            assert(evidence_views(ep.evidence@) =~= evidence_views(before).push(
                EvidenceView::NetworkIndicator { indicator: host@, note: geo_note() },
            ));
        }
    }
    if let Some(w) = whois {
        ep.whois_summary = Some(w);
    }
}

// ---------------------------------------------------------------------------
// Graph and summary
// ---------------------------------------------------------------------------

pub open spec fn meta_of_opt(o: Option<Seq<char>>) -> MetaValueView {
    match o {
        Some(t) => MetaValueView::Text(t),
        None => MetaValueView::Null,
    }
}

pub open spec fn binary_node() -> GraphNodeView {
    GraphNodeView { id: "binary"@, label: "binary"@, kind: "binary"@, address: None, meta: seq![] }
}

/// The node of endpoint `i`.
pub open spec fn endpoint_node(i: int, e: EndpointView) -> GraphNodeView {
    GraphNodeView {
        id: "ep_"@ + dec_of(i as nat),
        label: e.indicator,
        kind: "endpoint"@,
        address: None,
        meta: seq![
            ("country"@, meta_of_opt(e.country)),
            ("asn"@, meta_of_opt(e.asn)),
            ("c2"@, MetaValueView::Bool(e.possible_c2)),
        ],
    }
}

/// The edge from the binary to endpoint `i`.
pub open spec fn endpoint_edge(i: int, e: EndpointView) -> GraphEdgeView {
    GraphEdgeView {
        source: "binary"@,
        target: "ep_"@ + dec_of(i as nat),
        kind: if e.possible_c2 { "possible_c2"@ } else { "connects"@ },
        label: e.protocol,
    }
}

/// The network graph: the binary, one node per endpoint, and one edge from
/// the binary to each endpoint.
pub open spec fn spec_network_graph(eps: Seq<EndpointView>) -> (Seq<GraphNodeView>, Seq<GraphEdgeView>) {
    (
        seq![binary_node()] + eps.map(|i: int, e: EndpointView| endpoint_node(i, e)),
        eps.map(|i: int, e: EndpointView| endpoint_edge(i, e)),
    )
}

fn opt_meta(o: &Option<String>) -> (m: MetaValue)
    ensures
        m@ == meta_of_opt(opt_view(*o)),
{
    match o {
        Some(t) => MetaValue::Text(copy_string(t)),
        None => MetaValue::Null,
    }
}

fn numbered(prefix: &str, i: usize) -> (r: String)
    ensures
        r@ == prefix@ + dec_of(i as nat),
{
    let mut s = owned(prefix);
    push_dec(&mut s, i as u64);
    s
}

/// The network graph of the endpoints; edge `i` has the identifier `e_{i}`.
pub fn build_network_graph(endpoints: &Vec<EnrichedEndpoint>) -> (g: GraphPayload)
    ensures
        (g@.nodes, g@.edges) == spec_network_graph(endpoint_views(endpoints@)),
        g.edges@.len() == endpoints@.len(),
        forall|i: int| 0 <= i < g.edges@.len() ==> #[trigger] g.edges@[i].id@ == "e_"@ + dec_of(i as nat),
{
    let ghost eps = endpoint_views(endpoints@);
    let mut nodes: Vec<GraphNode> = Vec::new();
    nodes.push(GraphNode { id: owned("binary"), label: owned("binary"), kind: owned("binary"), address: None, meta: Vec::new() });
    let mut edges: Vec<GraphEdge> = Vec::new();
    proof {
        assert(meta_views(nodes@[0].meta@) =~= Seq::<(Seq<char>, MetaValueView)>::empty());
        assert(node_views(nodes@) =~= seq![binary_node()]);
    }
    let mut i: usize = 0;
    while i < endpoints.len()
        invariant
            i <= endpoints@.len(),
            eps == endpoint_views(endpoints@),
            node_views(nodes@) == seq![binary_node()] + eps.subrange(0, i as int).map(
                |k: int, e: EndpointView| endpoint_node(k, e),
            ),
            edge_views(edges@) == eps.subrange(0, i as int).map(|k: int, e: EndpointView| endpoint_edge(k, e)),
            edges@.len() == i,
            forall|k: int| 0 <= k < i ==> #[trigger] edges@[k].id@ == "e_"@ + dec_of(k as nat),
        decreases endpoints@.len() - i,
    {
        let ep = &endpoints[i];
        let mut meta: Vec<(String, MetaValue)> = Vec::new();
        meta.push((owned("country"), opt_meta(&ep.country)));
        meta.push((owned("asn"), opt_meta(&ep.asn)));
        meta.push((owned("c2"), MetaValue::Bool(ep.possible_c2)));
        let node = GraphNode {
            id: numbered("ep_", i),
            label: copy_string(&ep.indicator),
            kind: owned("endpoint"),
            address: None,
            meta,
        };
        let kind = if ep.possible_c2 { owned("possible_c2") } else { owned("connects") };
        let edge = GraphEdge {
            id: numbered("e_", i),
            source: owned("binary"),
            target: numbered("ep_", i),
            kind,
            label: copy_opt_string(&ep.protocol),
        };
        let ghost nb = nodes@;
        let ghost eb = edges@;
        proof {
            assert(meta_views(node.meta@) =~= endpoint_node(i as int, eps[i as int]).meta);
            assert(node@ == endpoint_node(i as int, eps[i as int]));
            assert(edge@ == endpoint_edge(i as int, eps[i as int]));
        }
        nodes.push(node);
        edges.push(edge);
        proof {
            let pre = eps.subrange(0, i as int);
            let post = eps.subrange(0, i + 1);
            assert(post == pre.push(eps[i as int]));
            assert(post.map(|k: int, e: EndpointView| endpoint_node(k, e)) =~= pre.map(
                |k: int, e: EndpointView| endpoint_node(k, e),
            ).push(endpoint_node(i as int, eps[i as int])));
            assert(post.map(|k: int, e: EndpointView| endpoint_edge(k, e)) =~= pre.map(
                |k: int, e: EndpointView| endpoint_edge(k, e),
            ).push(endpoint_edge(i as int, eps[i as int])));
            assert(node_views(nodes@) =~= node_views(nb).push(node@));
            assert(edge_views(edges@) =~= edge_views(eb).push(edge@));
        }
        i += 1;
    }
    proof {
        assert(eps.subrange(0, eps.len() as int) =~= eps);
    }
    GraphPayload { nodes, edges }
}

/// `{indicator} [{protocol or ?}] {country or ??}{/asn}{ C2?}`.
pub open spec fn destination_line(e: EndpointView) -> Seq<char> {
    e.indicator + " ["@ + (match e.protocol {
        Some(p) => p,
        None => "?"@,
    }) + "] "@ + (match e.country {
        Some(c) => c,
        None => "??"@,
    }) + (match e.asn {
        Some(a) => "/"@ + a,
        None => ""@,
    }) + (if e.possible_c2 { " C2?"@ } else { ""@ })
}

/// The summary line of one endpoint.
pub fn destination_entry(e: &EnrichedEndpoint) -> (r: String)
    ensures
        r@ == destination_line(e@),
{
    let mut s = copy_string(&e.indicator);
    push_str(&mut s, " [");
    match &e.protocol {
        Some(p) => push_string(&mut s, p),
        None => push_str(&mut s, "?"),
    }
    push_str(&mut s, "] ");
    match &e.country {
        Some(c) => push_string(&mut s, c),
        None => push_str(&mut s, "??"),
    }
    match &e.asn {
        Some(a) => {
            push_str(&mut s, "/");
            push_string(&mut s, a);
        },
        None => {},
    }
    if e.possible_c2 {
        push_str(&mut s, " C2?");
    }
    proof {
        reveal_strlit("");
        assert(s@ =~= destination_line(e@));
    }
    s
}

/// The endpoints, their graph and one summary line per endpoint.
#[derive(Debug, Clone)]
pub struct NetworkIntelligence {
    pub endpoints: Vec<EnrichedEndpoint>,
    pub graph: GraphPayload,
    pub destination_summary: Vec<String>,
}

/// Gathers the enriched endpoints into their graph and summary.
pub fn summarize(endpoints: Vec<EnrichedEndpoint>) -> (r: NetworkIntelligence)
    ensures
        endpoint_views(r.endpoints@) == endpoint_views(endpoints@),
        (r.graph@.nodes, r.graph@.edges) == spec_network_graph(endpoint_views(endpoints@)),
        forall|i: int| 0 <= i < r.graph.edges@.len() ==> #[trigger] r.graph.edges@[i].id@ == "e_"@ + dec_of(i as nat),
        strings_view(r.destination_summary@) == endpoint_views(endpoints@).map_values(
            |e: EndpointView| destination_line(e),
        ),
{
    let graph = build_network_graph(&endpoints);
    let mut lines: Vec<String> = Vec::new();
    let mut i: usize = 0;
    while i < endpoints.len()
        invariant
            i <= endpoints@.len(),
            strings_view(lines@) == endpoint_views(endpoints@).subrange(0, i as int).map_values(
                |e: EndpointView| destination_line(e),
            ),
        decreases endpoints@.len() - i,
    {
        let line = destination_entry(&endpoints[i]);
        let ghost lb = lines@;
        lines.push(line);
        proof {
            let eps = endpoint_views(endpoints@);
            assert(eps.subrange(0, i + 1) == eps.subrange(0, i as int).push(eps[i as int]));
            assert(strings_view(lines@) =~= strings_view(lb).push(line@));
            assert(strings_view(lines@) =~= eps.subrange(0, i + 1).map_values(
                |e: EndpointView| destination_line(e),
            ));
        }
        i += 1;
    }
    proof {
        let eps = endpoint_views(endpoints@);
        assert(eps.subrange(0, eps.len() as int) =~= eps);
    }
    NetworkIntelligence { endpoints, graph, destination_summary: lines }
}

} // verus!
