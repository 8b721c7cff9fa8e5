use binaris::api::pending_report;
use binaris::diff::{content_hash, diff_bytes, diff_reports, snapshot};
use binaris::model::{ExportEntry, FileHashes, ImportEntry, NetworkIndicator, NetworkKind, RiskLevel};
use binaris::network::{
    apply_lookups, beacon_hint, build_network_graph, destination_entry, extract_host, geo_from_reply,
    geoip_url, host_from_parse, initial_endpoint, initial_endpoints, looks_like_c2, protocol_guess,
    rdap_summary, rdap_url, summarize, GeoInfo, GeoReply,
};

fn indicator(kind: NetworkKind, value: &str, suspicious: bool) -> NetworkIndicator {
    NetworkIndicator { kind, value: value.into(), port: None, protocol: None, evidence: vec![], suspicious }
}

fn hashes(sha: &str) -> FileHashes {
    FileHashes {
        md5: "m".into(),
        sha1: "s".into(),
        sha256: sha.into(),
        sha3_256: "t".into(),
        blake3: "b".into(),
        imphash: None,
        ssdeep: None,
        tlsh: None,
    }
}

#[test]
fn protocol_guesses() {
    assert_eq!(protocol_guess("HTTPS://a.example/x").as_deref(), Some("https"));
    assert_eq!(protocol_guess("http://a.example").as_deref(), Some("http"));
    assert_eq!(protocol_guess("wss://a.example").as_deref(), Some("websocket"));
    assert_eq!(protocol_guess("tcp://mqtt.broker").as_deref(), Some("mqtt"));
    assert_eq!(protocol_guess("ftp://files").as_deref(), Some("ftp"));
    assert_eq!(protocol_guess("smtp.mail.example").as_deref(), Some("smtp"));
    assert_eq!(protocol_guess("\\\\.\\pipe\\evil").as_deref(), Some("named_pipe"));
    assert_eq!(protocol_guess("10.0.0.5"), None);
}

#[test]
fn c2_and_beacon_heuristics() {
    assert!(looks_like_c2("abc.NGROK.io"));
    assert!(looks_like_c2("https://example.com/gate.php"));
    assert!(!looks_like_c2("example.com"));
    assert_eq!(
        beacon_hint("SleepTime=30").as_deref(),
        Some("Static strings suggest sleep/jitter-based beaconing; confirm dynamically")
    );
    assert_eq!(beacon_hint("example.com"), None);
}

#[test]
fn hosts_of_indicators() {
    assert_eq!(extract_host("https://evil.example.com/gate").as_deref(), Some("evil.example.com"));
    assert_eq!(extract_host("10.0.0.5").as_deref(), Some("10.0.0.5"));
    assert_eq!(extract_host("nodots"), None);
    assert_eq!(extract_host("has space.example"), None);
    assert_eq!(host_from_parse("\ta.example:80/x", None).as_deref(), Some("a.example"));
    assert_eq!(host_from_parse(" a.example/x", None), None);
    assert_eq!(host_from_parse("whatever", Some(Some("h.example".into()))).as_deref(), Some("h.example"));
    assert_eq!(host_from_parse("x.y", Some(None)), None);
}

#[test]
fn lookup_requests_and_replies() {
    assert_eq!(
        geoip_url("1.2.3.4"),
        "http://ip-api.com/json/1.2.3.4?fields=status,message,country,city,query,as,org"
    );
    assert_eq!(rdap_url("ex.com"), "https://rdap.org/domain/ex.com");
    assert_eq!(rdap_summary("ex.com", None, &vec!["active".into(), "locked".into()]), "RDAP ex.com status=active,locked");
    assert_eq!(rdap_summary("ex.com", Some("EX.COM".into()), &vec![]), "RDAP EX.COM status=");
    let failed = GeoReply { status: Some("fail".into()), query: None, country: None, city: None, as_name: None, org: None };
    assert!(geo_from_reply(&failed).is_none());
    let ok = GeoReply {
        status: Some("success".into()),
        query: Some("1.2.3.4".into()),
        country: Some("US".into()),
        city: None,
        as_name: Some("AS15169".into()),
        org: None,
    };
    let g = geo_from_reply(&ok).unwrap();
    assert_eq!(g.ip.as_deref(), Some("1.2.3.4"));
    assert_eq!(g.asn.as_deref(), Some("AS15169"));
}

#[test]
fn endpoints_graph_and_summary() {
    let inds = vec![
        indicator(NetworkKind::Url, "https://evil.ngrok.io/gate", false),
        indicator(NetworkKind::Ip, "10.0.0.5", true),
    ];
    let mut eps = initial_endpoints(&inds);
    assert_eq!(eps.len(), 2);
    assert_eq!(eps[0].protocol.as_deref(), Some("https"));
    assert!(eps[0].possible_c2);
    assert_eq!(eps[0].ip, None);
    assert_eq!(eps[1].ip.as_deref(), Some("10.0.0.5"));
    assert!(eps[1].possible_c2);
    let geo = GeoInfo { ip: None, country: Some("US".into()), city: None, asn: Some("AS1".into()), as_org: None };
    apply_lookups(&mut eps[1], "10.0.0.5", Some(geo), Some("RDAP x status=".into()));
    assert_eq!(eps[1].ip.as_deref(), Some("10.0.0.5"));
    assert_eq!(eps[1].evidence.len(), 1);
    assert_eq!(eps[1].whois_summary.as_deref(), Some("RDAP x status="));
    assert_eq!(destination_entry(&eps[0]), "https://evil.ngrok.io/gate [https] ?? C2?");
    assert_eq!(destination_entry(&eps[1]), "10.0.0.5 [?] US/AS1 C2?");
    let g = build_network_graph(&eps);
    assert_eq!(g.nodes.len(), 3);
    assert_eq!(g.nodes[0].id, "binary");
    assert_eq!(g.nodes[2].id, "ep_1");
    assert_eq!(g.edges[1].id, "e_1");
    assert_eq!(g.edges[1].kind, "possible_c2");
    let intel = summarize(eps);
    assert_eq!(intel.destination_summary.len(), 2);
}

#[test]
fn at_most_forty_endpoints() {
    let inds: Vec<NetworkIndicator> = (0..45).map(|i| indicator(NetworkKind::Domain, &format!("h{i}.example"), false)).collect();
    assert_eq!(initial_endpoints(&inds).len(), 40);
    let one = initial_endpoint(&indicator(NetworkKind::Domain, "plain.example", false));
    assert!(!one.possible_c2);
    assert_eq!(one.protocol, None);
}

#[test]
fn byte_differences() {
    assert_eq!(diff_bytes(b"abc", b"abc"), (0, 3, true));
    assert_eq!(diff_bytes(b"abc", b"abd"), (1, 3, false));
    assert_eq!(diff_bytes(b"ab", b"abcd"), (2, 4, false));
    assert_eq!(diff_bytes(b"", b""), (0, 1, true));
    assert_eq!(diff_bytes(b"", b"x"), (1, 1, false));
}

#[test]
fn content_hash_is_sha256() {
    assert_eq!(content_hash(b"abc"), "ba7816bf8f01cfea414140de5dae2223b00361a396177a9cb410ff61f20015ad");
}

#[test]
fn report_differences() {
    let mut left = pending_report("a1", "f1", "p1", "left.bin", 100, hashes("0123456789abcdef"));
    let mut right = pending_report("a2", "f2", "p1", "right.bin", 40, hashes("fedcba9876543210"));
    left.imports.push(ImportEntry { module: "k32".into(), symbol: "A".into(), ordinal: None, address: None, risk: RiskLevel::Info, tags: vec![] });
    left.imports.push(ImportEntry { module: "k32".into(), symbol: "B".into(), ordinal: None, address: None, risk: RiskLevel::Info, tags: vec![] });
    right.imports.push(ImportEntry { module: "k32".into(), symbol: "B".into(), ordinal: None, address: None, risk: RiskLevel::Info, tags: vec![] });
    right.imports.push(ImportEntry { module: "k32".into(), symbol: "C".into(), ordinal: None, address: None, risk: RiskLevel::Info, tags: vec![] });
    right.exports.push(ExportEntry { symbol: "run".into(), ordinal: None, address: 1, forwarded: None });
    right.malware.malware_probability = 55;
    let d = diff_reports(&left, &right);
    assert!(!d.identical);
    assert_eq!(d.byte_diff_ratio, 35);
    assert_eq!(d.size_delta, -60);
    assert_eq!(d.import_added, vec!["k32!C".to_string()]);
    assert_eq!(d.import_removed, vec!["k32!A".to_string()]);
    assert_eq!(d.export_added, vec!["run".to_string()]);
    assert!(d.export_removed.is_empty());
    assert_eq!(d.malware_delta, "Unknown/0% → Unknown/55%");
    assert_eq!(
        d.summary,
        "Diff 0123456789ab vs fedcba987654: +1 imports, -1 imports, +0 functions, -0 functions, sectionsΔ=0, malware Unknown/0% → Unknown/55%"
    );
    let same = diff_reports(&left, &left);
    assert!(same.identical);
    assert_eq!(same.byte_diff_ratio, 0);
    assert!(same.import_added.is_empty() && same.import_removed.is_empty());
}

#[test]
fn snapshot_keeps_label_and_analysis() {
    let r = pending_report("a1", "f1", "p1", "x.bin", 1, hashes("00"));
    let s = snapshot(&r, "manual".into());
    assert_eq!(s.label, "manual");
    assert_eq!(s.analysis_id, "a1");
    assert_eq!(s.report.filename, "x.bin");
}
