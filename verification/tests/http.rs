use aseman_node::json::Json;
use aseman_node::storage_http::{
    download_head, ends_headers, error_body, place_file, public_root, read_headers,
    recorded_type, refuse_download, refuse_upload,
    request_line,
    route, stored_type, upload_body, write_response, StorageRoute,
};
use aseman_node::telemetry::{
    database_path, fetch_json, fetch_request, is_cached_fresh, is_fresh, read_fetched, response_body, response_head,
    TelemetryRoute, TelemetryServer,
};

fn s(value: &str) -> String {
    value.to_string()
}

#[test]
fn response_writer_preserves_the_current_http_wire_shape() {
    let response = write_response(413, "application/json", &br#"{"error":"too large"}"#.to_vec());
    assert_eq!(
        String::from_utf8(response).unwrap(),
        [
            "HTTP/1.1 413 Payload Too Large\r\n",
            "Content-Type: application/json\r\n",
            "Content-Length: 21\r\n",
            "Connection: close\r\n",
            "\r\n",
            "{\"error\":\"too large\"}",
        ]
        .concat()
    );
}

#[test]
fn statuses_have_their_names() {
    for (status, reason) in [
        (200, "OK"),
        (400, "Bad Request"),
        (404, "Not Found"),
        (500, "Internal Server Error"),
        (299, "OK"),
    ] {
        let response = write_response(status, "text/plain", &vec![]);
        let text = String::from_utf8(response).unwrap();
        assert!(text.starts_with(&format!("HTTP/1.1 {status} {reason}\r\n")));
    }
}

#[test]
fn requests_are_read() {
    assert_eq!(
        request_line("POST /storage/upload?filename=a HTTP/1.1\r\n"),
        Some((s("POST"), s("/storage/upload")))
    );
    assert_eq!(request_line("GET\r\n"), Some((s("GET"), s(""))));
    assert_eq!(request_line("  \r\n"), None);
    assert!(ends_headers("\r\n"));
    assert!(!ends_headers("a: b\r\n"));
    let lines = vec![
        s("Content-Length: 12\r\n"),
        s("X: y\r\n"),
        s(" CONTENT-TYPE : image/png \r\n"),
        s("no header\r\n"),
    ];
    assert_eq!(read_headers(&lines), (12, s("image/png")));
    assert_eq!(read_headers(&vec![s("content-length: many")]), (0, s("")));
    assert_eq!(read_headers(&vec![s("content-length: -1")]), (0, s("")));
    assert_eq!(read_headers(&vec![s("content-length: +7")]), (7, s("")));
}

#[test]
fn requests_are_routed() {
    assert!(matches!(route("GET", "/storage/health"), StorageRoute::Health));
    assert!(matches!(route("POST", "/storage/upload"), StorageRoute::Upload));
    assert!(matches!(route("PUT", "/storage/upload"), StorageRoute::Upload));
    assert!(matches!(
        route("GET", "/storage/file/abc"),
        StorageRoute::File { id, head_only: false } if id == "abc"
    ));
    assert!(matches!(
        route("HEAD", "/storage/file/abc"),
        StorageRoute::File { head_only: true, .. }
    ));
    assert!(matches!(route("DELETE", "/storage/file/abc"), StorageRoute::NotFound));
    assert!(matches!(route("POST", "/storage/health"), StorageRoute::NotFound));
}

#[test]
fn uploads_are_refused_when_empty_or_large() {
    assert_eq!(refuse_upload(0, 10), Some((400, s("{\"error\":\"empty body\"}"))));
    assert_eq!(refuse_upload(11, 10), Some((413, s("{\"error\":\"file too large\"}"))));
    assert_eq!(refuse_upload(10, 10), None);
    assert_eq!(error_body("disk"), "{\"error\":\"disk\"}");
    assert_eq!(upload_body("id", "image/png"), "{\"id\":\"id\",\"contentType\":\"image/png\"}");
    assert_eq!(public_root("/data"), "/data/public-files");
}

#[test]
fn content_types_round_trip() {
    assert_eq!(stored_type(Some(" image/png\n")), "image/png");
    assert_eq!(stored_type(Some("  ")), "application/octet-stream");
    assert_eq!(stored_type(None), "application/octet-stream");
    assert_eq!(recorded_type(Some(&b" image/png\n".to_vec())), "image/png");
    assert_eq!(recorded_type(Some(&vec![0xff])), "\u{fffd}");
    assert_eq!(recorded_type(None), "application/octet-stream");
    let (id, kind) = place_file(" image/gif ");
    assert_eq!((refuse_download(&id), kind.as_str()), (None, "image/gif"));
    assert_eq!(
        download_head("image/png", 3),
        "HTTP/1.1 200 OK\r\nContent-Type: image/png\r\nContent-Length: 3\r\nCache-Control: public, max-age=31536000, immutable\r\nConnection: close\r\n\r\n"
    );
}

#[test]
fn downloads_stay_in_their_directory() {
    let invalid = Some((400, s("{\"error\":\"invalid id\"}")));
    assert_eq!(refuse_download("2f1c0b9e-6a3d-4c58-9b7a-0123456789ab"), None);
    for id in [
        "",
        "..",
        "../../etc/passwd",
        "2f1c0b9e-6a3d-4c58-9b7a-0123456789ab.type",
        "2f1c0b9e-6a3d-4c58-9b7a-0123456789a/",
        "2f1c0b9e_6a3d-4c58-9b7a-0123456789ab",
    ] {
        assert_eq!(refuse_download(id), invalid, "{id}");
    }
}

#[test]
fn telemetry_is_routed_and_headed() {
    assert_eq!(
        aseman_node::telemetry::route("GET /telemetry/health HTTP/1.1"),
        Some(TelemetryRoute::Health)
    );
    assert_eq!(
        aseman_node::telemetry::route("GET /telemetry/snapshot"),
        Some(TelemetryRoute::Snapshot)
    );
    assert_eq!(aseman_node::telemetry::route("GET /other"), Some(TelemetryRoute::NotFound));
    assert_eq!(aseman_node::telemetry::route("GET"), None);
    assert_eq!(
        response_head(404, 21),
        "HTTP/1.1 404 OK\r\nContent-Type: application/json\r\nContent-Length: 21\r\nConnection: close\r\n\r\n"
    );
    assert!(is_fresh(Some(1), 2000));
    assert!(!is_fresh(Some(0), 2000));
    assert!(!is_fresh(None, 2000));
    assert!(is_fresh(Some(i64::MAX), i64::MIN));
    let taken = "2027-01-15T08:00:00.500+00:00";
    assert!(is_cached_fresh(taken, 1_800_000_002_499));
    assert!(!is_cached_fresh(taken, 1_800_000_002_500));
    assert!(is_cached_fresh("2027-01-15T10:00:00.500+02:00", 1_800_000_002_499));
    assert!(!is_cached_fresh("yesterday", 1_800_000_000_000));
    assert_eq!(database_path("", ""), "./telemetry-rocks");
    assert_eq!(database_path(" ", "/data/"), "/data/telemetry-rocks");
    assert_eq!(database_path("", "/data"), "/data/telemetry-rocks");
    assert_eq!(database_path("/t", "/data"), "/t");
}

#[test]
fn snapshots_hold_what_the_node_knows() {
    let server = TelemetryServer {
        origin: s("global"),
        chain_port: 1,
        federation_port: 2,
        client_tcp_port: 3,
        client_ws_port: 4,
        entity_port: 5,
        vm_port: 6,
        telemetry_port: 7,
        storage_root: s("."),
    };
    let snap = server.collect("now", 9, &Json::Null, &Json::Whole(2), &Json::Bool(true));
    assert_eq!(snap.timestamp, "now");
    assert_eq!(snap.uptime_sec, 9);
    assert_eq!(snap.node.text("origin"), Some("global"));
    assert_eq!(snap.node.whole("telemetry_port"), Some(7));
    assert_eq!(snap.chain.whole("port"), Some(1));
    assert_eq!(snap.chain.whole("peers"), Some(2));
    assert_eq!(snap.federation.text("status"), Some("running"));
    assert_eq!(snap.clients.whole("ws_port"), Some(4));
    assert_eq!(snap.election.text("status"), Some("unknown"));
    assert_eq!(snap.transactions.whole("count"), Some(0));
    assert!(matches!(snap.resources, Json::Bool(true)));
}

#[test]
fn plain_http_addresses_are_fetched() {
    assert_eq!(fetch_json("http://127.0.0.1:80/stats"), Ok((s("127.0.0.1:80"), s("/stats"))));
    assert_eq!(fetch_json("http://host"), Ok((s("host"), s("/"))));
    assert_eq!(fetch_json("https://host/"), Err(s("non-http url")));
    assert_eq!(fetch_json("http://127.0.0.1:/stats"), Err(s("invalid url")));
    assert_eq!(fetch_json(" "), Err(s("invalid url")));
    assert_eq!(
        fetch_request("h:1", "/p"),
        "GET /p HTTP/1.0\r\nHost: h:1\r\nConnection: close\r\n\r\n"
    );
    assert_eq!(response_body(&b"HTTP/1.0 200 OK\r\n\r\n{}\r\n\r\n".to_vec()), 19);
    assert_eq!(response_body(&b"{}".to_vec()), 0);
    match read_fetched(&b"HTTP/1.0 200 OK\r\n\r\n{\"height\":7}".to_vec()) {
        Ok(stats) => assert_eq!(stats.whole("height"), Some(7)),
        Err(e) => panic!("{e}"),
    }
    assert_eq!(
        read_fetched(&b"HTTP/1.0 200 OK\r\n\r\n".to_vec()).err(),
        Some(s("decode: EOF while parsing a value at line 1 column 0"))
    );
}
