use semconv_registry::attributes::{ErrorType, HttpRequestMethod};
use semconv_registry::logger::{report_diagnostics, Logger, NullLogger};
use semconv_registry::metrics::{
    active_requests_attributes, client_duration_attributes, server_duration_attributes, AttrValue,
    HttpClientActiveRequestsOptAttributes, HttpClientActiveRequestsReqAttributes,
    HttpClientRequestDurationOptAttributes, HttpClientRequestDurationReqAttributes,
    HttpServerRequestDurationOptAttributes, HttpServerRequestDurationReqAttributes,
};
use semconv_registry::model::{DocumentRecord, GroupKind, GroupRecord};
use semconv_registry::pipeline::resolve_documents;

#[test]
fn error_type_as_str() {
    assert_eq!(ErrorType::Other.as_str(), "_OTHER");
    assert_eq!(ErrorType::_Custom("timeout".to_string()).as_str(), "timeout");
    assert_eq!(
        ErrorType::_Custom("java.net.UnknownHostException".to_string()).as_str(),
        "java.net.UnknownHostException"
    );
}

#[test]
fn http_request_method_as_str() {
    assert_eq!(HttpRequestMethod::Get.as_str(), "GET");
    assert_eq!(HttpRequestMethod::Post.as_str(), "POST");
    assert_eq!(HttpRequestMethod::Head.as_str(), "HEAD");
    assert_eq!(HttpRequestMethod::Other.as_str(), "_OTHER");
    assert_eq!(
        HttpRequestMethod::_Custom("PROPFIND".to_string()).as_str(),
        "PROPFIND"
    );
}

#[test]
fn metric_attribute_bundles_hold_their_fields() {
    let req = HttpServerRequestDurationReqAttributes {
        http_request_method: HttpRequestMethod::Get,
        url_scheme: "https".to_string(),
    };
    assert_eq!(req.url_scheme, "https".to_string());
    let opt = HttpServerRequestDurationOptAttributes {
        error_type: Some(ErrorType::Other),
        http_response_status_code: Some(200),
        ..Default::default()
    };
    assert_eq!(opt.http_response_status_code, Some(200));
    assert!(opt.http_route.is_none());

    let req = HttpClientRequestDurationReqAttributes {
        http_request_method: HttpRequestMethod::Post,
        server_address: "example.com".to_string(),
        server_port: 443,
    };
    assert_eq!(req.server_port, 443);
    let opt = HttpClientRequestDurationOptAttributes::default();
    assert!(opt.error_type.is_none());

    let req = HttpClientActiveRequestsReqAttributes {
        server_address: "10.1.2.80".to_string(),
        server_port: 8080,
    };
    assert_eq!(req.server_address, "10.1.2.80".to_string());
    let opt = HttpClientActiveRequestsOptAttributes::default();
    assert!(opt.url_scheme.is_none());
}

#[test]
fn server_duration_sample_attributes() {
    let req = HttpServerRequestDurationReqAttributes {
        http_request_method: HttpRequestMethod::Get,
        url_scheme: "https".to_string(),
    };
    let pairs = server_duration_attributes(&req, &None);
    assert_eq!(
        pairs,
        vec![
            (
                "http.request.method".to_string(),
                AttrValue::S("GET".to_string())
            ),
            ("url.scheme".to_string(), AttrValue::S("https".to_string())),
        ]
    );

    let opt = HttpServerRequestDurationOptAttributes {
        error_type: Some(ErrorType::Other),
        http_response_status_code: Some(500),
        http_route: None,
        network_protocol_name: Some("http".to_string()),
        network_protocol_version: None,
        server_address: None,
        server_port: Some(8080),
    };
    let pairs = server_duration_attributes(&req, &Some(opt));
    assert_eq!(
        pairs,
        vec![
            (
                "http.request.method".to_string(),
                AttrValue::S("GET".to_string())
            ),
            ("url.scheme".to_string(), AttrValue::S("https".to_string())),
            (
                "error.type".to_string(),
                AttrValue::S("_OTHER".to_string())
            ),
            ("http.response.status_code".to_string(), AttrValue::I(500)),
            (
                "network.protocol.name".to_string(),
                AttrValue::S("http".to_string())
            ),
            ("server.port".to_string(), AttrValue::I(8080)),
        ]
    );
}

#[test]
fn client_duration_sample_attributes() {
    let req = HttpClientRequestDurationReqAttributes {
        http_request_method: HttpRequestMethod::Post,
        server_address: "example.com".to_string(),
        server_port: 443,
    };
    let opt = HttpClientRequestDurationOptAttributes {
        error_type: None,
        http_response_status_code: Some(201),
        network_protocol_name: None,
        network_protocol_version: Some("1.1".to_string()),
        url_scheme: Some("https".to_string()),
    };
    let pairs = client_duration_attributes(&req, &Some(opt));
    assert_eq!(
        pairs,
        vec![
            (
                "http.request.method".to_string(),
                AttrValue::S("POST".to_string())
            ),
            (
                "server.address".to_string(),
                AttrValue::S("example.com".to_string())
            ),
            ("server.port".to_string(), AttrValue::I(443)),
            ("http.response.status_code".to_string(), AttrValue::I(201)),
            (
                "network.protocol.version".to_string(),
                AttrValue::S("1.1".to_string())
            ),
            ("url.scheme".to_string(), AttrValue::S("https".to_string())),
        ]
    );
}

#[test]
fn active_requests_change_attributes() {
    let req = HttpClientActiveRequestsReqAttributes {
        server_address: "10.1.2.80".to_string(),
        server_port: 8080,
    };
    let pairs = active_requests_attributes(&req, &None);
    assert_eq!(
        pairs,
        vec![
            (
                "server.address".to_string(),
                AttrValue::S("10.1.2.80".to_string())
            ),
            ("server.port".to_string(), AttrValue::I(8080)),
        ]
    );

    let opt = HttpClientActiveRequestsOptAttributes {
        http_request_method: Some(HttpRequestMethod::Head),
        url_scheme: Some("http".to_string()),
    };
    let pairs = active_requests_attributes(&req, &Some(opt));
    assert_eq!(
        pairs,
        vec![
            (
                "server.address".to_string(),
                AttrValue::S("10.1.2.80".to_string())
            ),
            ("server.port".to_string(), AttrValue::I(8080)),
            (
                "http.request.method".to_string(),
                AttrValue::S("HEAD".to_string())
            ),
            ("url.scheme".to_string(), AttrValue::S("http".to_string())),
        ]
    );
}

#[test]
fn null_logger_reports_without_output() {
    let logger = NullLogger::new();
    logger.info("nothing");
    logger.newline(1);
    let _ = logger.add_style("x", vec!["bold"]);
    let _ = logger.same();
    logger.done();

    let docs = vec![DocumentRecord {
        doc_id: "d1".to_string(),
        groups: vec![GroupRecord {
            id: String::new(),
            kind: Some(GroupKind::Span),
            extends: None,
            deprecated: false,
            attributes: Vec::new(),
            instrument: None,
            unit: None,
            metric_name: None,
        }],
    }];
    let (_registry, result) = resolve_documents(&docs);
    assert!(result.is_err());
    report_diagnostics(&logger, &result);
}
