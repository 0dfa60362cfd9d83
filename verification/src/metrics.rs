//! Attribute bundles of the HTTP metric instruments, and the attribute
//! lists one sample of each instrument carries.
//!
//! Each metric instrument of a resolved registry carries its attributes
//! split into a required and an optional bundle, the partition the
//! inheritance resolver computes from the requirement levels. The
//! `*_attributes` functions select what one recorded sample reports: every
//! required attribute first, then each supplied optional field, in declared
//! order, as plain name/value pairs. Instrument handles themselves live
//! with the telemetry backend, which turns the pairs into its own key-value
//! type and makes the one instrument call.

use vstd::prelude::*;

use crate::attributes::ErrorType;
use crate::attributes::HttpRequestMethod;
use crate::model::opt_string_view;

verus! {

/// Model of an [`AttrValue`].
#[verifier::ext_equal]
pub ghost enum SpecAttrValue {
    S(Seq<char>),
    I(i64),
}

/// A plain attribute value of a metric sample: a string or an integer.
#[derive(Debug, Clone, PartialEq)]
pub enum AttrValue {
    S(String),
    I(i64),
}

impl View for AttrValue {
    type V = SpecAttrValue;

    open spec fn view(&self) -> SpecAttrValue {
        match self {
            AttrValue::S(s) => SpecAttrValue::S(s@),
            AttrValue::I(i) => SpecAttrValue::I(*i),
        }
    }
}

/// Model of an attribute list: name/value pairs in report order.
pub open spec fn pairs_view(v: Seq<(String, AttrValue)>) -> Seq<(Seq<char>, SpecAttrValue)> {
    v.map_values(|p: (String, AttrValue)| (p.0@, p.1@))
}

/// The contribution of one optional attribute: its pair when the field is
/// supplied, nothing otherwise.
pub open spec fn opt_attr(name: Seq<char>, o: Option<SpecAttrValue>) -> Seq<
    (Seq<char>, SpecAttrValue),
> {
    match o {
        Option::Some(v) => seq![(name, v)],
        Option::None => Seq::empty(),
    }
}

/// The contribution of an optional string attribute.
pub open spec fn opt_string_attr(name: Seq<char>, o: Option<Seq<char>>) -> Seq<
    (Seq<char>, SpecAttrValue),
> {
    opt_attr(
        name,
        match o {
            Option::Some(s) => Option::Some(SpecAttrValue::S(s)),
            Option::None => Option::None,
        },
    )
}

/// The contribution of an optional integer attribute.
pub open spec fn opt_int_attr(name: Seq<char>, o: Option<i64>) -> Seq<
    (Seq<char>, SpecAttrValue),
> {
    opt_attr(
        name,
        match o {
            Option::Some(i) => Option::Some(SpecAttrValue::I(i)),
            Option::None => Option::None,
        },
    )
}

/// The contribution of an optional error-class attribute.
pub open spec fn opt_error_attr(name: Seq<char>, o: Option<ErrorType>) -> Seq<
    (Seq<char>, SpecAttrValue),
> {
    opt_attr(
        name,
        match o {
            Option::Some(e) => Option::Some(SpecAttrValue::S(e.text())),
            Option::None => Option::None,
        },
    )
}

/// Required attributes of the `http.server.request.duration` metric.
#[derive(Debug, Clone)]
pub struct HttpServerRequestDurationReqAttributes {
    /// HTTP request method.
    pub http_request_method: HttpRequestMethod,
    /// The URI scheme component identifying the used protocol.
    pub url_scheme: String,
}

/// Optional attributes of the `http.server.request.duration` metric.
#[derive(Debug, Clone, Default)]
pub struct HttpServerRequestDurationOptAttributes {
    /// Describes a class of error the operation ended with.
    pub error_type: Option<ErrorType>,
    /// HTTP response status code.
    pub http_response_status_code: Option<i64>,
    /// The matched route: the path template in the format used by the
    /// respective server framework.
    pub http_route: Option<String>,
    /// OSI application layer or non-OSI equivalent.
    pub network_protocol_name: Option<String>,
    /// The actual version of the protocol used for network communication.
    pub network_protocol_version: Option<String>,
    /// Name of the local HTTP server that received the request.
    pub server_address: Option<String>,
    /// Port of the local HTTP server that received the request.
    pub server_port: Option<i64>,
}

/// Required attributes of the `http.client.request.duration` metric.
#[derive(Debug, Clone)]
pub struct HttpClientRequestDurationReqAttributes {
    /// HTTP request method.
    pub http_request_method: HttpRequestMethod,
    /// Host identifier of the server the request is sent to.
    pub server_address: String,
    /// Port identifier of the server the request is sent to.
    pub server_port: i64,
}

/// Optional attributes of the `http.client.request.duration` metric.
#[derive(Debug, Clone, Default)]
pub struct HttpClientRequestDurationOptAttributes {
    /// Describes a class of error the operation ended with.
    pub error_type: Option<ErrorType>,
    /// HTTP response status code.
    pub http_response_status_code: Option<i64>,
    /// OSI application layer or non-OSI equivalent.
    pub network_protocol_name: Option<String>,
    /// The actual version of the protocol used for network communication.
    pub network_protocol_version: Option<String>,
    /// The URI scheme component identifying the used protocol.
    pub url_scheme: Option<String>,
}

/// Required attributes of the `http.client.active_requests` metric.
#[derive(Debug, Clone)]
pub struct HttpClientActiveRequestsReqAttributes {
    /// Host identifier of the server the request is sent to.
    pub server_address: String,
    /// Port identifier of the server the request is sent to.
    pub server_port: i64,
}

/// Optional attributes of the `http.client.active_requests` metric.
#[derive(Debug, Clone, Default)]
pub struct HttpClientActiveRequestsOptAttributes {
    /// HTTP request method.
    pub http_request_method: Option<HttpRequestMethod>,
    /// The URI scheme component identifying the used protocol.
    pub url_scheme: Option<String>,
}

/// The contribution of an optional request-method attribute.
pub open spec fn opt_method_attr(name: Seq<char>, o: Option<HttpRequestMethod>) -> Seq<
    (Seq<char>, SpecAttrValue),
> {
    opt_attr(
        name,
        match o {
            Option::Some(m) => Option::Some(SpecAttrValue::S(m.text())),
            Option::None => Option::None,
        },
    )
}

/// The attributes one sample of `http.server.request.duration` carries:
/// the required attributes first, then each supplied optional field, in
/// declared order.
pub open spec fn server_duration_attrs(
    req: HttpServerRequestDurationReqAttributes,
    opt: Option<HttpServerRequestDurationOptAttributes>,
) -> Seq<(Seq<char>, SpecAttrValue)> {
    seq![
        ("http.request.method"@, SpecAttrValue::S(req.http_request_method.text())),
        ("url.scheme"@, SpecAttrValue::S(req.url_scheme@)),
    ] + (match opt {
        Option::Some(o) => opt_error_attr("error.type"@, o.error_type) + opt_int_attr(
            "http.response.status_code"@,
            o.http_response_status_code,
        ) + opt_string_attr("http.route"@, opt_string_view(o.http_route)) + opt_string_attr(
            "network.protocol.name"@,
            opt_string_view(o.network_protocol_name),
        ) + opt_string_attr(
            "network.protocol.version"@,
            opt_string_view(o.network_protocol_version),
        ) + opt_string_attr("server.address"@, opt_string_view(o.server_address)) + opt_int_attr(
            "server.port"@,
            o.server_port,
        ),
        Option::None => Seq::empty(),
    })
}

/// Selects the attributes one `http.server.request.duration` sample
/// reports: the required method and scheme first, then each supplied
/// optional field, in declared order.
#[verifier::rlimit(60)]
pub fn server_duration_attributes(
    req: &HttpServerRequestDurationReqAttributes,
    opt: &Option<HttpServerRequestDurationOptAttributes>,
) -> (r: Vec<(String, AttrValue)>)
    ensures
        pairs_view(r@) == server_duration_attrs(*req, *opt),
{
    let mut r: Vec<(String, AttrValue)> = Vec::new();
    r.push((
        "http.request.method".to_owned(),
        AttrValue::S(req.http_request_method.as_str().to_owned()),
    ));
    r.push(("url.scheme".to_owned(), AttrValue::S(req.url_scheme.clone())));
    match opt {
        Option::Some(o) => {
            match &o.error_type {
                Option::Some(e) => r.push((
                    "error.type".to_owned(),
                    AttrValue::S(e.as_str().to_owned()),
                )),
                Option::None => {
                },
            }
            match o.http_response_status_code {
                Option::Some(i) => r.push(("http.response.status_code".to_owned(), AttrValue::I(i))),
                Option::None => {
                },
            }
            match &o.http_route {
                Option::Some(s) => r.push(("http.route".to_owned(), AttrValue::S(s.clone()))),
                Option::None => {
                },
            }
            match &o.network_protocol_name {
                Option::Some(s) => r.push((
                    "network.protocol.name".to_owned(),
                    AttrValue::S(s.clone()),
                )),
                Option::None => {
                },
            }
            match &o.network_protocol_version {
                Option::Some(s) => r.push((
                    "network.protocol.version".to_owned(),
                    AttrValue::S(s.clone()),
                )),
                Option::None => {
                },
            }
            match &o.server_address {
                Option::Some(s) => r.push(("server.address".to_owned(), AttrValue::S(s.clone()))),
                Option::None => {
                },
            }
            match o.server_port {
                Option::Some(i) => r.push(("server.port".to_owned(), AttrValue::I(i))),
                Option::None => {
                },
            }
        },
        Option::None => {
        },
    }
    proof {
        assert(pairs_view(r@) =~= server_duration_attrs(*req, *opt));
    }
    r
}

/// The attributes one sample of `http.client.request.duration` carries:
/// the required attributes first, then each supplied optional field, in
/// declared order.
pub open spec fn client_duration_attrs(
    req: HttpClientRequestDurationReqAttributes,
    opt: Option<HttpClientRequestDurationOptAttributes>,
) -> Seq<(Seq<char>, SpecAttrValue)> {
    seq![
        ("http.request.method"@, SpecAttrValue::S(req.http_request_method.text())),
        ("server.address"@, SpecAttrValue::S(req.server_address@)),
        ("server.port"@, SpecAttrValue::I(req.server_port)),
    ] + (match opt {
        Option::Some(o) => opt_error_attr("error.type"@, o.error_type) + opt_int_attr(
            "http.response.status_code"@,
            o.http_response_status_code,
        ) + opt_string_attr("network.protocol.name"@, opt_string_view(o.network_protocol_name))
            + opt_string_attr(
            "network.protocol.version"@,
            opt_string_view(o.network_protocol_version),
        ) + opt_string_attr("url.scheme"@, opt_string_view(o.url_scheme)),
        Option::None => Seq::empty(),
    })
}

/// Selects the attributes one `http.client.request.duration` sample
/// reports: the required method, address and port first, then each supplied
/// optional field, in declared order.
#[verifier::rlimit(60)]
pub fn client_duration_attributes(
    req: &HttpClientRequestDurationReqAttributes,
    opt: &Option<HttpClientRequestDurationOptAttributes>,
) -> (r: Vec<(String, AttrValue)>)
    ensures
        pairs_view(r@) == client_duration_attrs(*req, *opt),
{
    let mut r: Vec<(String, AttrValue)> = Vec::new();
    r.push((
        "http.request.method".to_owned(),
        AttrValue::S(req.http_request_method.as_str().to_owned()),
    ));
    r.push(("server.address".to_owned(), AttrValue::S(req.server_address.clone())));
    r.push(("server.port".to_owned(), AttrValue::I(req.server_port)));
    match opt {
        Option::Some(o) => {
            match &o.error_type {
                Option::Some(e) => r.push((
                    "error.type".to_owned(),
                    AttrValue::S(e.as_str().to_owned()),
                )),
                Option::None => {
                },
            }
            match o.http_response_status_code {
                Option::Some(i) => r.push(("http.response.status_code".to_owned(), AttrValue::I(i))),
                Option::None => {
                },
            }
            match &o.network_protocol_name {
                Option::Some(s) => r.push((
                    "network.protocol.name".to_owned(),
                    AttrValue::S(s.clone()),
                )),
                Option::None => {
                },
            }
            match &o.network_protocol_version {
                Option::Some(s) => r.push((
                    "network.protocol.version".to_owned(),
                    AttrValue::S(s.clone()),
                )),
                Option::None => {
                },
            }
            match &o.url_scheme {
                Option::Some(s) => r.push(("url.scheme".to_owned(), AttrValue::S(s.clone()))),
                Option::None => {
                },
            }
        },
        Option::None => {
        },
    }
    proof {
        assert(pairs_view(r@) =~= client_duration_attrs(*req, *opt));
    }
    r
}

/// The attributes one change of `http.client.active_requests` carries: the
/// required attributes first, then each supplied optional field, in
/// declared order.
pub open spec fn active_requests_attrs(
    req: HttpClientActiveRequestsReqAttributes,
    opt: Option<HttpClientActiveRequestsOptAttributes>,
) -> Seq<(Seq<char>, SpecAttrValue)> {
    seq![
        ("server.address"@, SpecAttrValue::S(req.server_address@)),
        ("server.port"@, SpecAttrValue::I(req.server_port)),
    ] + (match opt {
        Option::Some(o) => opt_method_attr("http.request.method"@, o.http_request_method)
            + opt_string_attr("url.scheme"@, opt_string_view(o.url_scheme)),
        Option::None => Seq::empty(),
    })
}

/// Selects the attributes one `http.client.active_requests` change
/// reports: the required address and port first, then each supplied
/// optional field, in declared order.
#[verifier::rlimit(60)]
pub fn active_requests_attributes(
    req: &HttpClientActiveRequestsReqAttributes,
    opt: &Option<HttpClientActiveRequestsOptAttributes>,
) -> (r: Vec<(String, AttrValue)>)
    ensures
        pairs_view(r@) == active_requests_attrs(*req, *opt),
{
    let mut r: Vec<(String, AttrValue)> = Vec::new();
    r.push(("server.address".to_owned(), AttrValue::S(req.server_address.clone())));
    r.push(("server.port".to_owned(), AttrValue::I(req.server_port)));
    match opt {
        Option::Some(o) => {
            match &o.http_request_method {
                Option::Some(m) => r.push((
                    "http.request.method".to_owned(),
                    AttrValue::S(m.as_str().to_owned()),
                )),
                Option::None => {
                },
            }
            match &o.url_scheme {
                Option::Some(s) => r.push(("url.scheme".to_owned(), AttrValue::S(s.clone()))),
                Option::None => {
                },
            }
        },
        Option::None => {
        },
    }
    proof {
        assert(pairs_view(r@) =~= active_requests_attrs(*req, *opt));
    }
    r
}

} // verus!
