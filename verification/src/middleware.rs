//! Middleware that shapes the headers of a gateway response.

use vstd::prelude::*;
use vstd::string::*;

verus! {

/// `http::HeaderMap`, the headers of a response. Nothing is known of a
/// map but what [`header_values`] names.
#[verifier::external_type_specification]
#[verifier::external_body]
#[verifier::reject_recursive_types(T)]
pub struct ExHeaderMap<T>(http::HeaderMap<T>);

/// `http::HeaderValue`, the value of one header. It only occurs as what
/// the maps of this module hold.
#[verifier::external_type_specification]
#[verifier::external_body]
pub struct ExHeaderValue(http::HeaderValue);

/// What a map of headers holds: for each name that has values, in lower
/// case, the bytes of its values in order.
pub uninterp spec fn header_values(headers: http::HeaderMap<http::HeaderValue>) -> Map<
    Seq<char>,
    Seq<Seq<u8>>,
>;

/// The cross-origin settings that a route was configured with.
#[derive(Debug, Clone, PartialEq, Eq)]
pub struct Cors {
    allow_origin: String,
    allow_credentials: Option<bool>,
    expose_headers: Option<String>,
}

/// The response headers that carry cross-origin settings.
#[derive(Debug, Clone, Copy, PartialEq, Eq, Structural)]
pub enum CorsHeader {
    AllowOrigin,
    AllowCredentials,
    ExposeHeaders,
}

/// The name of a header, in lower case.
pub open spec fn header_name(header: CorsHeader) -> Seq<char> {
    match header {
        CorsHeader::AllowOrigin => "access-control-allow-origin"@,
        CorsHeader::AllowCredentials => "access-control-allow-credentials"@,
        CorsHeader::ExposeHeaders => "access-control-expose-headers"@,
    }
}

/// Whether a byte may stand in the value of a header.
pub open spec fn is_value_byte(b: u8) -> bool {
    (b >= 32 && b != 127) || b == 9
}

/// Whether bytes can be the value of a header.
pub open spec fn valid_header_value(bytes: Seq<u8>) -> bool {
    forall|i: int| 0 <= i < bytes.len() ==> is_value_byte(#[trigger] bytes[i])
}

/// The headers after one of them has been set to a single value.
pub open spec fn with_header(
    values: Map<Seq<char>, Seq<Seq<u8>>>,
    header: CorsHeader,
    value: Seq<u8>,
) -> Map<Seq<char>, Seq<Seq<u8>>> {
    values.insert(header_name(header), seq![value])
}

/// `http::HeaderValue::from_str` on the text, then
/// `http::HeaderMap::try_insert` under the constant of `http::header` that
/// names the header. Trusted: the answer is true only for a text whose
/// bytes may all stand in a value, and then the header has that text as its
/// only value and no other header has changed; after the answer false the
/// map holds what it held.
#[verifier::external_body]
fn insert_header(
    headers: &mut http::HeaderMap<http::HeaderValue>,
    header: CorsHeader,
    value: &str,
) -> (r: bool)
    ensures
        r ==> valid_header_value(value.spec_bytes()) && header_values(*final(headers))
            == with_header(header_values(*old(headers)), header, value.spec_bytes()),
        !r ==> header_values(*final(headers)) == header_values(*old(headers)),
{
    let name = match header {
        CorsHeader::AllowOrigin => http::header::ACCESS_CONTROL_ALLOW_ORIGIN,
        CorsHeader::AllowCredentials => http::header::ACCESS_CONTROL_ALLOW_CREDENTIALS,
        CorsHeader::ExposeHeaders => http::header::ACCESS_CONTROL_EXPOSE_HEADERS,
    };
    match http::HeaderValue::from_str(value) {
        Ok(v) => headers.try_insert(name, v).is_ok(),
        Err(_) => false,
    }
}

/// The text of a truth value.
pub open spec fn bool_text(b: bool) -> Seq<char> {
    if b {
        "true"@
    } else {
        "false"@
    }
}

impl Cors {
    pub closed spec fn allow_origin(&self) -> Seq<char> {
        self.allow_origin@
    }

    pub closed spec fn allow_credentials(&self) -> Option<bool> {
        self.allow_credentials
    }

    pub closed spec fn expose_headers(&self) -> Option<Seq<char>> {
        match self.expose_headers {
            Some(h) => Some(h@),
            None => None,
        }
    }

    pub fn new(
        allow_origin: String,
        allow_credentials: Option<bool>,
        expose_headers: Option<String>,
    ) -> (r: Self)
        ensures
            r.allow_origin() == allow_origin@,
            r.allow_credentials() == allow_credentials,
            r.expose_headers() == (match expose_headers {
                Some(h) => Some(h@),
                None => None,
            }),
    {
        Cors { allow_origin, allow_credentials, expose_headers }
    }

    pub fn get_allow_origin(&self) -> (r: &String)
        ensures
            r@ == self.allow_origin(),
    {
        &self.allow_origin
    }

    pub fn get_allow_credentials(&self) -> (r: Option<bool>)
        ensures
            r == self.allow_credentials(),
    {
        self.allow_credentials
    }

    pub fn get_expose_headers(&self) -> (r: &Option<String>)
        ensures
            match *r {
                Some(h) => self.expose_headers() == Some(h@),
                None => self.expose_headers() is None,
            },
    {
        &self.expose_headers
    }

    /// The headers that the settings ask for, with their values as text, in
    /// the order in which they are set.
    pub open spec fn headers(&self) -> Seq<(CorsHeader, Seq<char>)> {
        seq![(CorsHeader::AllowOrigin, self.allow_origin())] + (match self.allow_credentials() {
            Some(b) => seq![(CorsHeader::AllowCredentials, bool_text(b))],
            None => Seq::empty(),
        }) + (match self.expose_headers() {
            Some(h) => seq![(CorsHeader::ExposeHeaders, h)],
            None => Seq::empty(),
        })
    }
}

/// The headers of a response after the first `n` of the given headers have
/// been set, each to the bytes of its text.
pub open spec fn with_headers(
    values: Map<Seq<char>, Seq<Seq<u8>>>,
    headers: Seq<(CorsHeader, Seq<char>)>,
    n: nat,
) -> Map<Seq<char>, Seq<Seq<u8>>>
    decreases n,
{
    if n == 0 || n > headers.len() {
        values
    } else {
        with_header(
            with_headers(values, headers, (n - 1) as nat),
            headers[n - 1].0,
            vstd::utf8::encode_utf8(headers[n - 1].1),
        )
    }
}

/// The first `n` of the given headers have been set, each to the bytes of
/// its text, which can be the value of a header; nothing else has changed.
pub open spec fn set_up_to(
    before: Map<Seq<char>, Seq<Seq<u8>>>,
    after: Map<Seq<char>, Seq<Seq<u8>>>,
    headers: Seq<(CorsHeader, Seq<char>)>,
    n: nat,
) -> bool {
    &&& n <= headers.len()
    &&& after == with_headers(before, headers, n)
    &&& forall|k: int|
        0 <= k < n ==> valid_header_value(vstd::utf8::encode_utf8((#[trigger] headers[k]).1))
}

/// All of the given headers have been set.
pub open spec fn all_set(
    before: Map<Seq<char>, Seq<Seq<u8>>>,
    after: Map<Seq<char>, Seq<Seq<u8>>>,
    headers: Seq<(CorsHeader, Seq<char>)>,
) -> bool {
    set_up_to(before, after, headers, headers.len())
}

/// A middleware that is applied to the response of a route.
#[derive(Debug, Clone, PartialEq, Eq)]
pub enum HttpMiddleware {
    Cors(Cors),
}

impl HttpMiddleware {
    pub fn cors(cors: Cors) -> (r: Self)
        ensures
            r == HttpMiddleware::Cors(cors),
    {
        HttpMiddleware::Cors(cors)
    }

    /// The cross-origin settings of the middleware.
    pub open spec fn settings(&self) -> Cors {
        match self {
            HttpMiddleware::Cors(cors) => *cors,
        }
    }

    /// Sets the headers that the middleware asks for on a response, one
    /// after the other. The answer says whether all of them were set. Where
    /// it is false, the first header that the map did not take and those
    /// after it are not set. The map takes no header whose value is not
    /// valid, and may refuse one for want of room.
    pub fn transform_response(&self, response: &mut http::HeaderMap<http::HeaderValue>) -> (r:
        bool)
        ensures
            r ==> all_set(
                header_values(*old(response)),
                header_values(*final(response)),
                self.settings().headers(),
            ),
            !r ==> exists|n: nat|
                n < self.settings().headers().len() && #[trigger] set_up_to(
                    header_values(*old(response)),
                    header_values(*final(response)),
                    self.settings().headers(),
                    n,
                ),
    {
        match self {
            HttpMiddleware::Cors(cors) => Self::apply_cors(response, cors),
        }
    }

    fn apply_cors(response: &mut http::HeaderMap<http::HeaderValue>, cors: &Cors) -> (r: bool)
        ensures
            r ==> all_set(
                header_values(*old(response)),
                header_values(*final(response)),
                cors.headers(),
            ),
            !r ==> exists|n: nat|
                n < cors.headers().len() && #[trigger] set_up_to(
                    header_values(*old(response)),
                    header_values(*final(response)),
                    cors.headers(),
                    n,
                ),
    {
        let ghost before = header_values(*response);
        let ghost hs = cors.headers();
        proof {
            reveal_with_fuel(with_headers, 4);
        }
        if !insert_header(response, CorsHeader::AllowOrigin, cors.get_allow_origin().as_str()) {
            assert(set_up_to(before, header_values(*response), hs, 0));
            return false;
        }
        assert(set_up_to(before, header_values(*response), hs, 1));
        let mut done: usize = 1;
        if let Some(allow_credentials) = cors.get_allow_credentials() {
            let text = if allow_credentials {
                "true"
            } else {
                "false"
            };
            if !insert_header(response, CorsHeader::AllowCredentials, text) {
                return false;
            }
            done = 2;
            assert(set_up_to(before, header_values(*response), hs, 2));
        }
        if let Some(expose_headers) = cors.get_expose_headers() {
            if !insert_header(response, CorsHeader::ExposeHeaders, expose_headers.as_str()) {
                assert(set_up_to(before, header_values(*response), hs, done as nat));
                return false;
            }
            assert(set_up_to(before, header_values(*response), hs, (done + 1) as nat));
        }
        true
    }
}

} // verus!
