//! The RESTful client for Bitget swap markets: signed request headers,
//! query-string construction and endpoint URLs. The HTTP transport
//! itself lives outside the library and receives these plain values.

use vstd::prelude::*;
use vstd::string::StringExecFns;
use vstd::utf8::encode_utf8;
use crate::errors::AuthError;
use crate::extern_calls::{base64_of, base64_encode, hmac_sha256, hmac_sha256_of};

verus! {

/// The base endpoint for Bitget's REST API.
pub const BASE_URL: &'static str = "https://api.bitget.com";

/// The (name, value) views of a header or parameter list.
pub open spec fn pair_seq_views(ps: Seq<(String, String)>) -> Seq<(Seq<char>, Seq<char>)> {
    ps.map_values(|p: (String, String)| (p.0@, p.1@))
}

/// What a signed REST request authenticates: timestamp, verb, path, and
/// the body when there is one.
pub open spec fn rest_sign_payload(
    ts: Seq<char>,
    method: Seq<char>,
    path: Seq<char>,
    body: Option<Seq<char>>,
) -> Seq<char> {
    ts + method + path + (match body {
        Some(b) => b,
        None => Seq::empty(),
    })
}

/// The request signature: the base64 of the HMAC-SHA-256 of the sign
/// payload under the API secret.
pub open spec fn rest_signature_of(
    secret: Seq<char>,
    ts: Seq<char>,
    method: Seq<char>,
    path: Seq<char>,
    body: Option<Seq<char>>,
) -> Seq<char> {
    base64_of(
        hmac_sha256_of(encode_utf8(secret), encode_utf8(rest_sign_payload(ts, method, path, body))),
    )
}

/// The query string appended to a URL: `?k=v` for the first parameter,
/// `&k=v` for each further one, in parameter order.
pub open spec fn query_string(ps: Seq<(Seq<char>, Seq<char>)>) -> Seq<char>
    decreases ps.len(),
{
    if ps.len() == 0 {
        Seq::empty()
    } else {
        query_string(ps.drop_last()) + (if ps.len() == 1 {
            "?"@
        } else {
            "&"@
        }) + ps.last().0 + "="@ + ps.last().1
    }
}

/// Appends the parameters to a base URL as a query string.
pub fn build_query_url(base: &str, params: &Vec<(String, String)>) -> (r: String)
    ensures
        r@ == base@ + query_string(pair_seq_views(params@)),
{
    let mut s = base.to_owned();
    let n = params.len();
    for i in 0..n
        invariant
            n == params@.len(),
            s@ == base@ + query_string(pair_seq_views(params@).subrange(0, i as int)),
    {
        let ghost prefix = pair_seq_views(params@).subrange(0, i as int);
        let ghost longer = pair_seq_views(params@).subrange(0, i as int + 1);
        proof {
            assert(longer.drop_last() =~= prefix);
            assert(longer.last() == (params@[i as int].0@, params@[i as int].1@));
        }
        if i == 0 {
            s.append("?");
        } else {
            s.append("&");
        }
        s.append(params[i].0.as_str());
        s.append("=");
        s.append(params[i].1.as_str());
        proof {
            assert(s@ == base@ + query_string(longer));
        }
    }
    proof {
        assert(pair_seq_views(params@).subrange(0, n as int) =~= pair_seq_views(params@));
    }
    s
}

/// A request ready for the transport: the full URL and the headers to
/// attach.
pub struct PreparedRequest {
    pub url: String,
    pub headers: Vec<(String, String)>,
}

/// The RESTful client for Bitget swap markets: holds the credentials and
/// prepares what each request needs.
pub struct BitgetSwapRestClient {
    pub _api_key: Option<String>,
    pub _api_secret: Option<String>,
    pub _api_passphrase: Option<String>,
}

impl BitgetSwapRestClient {
    pub fn new(
        api_key: Option<String>,
        api_secret: Option<String>,
        api_passphrase: Option<String>,
    ) -> (c: BitgetSwapRestClient)
        ensures
            c._api_key == api_key,
            c._api_secret == api_secret,
            c._api_passphrase == api_passphrase,
    {
        BitgetSwapRestClient { _api_key: api_key, _api_secret: api_secret, _api_passphrase: api_passphrase }
    }

    /// The five authentication headers of a signed request, in insertion
    /// order: key, passphrase, locale, timestamp and signature. Fails
    /// naming the first credential that was never supplied.
    pub fn create_signature_headers(
        &self,
        method: &str,
        request_path: &str,
        body: &Option<String>,
        timestamp: &str,
    ) -> (r: Result<Vec<(String, String)>, AuthError>)
        ensures
            match r {
                Ok(hs) => {
                    &&& self._api_key matches Some(k) && self._api_secret matches Some(sec)
                        && self._api_passphrase matches Some(p) && {
                        &&& hs@.len() == 5
                        &&& hs@[0].0@ == "ACCESS-KEY"@ && hs@[0].1@ == k@
                        &&& hs@[1].0@ == "ACCESS-PASSPHRASE"@ && hs@[1].1@ == p@
                        &&& hs@[2].0@ == "locale"@ && hs@[2].1@ == "en-US"@
                        &&& hs@[3].0@ == "ACCESS-TIMESTAMP"@ && hs@[3].1@ == timestamp@
                        &&& hs@[4].0@ == "ACCESS-SIGN"@ && hs@[4].1@ == rest_signature_of(
                            sec@,
                            timestamp@,
                            method@,
                            request_path@,
                            match body {
                                Some(b) => Some(b@),
                                None => None,
                            },
                        )
                    }
                },
                Err(e) => match e {
                    AuthError::MissingApiKey => self._api_key is None,
                    AuthError::MissingApiSecret => self._api_key is Some && self._api_secret
                        is None,
                    AuthError::MissingApiPassphrase => self._api_key is Some && self._api_secret
                        is Some && self._api_passphrase is None,
                },
            },
    {
        let key = match &self._api_key {
            Some(k) => k,
            None => {
                return Err(AuthError::MissingApiKey);
            },
        };
        let secret = match &self._api_secret {
            Some(s) => s,
            None => {
                return Err(AuthError::MissingApiSecret);
            },
        };
        let passphrase = match &self._api_passphrase {
            Some(p) => p,
            None => {
                return Err(AuthError::MissingApiPassphrase);
            },
        };
        let mut message = timestamp.to_owned();
        message.append(method);
        message.append(request_path);
        match body {
            Some(b) => {
                message.append(b.as_str());
            },
            None => {},
        }
        let code = hmac_sha256(secret.as_str().as_bytes(), message.as_str().as_bytes());
        let sign = base64_encode(code.as_slice());
        let mut hs: Vec<(String, String)> = Vec::new();
        hs.push(("ACCESS-KEY".to_owned(), key.clone()));
        hs.push(("ACCESS-PASSPHRASE".to_owned(), passphrase.clone()));
        hs.push(("locale".to_owned(), "en-US".to_owned()));
        hs.push(("ACCESS-TIMESTAMP".to_owned(), timestamp.to_owned()));
        hs.push(("ACCESS-SIGN".to_owned(), sign));
        Ok(hs)
    }

    /// Everything the transport needs for one request: the full URL with
    /// its query string, and the signature headers when the endpoint is
    /// private.
    pub fn prepare_request(
        &self,
        method: &str,
        path: &str,
        params: &Vec<(String, String)>,
        body: &Option<String>,
        need_signature: bool,
        timestamp: &str,
    ) -> (r: Result<PreparedRequest, AuthError>)
        ensures
            match r {
                Ok(pr) => {
                    &&& pr.url@ == BASE_URL@ + path@ + query_string(pair_seq_views(params@))
                    &&& !need_signature ==> pr.headers@.len() == 0
                    &&& need_signature ==> {
                        &&& self._api_key matches Some(k) && self._api_secret matches Some(sec)
                            && self._api_passphrase matches Some(p) && {
                            &&& pr.headers@.len() == 5
                            &&& pr.headers@[0].0@ == "ACCESS-KEY"@ && pr.headers@[0].1@ == k@
                            &&& pr.headers@[1].0@ == "ACCESS-PASSPHRASE"@ && pr.headers@[1].1@
                                == p@
                            &&& pr.headers@[2].0@ == "locale"@ && pr.headers@[2].1@ == "en-US"@
                            &&& pr.headers@[3].0@ == "ACCESS-TIMESTAMP"@ && pr.headers@[3].1@
                                == timestamp@
                            &&& pr.headers@[4].0@ == "ACCESS-SIGN"@ && pr.headers@[4].1@
                                == rest_signature_of(
                                sec@,
                                timestamp@,
                                method@,
                                path@,
                                match body {
                                    Some(b) => Some(b@),
                                    None => None,
                                },
                            )
                        }
                    }
                },
                Err(e) => need_signature && match e {
                    AuthError::MissingApiKey => self._api_key is None,
                    AuthError::MissingApiSecret => self._api_key is Some && self._api_secret
                        is None,
                    AuthError::MissingApiPassphrase => self._api_key is Some && self._api_secret
                        is Some && self._api_passphrase is None,
                },
            },
    {
        let headers: Vec<(String, String)> = if need_signature {
            match self.create_signature_headers(method, path, body, timestamp) {
                Ok(hs) => hs,
                Err(e) => {
                    return Err(e);
                },
            }
        } else {
            Vec::new()
        };
        let mut base = BASE_URL.to_owned();
        base.append(path);
        let url = build_query_url(base.as_str(), params);
        Ok(PreparedRequest { url, headers })
    }

    /// The public open-interest endpoint for one symbol.
    pub fn open_interest_url(&self, symbol: &str) -> (r: String)
        ensures
            r@ == BASE_URL@ + "/api/mix/v1/market/open-interest?symbol="@ + symbol@,
    {
        let mut url = BASE_URL.to_owned();
        url.append("/api/mix/v1/market/open-interest?symbol=");
        url.append(symbol);
        url
    }
}

} // verus!
