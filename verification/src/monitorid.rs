//! The monitor identifier: an http(s) URL recovered from an opaque token —
//! either the URL itself or its base64 encoding — and the opaque token
//! derived back from the URL.

use vstd::prelude::*;
use vstd::utf8::{decode_utf8, valid_utf8};
use crate::strutil::{str_has_prefix, utf8_to_string};

verus! {

/// What base64::decode yields for an input: the decoded bytes, or nothing
/// when the input is not valid standard base64.
pub uninterp spec fn base64_decoded(s: Seq<char>) -> Option<Seq<u8>>;

/// Relies on base64::decode (standard alphabet): decodes exactly the valid
/// base64 inputs, to bytes that depend on the input alone.
#[verifier::external_body]
fn decode_base64(s: &str) -> (r: Option<Vec<u8>>)
    ensures
        r is Some <==> base64_decoded(s@) is Some,
        r matches Some(v) ==> Some(v@) == base64_decoded(s@),
{
    base64::decode(s).ok()
}

/// What base64::encode yields for the UTF-8 bytes of a string: standard
/// alphabet, with trailing '=' padding.
pub uninterp spec fn base64_encoding(s: Seq<char>) -> Seq<char>;

/// Relies on base64::encode: the result depends on the input bytes alone.
#[verifier::external_body]
fn encode_base64(s: &str) -> (r: String)
    ensures
        r@ == base64_encoding(s@),
{
    base64::encode(s.as_bytes())
}

/// What url::Url::parse yields for an input: the normalized serialized URL
/// text and its scheme, or nothing when the input is not a valid URL.
pub uninterp spec fn url_parsed(s: Seq<char>) -> Option<(Seq<char>, Seq<char>)>;

/// A parsed monitor URL, reduced to the two pieces the library reads: the
/// normalized text and the scheme.
pub struct ParsedUrl {
    pub text: String,
    pub scheme: String,
}

/// Relies on url::Url::parse; the normalized text is read back with
/// Url::as_str and the scheme (always lower case there) with Url::scheme.
#[verifier::external_body]
fn parse_url(s: &str) -> (r: Option<ParsedUrl>)
    ensures
        r is Some <==> url_parsed(s@) is Some,
        r matches Some(p) ==> Some((p.text@, p.scheme@)) == url_parsed(s@),
{
    match url::Url::parse(s) {
        Ok(u) => {
            let scheme = u.scheme().to_owned();
            let text = u.as_str().to_owned();
            Some(ParsedUrl { text, scheme })
        },
        Err(_) => None,
    }
}

/// The URL text a token stands for: a token that already starts with
/// "http://" or "https://" is the text itself; otherwise it must be valid
/// base64 whose decoded bytes are valid UTF-8.
pub open spec fn decoded_token_spec(s: Seq<char>) -> Option<Seq<char>> {
    if "http://"@.is_prefix_of(s) || "https://"@.is_prefix_of(s) {
        Some(s)
    } else {
        match base64_decoded(s) {
            Some(bytes) => if valid_utf8(bytes) {
                Some(decode_utf8(bytes))
            } else {
                None
            },
            None => None,
        }
    }
}

/// Recover the URL text behind a monitor token, or nothing when the token is
/// neither a literal http(s) URL nor base64 over UTF-8 text.
pub fn try_decode_monitor_token(s: &str) -> (r: Option<String>)
    ensures
        r is Some <==> decoded_token_spec(s@) is Some,
        r matches Some(t) ==> Some(t@) == decoded_token_spec(s@),
{
    if str_has_prefix(s, "http://") || str_has_prefix(s, "https://") {
        Some(s.to_owned())
    } else {
        match decode_base64(s) {
            Some(bytes) => utf8_to_string(bytes),
            None => None,
        }
    }
}

/// What parsing a whole monitor token yields: the normalized URL text and
/// scheme, when the token decodes and parses.
pub open spec fn parsed_monitor_spec(s: Seq<char>) -> Option<(Seq<char>, Seq<char>)> {
    match decoded_token_spec(s) {
        Some(t) => url_parsed(t),
        None => None,
    }
}

/// Why a token was rejected: it did not decode or parse at all, or its URL
/// carries a scheme other than http or https.
#[derive(Debug)]
pub enum MonitorError {
    Malformed,
    UnsupportedScheme(String),
}

/// The identity of one monitor: the normalized URL reports go to.
pub struct MonitorId {
    url: String,
    scheme: String,
}

/// Trailing '=' characters removed.
pub open spec fn trim_padding_spec(s: Seq<char>) -> Seq<char>
    decreases s.len(),
{
    if s.len() > 0 && s.last() == '=' {
        trim_padding_spec(s.drop_last())
    } else {
        s
    }
}

impl MonitorId {
    /// The normalized URL text of this monitor.
    pub closed spec fn url_spec(&self) -> Seq<char> {
        self.url@
    }

    /// The scheme of the monitor's URL: "http" or "https".
    pub closed spec fn scheme_spec(&self) -> Seq<char> {
        self.scheme@
    }

    /// Parse a monitor token. Accepted exactly when the token decodes to a
    /// URL that parses and whose scheme is http or https; the identifier
    /// keeps the normalized URL text.
    pub fn from_str(s: &str) -> (r: Result<MonitorId, MonitorError>)
        ensures
            r matches Ok(id) ==> parsed_monitor_spec(s@) == Some(
                (id.url_spec(), id.scheme_spec()),
            ) && (id.scheme_spec() == "http"@ || id.scheme_spec() == "https"@),
            r matches Err(MonitorError::Malformed) ==> parsed_monitor_spec(s@) is None,
            r matches Err(MonitorError::UnsupportedScheme(sch)) ==> (parsed_monitor_spec(s@)
                matches Some(p) && p.1 == sch@ && sch@ != "http"@ && sch@ != "https"@),
    {
        let decoded = match try_decode_monitor_token(s) {
            Some(t) => t,
            None => {
                return Err(MonitorError::Malformed);
            },
        };
        let parsed = match parse_url(decoded.as_str()) {
            Some(p) => p,
            None => {
                return Err(MonitorError::Malformed);
            },
        };
        if parsed.scheme == "http".to_owned() || parsed.scheme == "https".to_owned() {
            Ok(MonitorId { url: parsed.text, scheme: parsed.scheme })
        } else {
            Err(MonitorError::UnsupportedScheme(parsed.scheme))
        }
    }

    /// Whether reports travel over https.
    pub fn is_secure(&self) -> (r: bool)
        ensures
            r == (self.scheme_spec() == "https"@),
    {
        self.scheme == "https".to_owned()
    }

    /// The URL reports are posted under.
    pub fn api_url(&self) -> (r: &String)
        ensures
            r@ == self.url_spec(),
    {
        &self.url
    }

    /// The opaque token for this monitor: the base64 encoding of its URL
    /// text, with the trailing '=' padding removed.
    pub fn token(&self) -> (r: String)
        ensures
            r@ == trim_padding_spec(base64_encoding(self.url_spec())),
    {
        let encoded = encode_base64(self.url.as_str());
        let es = encoded.as_str();
        let total = es.unicode_len();
        proof {
            assert(es@.take(total as int) =~= es@);
        }
        let mut new_len: usize = total;
        while new_len > 0 && es.get_char(new_len - 1) == '='
            invariant
                new_len <= total,
                total == es@.len(),
                trim_padding_spec(es@) == trim_padding_spec(es@.take(new_len as int)),
            decreases new_len,
        {
            proof {
                let cur = es@.take(new_len as int);
                assert(cur.last() == es@[new_len - 1]);
                assert(cur.drop_last() =~= es@.take(new_len - 1));
            }
            new_len -= 1;
        }
        proof {
            let cur = es@.take(new_len as int);
            if new_len == 0 {
                assert(cur =~= Seq::<char>::empty());
            } else {
                assert(cur.last() == es@[new_len - 1]);
            }
            assert(trim_padding_spec(cur) == cur);
        }
        es.substring_char(0, new_len).to_owned()
    }
}

} // verus!
