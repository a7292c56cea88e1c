use crate::error::ClientError;
use crate::text::{decimal, decimal_string};
use vstd::prelude::*;
use vstd::string::StringExecFns;
use vstd::utf8::encode_utf8;

verus! {

/// The request methods that the client uses.
#[derive(Clone, Copy, Debug, PartialEq, Eq, Structural)]
pub enum Method {
    Get,
    Post,
    Delete,
}

/// What the client reads from an address once it is known to be a URI.
#[derive(Debug)]
pub struct Address {
    /// The address as the URI writes itself.
    pub text: String,
    /// The host it names, if any.
    pub host: Option<String>,
    /// The port it names, if any.
    pub port: Option<u16>,
}

/// The mathematical value of an [`Address`].
pub struct AddressView {
    pub text: Seq<char>,
    pub host: Option<Seq<char>>,
    pub port: Option<u16>,
}

impl View for Address {
    type V = AddressView;

    open spec fn view(&self) -> AddressView {
        AddressView {
            text: self.text@,
            host: match self.host {
                Some(h) => Some(h@),
                None => None,
            },
            port: self.port,
        }
    }
}

/// One request, ready to be sent: where to connect, and what to say.
#[derive(Debug)]
pub struct Request {
    pub method: Method,
    /// The target of the request line.
    pub uri: String,
    /// Host and port to open the connection to.
    pub address: String,
    /// The value of the `Host` header.
    pub host: String,
    /// The value of the `Authorization` header.
    pub authorization: String,
}

/// The mathematical value of a [`Request`].
pub struct RequestView {
    pub method: Method,
    pub uri: Seq<char>,
    pub address: Seq<char>,
    pub host: Seq<char>,
    pub authorization: Seq<char>,
}

impl View for Request {
    type V = RequestView;

    open spec fn view(&self) -> RequestView {
        RequestView {
            method: self.method,
            uri: self.uri@,
            address: self.address@,
            host: self.host@,
            authorization: self.authorization@,
        }
    }
}

/// What `text` holds read as a URI; `None` where it is none.
pub uninterp spec fn parsed_uri(text: Seq<char>) -> Option<AddressView>;

/// The character that writes six bits in base64, in the standard alphabet.
pub open spec fn base64_digit(v: int) -> char {
    seq![
        'A', 'B', 'C', 'D', 'E', 'F', 'G', 'H', 'I', 'J', 'K', 'L', 'M', 'N', 'O', 'P',
        'Q', 'R', 'S', 'T', 'U', 'V', 'W', 'X', 'Y', 'Z', 'a', 'b', 'c', 'd', 'e', 'f',
        'g', 'h', 'i', 'j', 'k', 'l', 'm', 'n', 'o', 'p', 'q', 'r', 's', 't', 'u', 'v',
        'w', 'x', 'y', 'z', '0', '1', '2', '3', '4', '5', '6', '7', '8', '9', '+', '/',
    ][v]
}

/// How base64 writes up to three bytes: four characters, six bits each,
/// with `=` in the place of those that no byte reaches.
pub open spec fn base64_group(b: Seq<u8>) -> Seq<char> {
    if b.len() >= 3 {
        seq![
            base64_digit(b[0] as int / 4),
            base64_digit(b[0] as int % 4 * 16 + b[1] as int / 16),
            base64_digit(b[1] as int % 16 * 4 + b[2] as int / 64),
            base64_digit(b[2] as int % 64),
        ]
    } else if b.len() == 2 {
        seq![
            base64_digit(b[0] as int / 4),
            base64_digit(b[0] as int % 4 * 16 + b[1] as int / 16),
            base64_digit(b[1] as int % 16 * 4),
            '=',
        ]
    } else {
        seq![base64_digit(b[0] as int / 4), base64_digit(b[0] as int % 4 * 16), '=', '=']
    }
}

/// The base64 encoding of a run of bytes, in the standard alphabet and
/// padded: three bytes after three, each group written as four characters.
pub open spec fn base64(bytes: Seq<u8>) -> Seq<char>
    decreases bytes.len(),
{
    if bytes.len() == 0 {
        Seq::<char>::empty()
    } else if bytes.len() <= 3 {
        base64_group(bytes)
    } else {
        base64_group(bytes.take(3)) + base64(bytes.skip(3))
    }
}

/// The character that writes the hexadecimal digit `d`, in upper case.
pub open spec fn hex_digit(d: int) -> char {
    seq!['0', '1', '2', '3', '4', '5', '6', '7', '8', '9', 'A', 'B', 'C', 'D', 'E', 'F'][d]
}

/// Whether a byte stands for itself in a percent-encoded text: the ASCII
/// letters and digits, `-`, `.`, `_` and `~`.
pub open spec fn unreserved(b: u8) -> bool {
    (0x30 <= b <= 0x39) || (0x41 <= b <= 0x5a) || (0x61 <= b <= 0x7a) || b == 0x2d || b == 0x2e
        || b == 0x5f || b == 0x7e
}

/// How one byte is written in a percent-encoded text.
pub open spec fn escaped_byte(b: u8) -> Seq<char> {
    if unreserved(b) {
        seq![b as char]
    } else {
        seq!['%', hex_digit(b as int / 16), hex_digit(b as int % 16)]
    }
}

/// The percent-encoding of a run of bytes.
pub open spec fn escaped_bytes(bytes: Seq<u8>) -> Seq<char>
    decreases bytes.len(),
{
    if bytes.len() == 0 {
        Seq::<char>::empty()
    } else {
        escaped_bytes(bytes.drop_last()) + escaped_byte(bytes.last())
    }
}

/// The percent-encoding of a text: that of its UTF-8 bytes.
pub open spec fn escaped(text: Seq<char>) -> Seq<char> {
    escaped_bytes(encode_utf8(text))
}

/// Reads `text` as a URI with hyper's `Uri` parser. The contract names what
/// the parser finds: that the text is a URI, how the URI writes itself, and
/// the host and port it names. The parser is a function of the text alone.
#[verifier::external_body]
pub(crate) fn parse_uri(text: &str) -> (res: Option<Address>)
    ensures
        match res {
            Some(a) => parsed_uri(text@) == Some(a@),
            None => parsed_uri(text@) is None,
        },
{
    match text.parse::<hyper::Uri>() {
        Ok(uri) => Some(
            Address {
                text: uri.to_string(),
                host: uri.host().map(|h| h.to_string()),
                port: uri.port_u16(),
            },
        ),
        Err(_) => None,
    }
}

/// Encodes the UTF-8 bytes of `text` with base64's `STANDARD` engine: the
/// standard alphabet, with padding. The engine fails only where the encoded
/// length overflows `usize`, which no text in memory reaches: a text holds
/// at most `isize::MAX` bytes.
#[verifier::external_body]
pub(crate) fn base64_encode(text: &str) -> (res: String)
    ensures
        res@ == base64(encode_utf8(text@)),
{
    base64::Engine::encode(&base64::engine::general_purpose::STANDARD, text)
}

/// Percent-encodes `text` with `urlencoding::encode`: every byte of its
/// UTF-8 form but the ASCII letters and digits, `-`, `.`, `_` and `~` becomes
/// `%` and two upper-case hexadecimal digits.
#[verifier::external_body]
pub(crate) fn percent_encode(text: &str) -> (res: String)
    ensures
        res@ == escaped(text@),
{
    urlencoding::encode(text).into_owned()
}

/// The port to connect to where the address names none.
pub const DEFAULT_PORT: u16 = 443;

/// The port that a request to an address with port `port` connects to.
pub open spec fn port_of(port: Option<u16>) -> u16 {
    match port {
        Some(p) => p,
        None => DEFAULT_PORT,
    }
}

/// Host and port as one text.
pub open spec fn host_and_port(host: Seq<char>, port: u16) -> Seq<char> {
    host + seq![':'] + decimal(port as nat)
}

/// The scheme word that opens a basic authorization.
pub open spec fn basic() -> Seq<char> {
    seq!['B', 'a', 's', 'i', 'c', ' ']
}

/// The value of the `Authorization` header for a user and a token: the
/// scheme word, and user, colon and token in base64.
pub open spec fn authorization(user: Seq<char>, pswd: Seq<char>) -> Seq<char> {
    basic() + base64(encode_utf8(user + seq![':'] + pswd))
}

/// The request that `method` on `target` makes, `target` being what the
/// parser found in the address.
pub open spec fn planned(
    target: Option<AddressView>,
    user: Seq<char>,
    pswd: Seq<char>,
    method: Method,
) -> Result<RequestView, ClientError> {
    match target {
        Some(AddressView { text, host: Some(h), port }) => Ok(
            RequestView {
                method,
                uri: text,
                address: host_and_port(h, port_of(port)),
                host: host_and_port(h, port_of(port)),
                authorization: authorization(user, pswd),
            },
        ),
        _ => Err(ClientError::InvalidUrl),
    }
}

/// Whether `res` is the request or the error that `expected` states.
pub open spec fn is_request(
    res: Result<Request, ClientError>,
    expected: Result<RequestView, ClientError>,
) -> bool {
    match res {
        Ok(r) => expected == Ok::<RequestView, ClientError>(r@),
        Err(e) => expected == Err::<RequestView, ClientError>(e),
    }
}

/// Plans one request to an address that was read as a URI: the connection
/// goes to the host it names, on its port or on 443; the `Host` header
/// repeats both; the `Authorization` header carries user and token.
///
/// Fails with `InvalidUrl` where the address names no host.
pub fn send_request(url: &Address, user: &str, pswd: &str, method: Method) -> (res: Result<
    Request,
    ClientError,
>)
    ensures
        is_request(res, planned(Some(url@), user@, pswd@, method)),
{
    match &url.host {
        None => Err(ClientError::InvalidUrl),
        Some(h) => {
            let port: u16 = match url.port {
                Some(p) => p,
                None => DEFAULT_PORT,
            };
            let mut address = h.clone();
            address.append(":");
            address.append(decimal_string(port as u64).as_str());
            let mut credentials = String::from_str(user);
            credentials.append(":");
            credentials.append(pswd);
            let mut authorization = String::from_str("Basic ");
            authorization.append(base64_encode(credentials.as_str()).as_str());
            proof {
                reveal_strlit(":");
                reveal_strlit("Basic ");
                assert(":"@ == seq![':']);
                assert("Basic "@ == basic());
            }
            Ok(
                Request {
                    method,
                    uri: url.text.clone(),
                    address: address.clone(),
                    host: address,
                    authorization,
                },
            )
        },
    }
}

} // verus!
