//! What the device-facing HTTP layer decides: header checks, error
//! statuses and messages, and the bodies of its responses. Transport,
//! storage and serialisation stay with the caller.
use base64::Engine;
use vstd::prelude::*;

use crate::time::{digits, text_from_chars};

verus! {

/// Application configuration.
#[derive(Debug, Clone)]
pub struct Config {
    /// Server host to listen on
    pub server_host: String,
    /// Server port to listen on
    pub server_port: u16,
    /// Database file path
    pub database_path: String,
    /// Access token for API authentication
    pub access_token: String,
    /// Font path for BMP generation
    pub font_path: String,
    /// Image refresh rate in seconds
    pub refresh_rate: u32,
}

/// Errors a request can end in.
#[derive(Debug, Clone)]
pub enum AppError {
    Auth(String),
    Config(String),
    BadRequest(String),
    Anyhow(String),
}

/// The body of an error response.
#[derive(Debug, Clone)]
pub struct ErrorResponse {
    pub error: String,
    pub code: u16,
}

/// The body of a successful setup response.
#[derive(Debug, Clone)]
pub struct SetupResponse {
    /// Status code, 200
    pub status: u16,
    /// API key for the device
    pub api_key: String,
    /// Friendly ID for the device
    pub friendly_id: String,
    /// Image to show on the setup screen (BMP, 800x480px)
    pub image_url: String,
}

/// The body of a display response.
#[derive(Debug, Clone)]
pub struct DisplayResponse {
    pub filename: String,
    pub image_url: String,
    pub image_url_timeout: u32,
    pub refresh_rate: u32,
}

/// A registered device.
#[derive(Debug, Clone)]
pub struct Device {
    pub id: String,
    pub registered_at: i64,
}

/// Record of a device in the database.
#[derive(Debug, Clone)]
pub struct DeviceRecord {
    /// Device unique identifier (MAC address)
    pub id: String,
    /// Unix timestamp when the device was registered
    pub registered_at: i64,
}

impl AppError {
    /// The HTTP status the error is answered with.
    pub open spec fn status_spec(self) -> u16 {
        match self {
            AppError::Auth(_) => 401,
            AppError::Config(_) => 500,
            AppError::BadRequest(_) => 400,
            AppError::Anyhow(_) => 500,
        }
    }

    /// The error's text.
    pub open spec fn message_spec(self) -> Seq<char> {
        match self {
            AppError::Auth(m) => "Authentication failed: "@ + m@,
            AppError::Config(m) => "Configuration error: "@ + m@,
            AppError::BadRequest(m) => "Bad request: "@ + m@,
            AppError::Anyhow(m) => m@,
        }
    }

    /// The HTTP status the error is answered with.
    pub fn status_code(&self) -> (r: u16)
        ensures
            r == self.status_spec(),
    {
        match self {
            AppError::Auth(_) => 401,
            AppError::Config(_) => 500,
            AppError::BadRequest(_) => 400,
            AppError::Anyhow(_) => 500,
        }
    }

    /// The error's text.
    pub fn message(&self) -> (r: String)
        ensures
            r@ == self.message_spec(),
    {
        match self {
            AppError::Auth(m) => {
                let mut r = String::from_str("Authentication failed: ");
                r.append(m.as_str());
                r
            },
            AppError::Config(m) => {
                let mut r = String::from_str("Configuration error: ");
                r.append(m.as_str());
                r
            },
            AppError::BadRequest(m) => {
                let mut r = String::from_str("Bad request: ");
                r.append(m.as_str());
                r
            },
            AppError::Anyhow(m) => m.clone(),
        }
    }

    /// The body the error is answered with.
    pub fn to_response(&self) -> (r: ErrorResponse)
        ensures
            r.error@ == self.message_spec(),
            r.code == self.status_spec(),
    {
        ErrorResponse { error: self.message(), code: self.status_code() }
    }
}

/// Accepts a request whose `Access-Token` header (if present) equals the
/// configured token.
pub fn validate_headers(access_token: Option<&str>, config: &Config) -> (r: Result<(), AppError>)
    ensures
        match access_token {
            None => r matches Err(AppError::Auth(m)) && m@ == "Missing Access-Token header"@,
            Some(t) => if t@ == config.access_token@ {
                r is Ok
            } else {
                r matches Err(AppError::Auth(m)) && m@ == "Invalid Access-Token"@
            },
        },
{
    match access_token {
        None => Err(AppError::Auth(String::from_str("Missing Access-Token header"))),
        Some(t) => if crate::events::same_text(t, config.access_token.as_str()) {
            Ok(())
        } else {
            Err(AppError::Auth(String::from_str("Invalid Access-Token")))
        },
    }
}

/// The device ID from the `ID` header, which must be present.
pub fn extract_device_id(id: Option<&str>) -> (r: Result<String, AppError>)
    ensures
        match id {
            None => r matches Err(AppError::Auth(m)) && m@ == "Missing ID header"@,
            Some(i) => r matches Ok(s) && s@ == i@,
        },
{
    match id {
        None => Err(AppError::Auth(String::from_str("Missing ID header"))),
        Some(i) => Ok(String::from_str(i)),
    }
}

/// Device logs are taken as JSON or plain text only.
pub fn accepts_log_content_type(content_type: &str) -> (r: bool)
    ensures
        r == (content_type@ == "application/json"@ || content_type@ == "text/plain"@),
{
    crate::events::same_text(content_type, "application/json") || crate::events::same_text(
        content_type,
        "text/plain",
    )
}

/// One line of the device log: `[device] body` and a line break.
pub fn log_entry(device_id: &str, body: &str) -> (r: String)
    ensures
        r@ == "["@ + device_id@ + "] "@ + body@ + "\n"@,
{
    let mut r = String::from_str("[");
    r.append(device_id);
    r.append("] ");
    r.append(body);
    r.append("\n");
    r
}

/// A number in decimal, without leading zeros.
pub open spec fn decimal(n: nat) -> Seq<char>
    decreases n,
{
    if n < 10 {
        seq![digits()[n as int]]
    } else {
        decimal(n / 10).push(digits()[(n % 10) as int])
    }
}

fn push_decimal(out: &mut Vec<char>, n: u16)
    ensures
        final(out)@ == old(out)@ + decimal(n as nat),
    decreases n,
{
    let ds = "0123456789";
    proof {
        reveal_strlit("0123456789");
    }
    if n >= 10 {
        push_decimal(out, n / 10);
    }
    out.push(ds.get_char((n % 10) as usize));
    assert(out@ =~= old(out)@ + decimal(n as nat));
}

/// The address of the setup image on the configured server.
pub open spec fn setup_image_url(config: Config) -> Seq<char> {
    "http://"@ + config.server_host@ + ":"@ + decimal(config.server_port as nat)
        + "/static/setup-logo.bmp"@
}

impl SetupResponse {
    /// The answer to a device that has been registered; its image is served
    /// by the configured host and port.
    pub fn registered(config: &Config) -> (r: Self)
        ensures
            r.status == 200,
            r.api_key@ == "my-api-key"@,
            r.friendly_id@ == "TRMNL001"@,
            r.image_url@ == setup_image_url(*config),
    {
        let mut port: Vec<char> = Vec::new();
        push_decimal(&mut port, config.server_port);
        let port = text_from_chars(&port);
        let mut image_url = String::from_str("http://");
        image_url.append(config.server_host.as_str());
        image_url.append(":");
        image_url.append(port.as_str());
        image_url.append("/static/setup-logo.bmp");
        SetupResponse {
            status: 200,
            api_key: String::from_str("my-api-key"),
            friendly_id: String::from_str("TRMNL001"),
            image_url,
        }
    }
}

/// The standard base64 alphabet, indexed by six-bit value.
pub open spec fn base64_alphabet() -> Seq<char> {
    "ABCDEFGHIJKLMNOPQRSTUVWXYZabcdefghijklmnopqrstuvwxyz0123456789+/"@
}

/// Standard base64 with padding: each three bytes become four characters of
/// six bits each; a last one or two bytes are padded with `=`.
pub open spec fn base64_of(bytes: Seq<u8>) -> Seq<char>
    decreases bytes.len(),
{
    let a = base64_alphabet();
    let b0 = bytes[0] as int;
    let b1 = if bytes.len() > 1 { bytes[1] as int } else { 0 };
    let b2 = if bytes.len() > 2 { bytes[2] as int } else { 0 };
    if bytes.len() == 0 {
        Seq::empty()
    } else if bytes.len() == 1 {
        seq![a[b0 / 4], a[(b0 % 4) * 16], '=', '=']
    } else if bytes.len() == 2 {
        seq![a[b0 / 4], a[(b0 % 4) * 16 + b1 / 16], a[(b1 % 16) * 4], '=']
    } else {
        seq![a[b0 / 4], a[(b0 % 4) * 16 + b1 / 16], a[(b1 % 16) * 4 + b2 / 64], a[b2 % 64]]
            + base64_of(bytes.subrange(3, bytes.len() as int))
    }
}

/// Relies on `base64::engine::general_purpose::STANDARD.encode`: the
/// standard alphabet, with padding.
#[verifier::external_body]
fn encode_base64(bytes: &[u8]) -> (r: String)
    ensures
        r@ == base64_of(bytes@),
{
    base64::engine::general_purpose::STANDARD.encode(bytes)
}

impl DisplayResponse {
    /// The answer carrying a bitmap inline, as a base64 `data:` URL.
    pub fn for_image(bmp: &Vec<u8>, refresh_rate: u32) -> (r: Self)
        ensures
            r.filename@ == "demo.bmp"@,
            r.image_url@ == "data:image/bmp;base64,"@ + base64_of(bmp@),
            r.image_url_timeout == 0,
            r.refresh_rate == refresh_rate,
    {
        let mut image_url = String::from_str("data:image/bmp;base64,");
        let encoded = encode_base64(bmp.as_slice());
        image_url.append(encoded.as_str());
        DisplayResponse {
            filename: String::from_str("demo.bmp"),
            image_url,
            image_url_timeout: 0,
            refresh_rate,
        }
    }
}

} // verus!
