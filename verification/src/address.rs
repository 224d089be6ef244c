//! Network addresses: how a URL reads, and the addresses that follow from
//! the one at which a device was discovered.

use vstd::prelude::*;
use vstd::string::StringExecFns;

verus! {

/// What `url::Url::parse` makes of `input`: the serialization of the URL
/// that it read, or the message of the error with which it refused.
pub uninterp spec fn url_reading(input: Seq<char>) -> Result<Seq<char>, Seq<char>>;

/// The text of either side of `r`.
pub open spec fn reading_view(r: Result<String, String>) -> Result<Seq<char>, Seq<char>> {
    match r {
        Ok(address) => Ok(address@),
        Err(reason) => Err(reason@),
    }
}

/// Reads `input` as an absolute URL with `url::Url::parse`. On success the
/// result is the URL's serialization (what `Url::as_str` gives), on failure
/// what the `url::ParseError` displays. Nothing is proved of either: the
/// contract only names them, as a function of `input` alone.
#[verifier::external_body]
pub(crate) fn read_url(input: &str) -> (r: Result<String, String>)
    ensures
        reading_view(r) == url_reading(input@),
{
    match url::Url::parse(input) {
        Ok(url) => Ok(String::from(url)),
        Err(e) => Err(e.to_string()),
    }
}

/// Where the management service lives below a device's base address.
pub open spec fn device_service_path() -> Seq<char> {
    "/onvif/device_service"@
}

/// The address at which the management service of the device at `base` is
/// expected, before it is read as a URL.
pub fn device_service_address(base: &str) -> (r: String)
    ensures
        r@ == base@ + device_service_path(),
{
    String::from_str(base).concat("/onvif/device_service")
}

/// What joins a scheme and a host.
pub open spec fn scheme_separator() -> Seq<char> {
    "://"@
}

/// The base address of a device discovered under `scheme` at `host`.
pub fn base_address(scheme: &str, host: &str) -> (r: String)
    ensures
        r@ == scheme@ + scheme_separator() + host@,
{
    String::from_str(scheme).concat("://").concat(host)
}

} // verus!
