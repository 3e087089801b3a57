//! Operating systems without a proxy backend.
use vstd::prelude::*;

use crate::error::ProxyError;
use crate::options::Options;
use crate::types::ProxyConfig;

verus! {

/// Turning the proxy off is not supported here.
pub fn disable_proxy(_opt: Option<&Options>) -> (r: Result<(), ProxyError>)
    ensures
        r matches Err(e) && e is UnsupportedOs,
{
    Err(ProxyError::UnsupportedOs)
}

/// Setting the proxy is not supported here.
pub fn set_proxy(_opt: Option<&Options>) -> (r: Result<(), ProxyError>)
    ensures
        r matches Err(e) && e is UnsupportedOs,
{
    Err(ProxyError::UnsupportedOs)
}

/// Setting the automatic proxy is not supported here.
pub fn set_pac(_opt: Option<&Options>) -> (r: Result<(), ProxyError>)
    ensures
        r matches Err(e) && e is UnsupportedOs,
{
    Err(ProxyError::UnsupportedOs)
}

/// Reading the proxy settings is not supported here.
pub fn query_proxy_settings(_opt: Option<&Options>) -> (r: Result<ProxyConfig, ProxyError>)
    ensures
        r matches Err(e) && e is UnsupportedOs,
{
    Err(ProxyError::UnsupportedOs)
}

} // verus!
