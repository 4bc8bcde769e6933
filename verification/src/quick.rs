//! Shortcuts over a fresh version adapter.
use vstd::prelude::*;
use crate::version_adapter::{opt_str, profile_for, resolved_profile, VersionAdapter};
use crate::version_detector::{detection, mobile_ua, opt_text, os_of, BrowserInfo, VersionDetector};
use crate::version_registry::BrowserType;

verus! {

/// The profile name for the browser and version of a User-Agent.
pub fn profile_from_ua(user_agent: &str) -> (r: Option<String>)
    ensures
        exists|a: VersionAdapter| #![auto] a.wf() && a.is_default() && match detection(user_agent@) {
            Some((b, v)) => opt_str(r) == profile_for(a.registry().versions(b), v),
            None => r is None,
        },
{
    let a = VersionAdapter::new();
    a.get_profile_from_ua(user_agent)
}

/// The profile name for a browser version.
pub fn profile(browser: BrowserType, version: u32) -> (r: Option<String>)
    ensures
        exists|a: VersionAdapter| #![auto] a.wf() && a.is_default() && opt_str(r) == profile_for(a.registry().versions(browser), version),
{
    let a = VersionAdapter::new();
    a.get_profile(browser, version)
}

/// The profile name of a browser's highest version.
pub fn latest_profile(browser: BrowserType) -> (r: Option<String>)
    ensures
        exists|a: VersionAdapter| #![auto] a.wf() && a.is_default() && (r is Some <==> a.registry().versions(browser).len() > 0)
            && (r matches Some(p) ==> p@ == resolved_profile(a.registry().versions(browser).last().profile_fn@)),
{
    let a = VersionAdapter::new();
    a.get_latest_profile(browser)
}

/// Detects browser and version from a User-Agent.
pub fn detect_browser(user_agent: &str) -> (r: Option<BrowserInfo>)
    ensures
        r is Some <==> detection(user_agent@) is Some,
        r matches Some(info) ==> {
            &&& detection(user_agent@) == Some((info.browser, info.version))
            &&& info.user_agent@ == user_agent@
            &&& opt_text(info.os) == os_of(user_agent@)
            &&& info.is_mobile == mobile_ua(user_agent@)
        },
{
    VersionDetector::detect(user_agent)
}

} // verus!
