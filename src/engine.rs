//! The crawling engine's session object, as the controller holds it.

use spider::website::Website as Engine;
use vstd::prelude::*;

verus! {

#[verifier::external_type_specification]
#[verifier::external_body]
pub struct ExEngineWebsite(Engine);

/// Relies on `spider::website::Website::new`: an engine session for the url.
#[verifier::external_body]
pub(crate) fn engine_new(url: &str) -> (r: Engine) {
    Engine::new(url)
}

/// Relies on `spider::website::Website::stop`: signals the engine session to
/// stop producing new work.
#[verifier::external_body]
pub(crate) fn engine_stop(w: &mut Engine) {
    w.stop()
}

/// Relies on `spider::website::Website::get_url`: the url the session was
/// made for, which names its domain for a shutdown.
#[verifier::external_body]
pub(crate) fn engine_url(w: &Engine) -> (r: String) {
    w.get_url().inner().to_string()
}

/// Relies on `Clone` of `spider::website::Website`: an independent copy of its
/// configuration, for a detached run.
#[verifier::external_body]
pub(crate) fn engine_clone(w: &Engine) -> (r: Engine) {
    w.clone()
}

} // verus!
