//! What one deployment of the probe is configured with.

use url::Url;
use vstd::prelude::*;

verus! {

/// The settings of the probe. Every field but `rust_log` has to be given.
#[derive(Clone, Debug, PartialEq, Eq)]
pub struct Config {
    /// How much is logged.
    pub rust_log: String,
    /// Base URL of the engine.
    pub engine_url: String,
    /// URL of the web endpoint.
    pub web_url: String,
    /// Cluster that runs the engine.
    pub engine_cluster_arn: String,
    /// Service of the engine within its cluster.
    pub engine_service_arn: String,
    /// Table that keeps the last reported verdict.
    pub status_table_name: String,
    /// Sender of the notification.
    pub from_email_address: String,
    /// Recipient of the notification.
    pub to_email_address: String,
}

/// The URL that `reference` names when it is read against the base URL `base`,
/// or `None` where `base` is no absolute URL or `reference` cannot be resolved
/// against it.
pub uninterp spec fn url_join(base: Seq<char>, reference: Seq<char>) -> Option<Seq<char>>;

/// The log level that is used where none is configured.
pub fn default_rust_log() -> (level: String)
    ensures
        level@ == "info"@,
{
    "info".to_string()
}

impl Config {
    /// The URL at which the engine reports its status: `status`, read against
    /// the engine's base URL. `None` where the base URL is not a URL.
    pub fn engine_status_url(&self) -> (status_url: Option<String>)
        ensures
            status_url is Some <==> url_join(self.engine_url@, "status"@) is Some,
            status_url matches Some(text) ==> url_join(self.engine_url@, "status"@) == Some(text@),
    {
        join_url(self.engine_url.as_str(), "status")
    }
}

/// Calls the url crate's `Url::parse` on `base` and `Url::join` on what it
/// gives, and hands back the text of the joined URL. Both follow the URL
/// standard and read nothing but their arguments.
#[verifier::external_body]
fn join_url(base: &str, reference: &str) -> (joined: Option<String>)
    ensures
        joined is Some <==> url_join(base@, reference@) is Some,
        joined matches Some(text) ==> url_join(base@, reference@) == Some(text@),
{
    Url::parse(base).ok()?.join(reference).ok().map(String::from)
}

} // verus!
