//! How the program presents itself to web servers, and how long it waits for them.

use std::time::Duration;
use vstd::prelude::*;

verus! {

/// The span of time that lasts `secs` whole seconds.
pub uninterp spec fn seconds(secs: u64) -> Duration;

/// `Duration::from_secs` makes the span of that many whole seconds.
pub assume_specification[ std::time::Duration::from_secs ](secs: u64) -> (span: Duration)
    ensures
        span == seconds(secs),
;

/// The settings an HTTP client is built from.
pub struct HttpClientBuilder {
    pub timeout: Duration,
    pub user_agent: String,
}

/// The browser that the program claims to be unless told otherwise.
pub open spec fn default_user_agent() -> Seq<char> {
    "Mozilla/5.0 (Windows NT 10.0; Win64; x64) AppleWebKit/537.36 (KHTML, like Gecko) Chrome/120.0.0.0 Safari/537.36"@
}

impl HttpClientBuilder {
    /// The usual settings: a timeout of half a minute, and the user agent of
    /// a common browser.
    pub fn new() -> (builder: Self)
        ensures
            builder.timeout == seconds(30),
            builder.user_agent@ == default_user_agent(),
    {
        Self {
            timeout: Duration::from_secs(30),
            user_agent: String::from_str(
                "Mozilla/5.0 (Windows NT 10.0; Win64; x64) AppleWebKit/537.36 (KHTML, like Gecko) Chrome/120.0.0.0 Safari/537.36",
            ),
        }
    }

    /// The same settings with another timeout.
    pub fn timeout(self, duration: Duration) -> (builder: Self)
        ensures
            builder.timeout == duration,
            builder.user_agent == self.user_agent,
    {
        let mut builder = self;
        builder.timeout = duration;
        builder
    }

    /// The same settings with another user agent.
    pub fn user_agent(self, ua: &str) -> (builder: Self)
        ensures
            builder.timeout == self.timeout,
            builder.user_agent@ == ua@,
    {
        let mut builder = self;
        builder.user_agent = String::from_str(ua);
        builder
    }
}

impl Default for HttpClientBuilder {
    fn default() -> (builder: Self)
        ensures
            builder.timeout == seconds(30),
            builder.user_agent@ == default_user_agent(),
    {
        Self::new()
    }
}

} // verus!
