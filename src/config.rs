use crate::http::HttpMethod;
use vstd::prelude::*;

verus! {

/// The settings of the bridge: the request method and URL pattern, the
/// broker to connect to, the queue to consume, and a tag for the build.
#[derive(Debug)]
pub struct Config {
    pub method: HttpMethod,
    pub pattern: String,
    pub queue_host: String,
    pub queue_name: String,
    pub build_env: String,
}

/// Why the configuration could not be loaded.
#[derive(Debug)]
pub struct ConfigError {
    message: String,
}

impl View for ConfigError {
    type V = Seq<char>;

    closed spec fn view(&self) -> Seq<char> {
        self.message@
    }
}

impl ConfigError {
    pub fn new(msg: &str) -> (r: ConfigError)
        ensures
            r@ == msg@,
    {
        ConfigError { message: msg.to_string() }
    }

    /// The text that describes the error.
    pub fn message(&self) -> (r: &str)
        ensures
            r@ == self@,
    {
        self.message.as_str()
    }
}

} // verus!
