//! Client settings: API key, timeout and host, and the endpoints they lead to.
use vstd::prelude::*;

verus! {

/// The host that clients talk to unless told otherwise.
pub const DEFAULT_HOST: &'static str = "https://api.deepseek.com";

/// The value of the `Authorization` header for an API key.
pub fn authorization(api_key: &str) -> (r: String)
    ensures
        r@ == "Bearer "@ + api_key@,
{
    String::from_str("Bearer ").concat(api_key)
}

/// The endpoint that lists the models.
pub fn models_url(host: &str) -> (r: String)
    ensures
        r@ == host@ + "/models"@,
{
    String::from_str(host).concat("/models")
}

/// The endpoint that reports the balance.
pub fn balance_url(host: &str) -> (r: String)
    ensures
        r@ == host@ + "/user/balance"@,
{
    String::from_str(host).concat("/user/balance")
}

/// The endpoint for completions: the beta one for requests that need it.
pub fn completions_url(host: &str, beta: bool) -> (r: String)
    ensures
        r@ == host@ + (if beta {
            "/beta/completions"@
        } else {
            "/chat/completions"@
        }),
{
    if beta {
        String::from_str(host).concat("/beta/completions")
    } else {
        String::from_str(host).concat("/chat/completions")
    }
}

/// Settings of a client: API key and an optional timeout, in seconds.
pub struct ClientBuilder {
    api_key: String,
    timeout: Option<u64>,
    host: String,
}

impl ClientBuilder {
    pub closed spec fn spec_api_key(&self) -> Seq<char> {
        self.api_key@
    }

    pub closed spec fn spec_timeout(&self) -> Option<u64> {
        self.timeout
    }

    pub closed spec fn spec_host(&self) -> Seq<char> {
        self.host@
    }

    /// Settings with this key, the default host and no timeout.
    pub fn new(api_key: String) -> (r: Self)
        ensures
            r.spec_api_key() == api_key@,
            r.spec_timeout() is None,
            r.spec_host() == DEFAULT_HOST@,
    {
        ClientBuilder { api_key, timeout: None, host: String::from_str(DEFAULT_HOST) }
    }

    /// Sets the timeout, in seconds.
    pub fn timeout(self, duration: u64) -> (r: Self)
        ensures
            r.spec_api_key() == self.spec_api_key(),
            r.spec_timeout() == Some(duration),
            r.spec_host() == self.spec_host(),
    {
        ClientBuilder { timeout: Some(duration), ..self }
    }

    pub fn api_key(&self) -> (r: &str)
        ensures
            r@ == self.spec_api_key(),
    {
        self.api_key.as_str()
    }

    pub fn timeout_secs(&self) -> (r: Option<u64>)
        ensures
            r == self.spec_timeout(),
    {
        self.timeout
    }

    pub fn host(&self) -> (r: &str)
        ensures
            r@ == self.spec_host(),
    {
        self.host.as_str()
    }
}

/// Settings of a client: API key, optional timeout in seconds, and host.
pub struct DeepSeekClientBuilder {
    api_key: String,
    timeout: Option<u64>,
    host: String,
}

impl DeepSeekClientBuilder {
    pub closed spec fn spec_api_key(&self) -> Seq<char> {
        self.api_key@
    }

    pub closed spec fn spec_timeout(&self) -> Option<u64> {
        self.timeout
    }

    pub closed spec fn spec_host(&self) -> Seq<char> {
        self.host@
    }

    /// Settings with this key, the default host and no timeout.
    pub fn new(api_key: String) -> (r: Self)
        ensures
            r.spec_api_key() == api_key@,
            r.spec_timeout() is None,
            r.spec_host() == DEFAULT_HOST@,
    {
        DeepSeekClientBuilder { api_key, timeout: None, host: String::from_str(DEFAULT_HOST) }
    }

    /// Settings from the value of the API key variable of the environment,
    /// if set; an empty key otherwise.
    pub fn from_env_value(value: Option<String>) -> (r: Self)
        ensures
            value matches Some(v) ==> r.spec_api_key() == v@,
            value is None ==> r.spec_api_key().len() == 0,
            r.spec_timeout() is None,
            r.spec_host() == DEFAULT_HOST@,
    {
        match value {
            Some(v) => DeepSeekClientBuilder::new(v),
            None => DeepSeekClientBuilder::new(String::new()),
        }
    }

    /// Sets the timeout, in seconds.
    pub fn with_timeout(self, duration: u64) -> (r: Self)
        ensures
            r.spec_api_key() == self.spec_api_key(),
            r.spec_timeout() == Some(duration),
            r.spec_host() == self.spec_host(),
    {
        DeepSeekClientBuilder { timeout: Some(duration), ..self }
    }

    /// Sets the host.
    pub fn with_host(self, host: &str) -> (r: Self)
        ensures
            r.spec_api_key() == self.spec_api_key(),
            r.spec_timeout() == self.spec_timeout(),
            r.spec_host() == host@,
    {
        DeepSeekClientBuilder { host: host.to_owned(), ..self }
    }

    /// Sets the API key.
    pub fn with_api_key(self, api_key: &str) -> (r: Self)
        ensures
            r.spec_api_key() == api_key@,
            r.spec_timeout() == self.spec_timeout(),
            r.spec_host() == self.spec_host(),
    {
        DeepSeekClientBuilder { api_key: api_key.to_owned(), ..self }
    }

    pub fn api_key(&self) -> (r: &str)
        ensures
            r@ == self.spec_api_key(),
    {
        self.api_key.as_str()
    }

    pub fn timeout(&self) -> (r: Option<u64>)
        ensures
            r == self.spec_timeout(),
    {
        self.timeout
    }

    pub fn host(&self) -> (r: &str)
        ensures
            r@ == self.spec_host(),
    {
        self.host.as_str()
    }
}

} // verus!
