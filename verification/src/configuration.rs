//! Startup configuration: the deployment environment, the store's
//! connection string, and the shared auth secret.  Reading the process
//! environment happens outside the library; assembling and validating the
//! values happens here and fails fast.

use vstd::prelude::*;
use vstd::string::*;

use crate::error::Error;
use crate::{spec_env_of, Environment};

verus! {

pub struct Config {
    pub env: Environment,
    pub redis_url: String,
    pub auth_token: String,
}

impl Config {
    /// Assemble a configuration from raw values: the environment name must
    /// parse, and the store URL is built from the password and host.
    pub fn from_parts(env: &str, redis_host: &str, redis_pass: &str, auth_token: &str) -> (r: Result<
        Config,
        Error,
    >)
        ensures
            match r {
                Ok(c) => {
                    &&& spec_env_of(env@) == Some(c.env)
                    &&& c.redis_url@ == "redis://:"@ + redis_pass@ + "@"@ + redis_host@
                    &&& c.auth_token@ == auth_token@
                },
                Err(_) => spec_env_of(env@) is None,
            },
    {
        let parsed = Environment::from_str(env)?;
        let redis_url = String::from_str("redis://:").concat(redis_pass).concat("@").concat(
            redis_host,
        );
        Ok(Config { env: parsed, redis_url, auth_token: auth_token.to_owned() })
    }
}

} // verus!
