use vstd::prelude::*;

verus! {

/// The settings of the service, read from the environment with the prefix `PRICE_LOOM`.
#[derive(Debug)]
pub struct AppConfig {
    pub port: u16,
    pub object_store: String,
    pub database_url: String,
}

/// The port the service listens on when none is configured.
pub fn default_port() -> (port: u16)
    ensures
        port == 3000,
{
    3000
}

} // verus!
