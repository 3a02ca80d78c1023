use vstd::prelude::*;
use vstd::string::*;

verus! {

/// What the server is started with. The credential and the location of the
/// store are read once and never changed.
#[derive(Clone, Debug)]
pub struct Config {
    /// The socket address to listen on, as text.
    pub webserver_address: Option<String>,
    pub webserver_port: Option<u32>,
    /// The credential of the inference service.
    pub openai_key: String,
    /// The connection string of the store.
    pub supabase_url: String,
    pub subabase_key: String,
}

impl Config {
    /// The socket address that the server listens on where none is
    /// configured.
    pub open spec fn default_address() -> Seq<char> {
        "0.0.0.0:7504"@
    }

    /// The socket address that the server listens on: the configured one, or
    /// the default.
    pub fn listen_address(&self) -> (r: String)
        ensures
            r@ == match self.webserver_address {
                Some(address) => address@,
                None => Self::default_address(),
            },
    {
        match &self.webserver_address {
            Some(address) => address.clone(),
            None => String::from_str("0.0.0.0:7504"),
        }
    }
}

} // verus!
