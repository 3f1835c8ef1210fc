use vstd::prelude::*;

verus! {

/// The configuration surface a server consumes: its name, the address to
/// bind, an optional TLS certificate chain and private key, a debug flag,
/// whether sessions end after the handshake, and the allow-listed CORS
/// origins.
#[derive(Clone)]
pub struct WsServerConfig {
    pub name: String,
    pub address: String,
    pub pub_certs: Option<Vec<String>>,
    pub priv_key: Option<String>,
    pub debug: bool,
    pub header_only: bool,
    pub allow_cors_urls: Option<Vec<String>>,
}

/// The transport a server listens on: a plain socket, or a TLS-wrapping
/// listener made from a certificate chain and a private key.
pub enum TransportChoice {
    Plain,
    Tls { certs: Vec<String>, key: String },
}

/// Picks the listener variant from the configuration, before any socket is
/// bound. A certificate chain and a private key must be supplied together or
/// not at all: any other combination is a startup configuration error, and
/// the server refuses to start.
pub fn select_transport(config: &WsServerConfig) -> (r: Result<TransportChoice, ()>)
    ensures
        match r {
            Ok(choice) => match choice {
                TransportChoice::Plain => config.pub_certs is None && config.priv_key is None,
                TransportChoice::Tls { certs, key } => config.pub_certs matches Some(c) && c@
                    == certs@ && config.priv_key == Some(key),
            },
            Err(()) => (config.pub_certs is Some) != (config.priv_key is Some),
        },
{
    match (&config.pub_certs, &config.priv_key) {
        (None, None) => Ok(TransportChoice::Plain),
        (Some(certs), Some(key)) => {
            let c = certs.clone();
            proof {
                assert(c@ =~= certs@);
            }
            Ok(TransportChoice::Tls { certs: c, key: key.clone() })
        },
        _ => Err(()),
    }
}

/// Whether an upgrade request's origin passes the allow-list: with no list
/// configured every origin passes; with one, exactly the listed origins do.
pub fn origin_allowed(allow_cors_urls: &Option<Vec<String>>, origin: &String) -> (r: bool)
    ensures
        r == match allow_cors_urls {
            None => true,
            Some(list) => exists|i: int| 0 <= i < list@.len() && list@[i]@ == origin@,
        },
{
    match allow_cors_urls {
        None => true,
        Some(list) => {
            let mut i: usize = 0;
            let mut found = false;
            while i < list.len()
                invariant
                    i <= list.len(),
                    found == exists|j: int| 0 <= j < i && (#[trigger] list@[j])@ == origin@,
                decreases list.len() - i,
            {
                if list[i].eq(origin) {
                    proof {
                        assert(list@[i as int]@ == origin@);
                    }
                    found = true;
                }
                i += 1;
            }
            found
        },
    }
}

} // verus!
