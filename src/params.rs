//! Server parameters: settling the listening address, port and worker count
//! from the command-line options and the machine's CPU count.
use vstd::prelude::*;
use crate::text::{decimal, decimal_string};

verus! {

/// The command-line options, each optional.
pub struct Args {
    /// Address of the server (default: 127.0.0.1).
    pub address: Option<String>,
    /// Port to run the server on (default: 4221).
    pub port: Option<u32>,
    /// Maximum number of worker threads (default: 10).
    pub max_thread_num: Option<usize>,
}

/// The settled parameters of the server.
pub struct ServerParams {
    address: String,
    port: u32,
    /// The number of worker threads.
    pub nb_threads: usize,
}

/// The mathematical model of the server parameters.
pub struct ServerParamsView {
    pub address: Seq<char>,
    pub port: u32,
    pub nb_threads: usize,
}

impl View for ServerParams {
    type V = ServerParamsView;

    closed spec fn view(&self) -> ServerParamsView {
        ServerParamsView { address: self.address@, port: self.port, nb_threads: self.nb_threads }
    }
}

/// The address in effect: the one given, or the loopback address.
pub open spec fn address_in_effect(a: Args) -> Seq<char> {
    match a.address {
        Some(s) => s@,
        None => "127.0.0.1"@,
    }
}

/// The port in effect: the one given, or 4221.
pub open spec fn port_in_effect(a: Args) -> u32 {
    match a.port {
        Some(p) => p,
        None => 4221,
    }
}

/// The worker count in effect: the one given (10 by default), capped at the
/// number of CPUs.
pub open spec fn threads_in_effect(a: Args, cpus: usize) -> usize {
    let wanted = match a.max_thread_num {
        Some(n) => n,
        None => 10,
    };
    if wanted > cpus {
        cpus
    } else {
        wanted
    }
}

impl Args {
    /// The address in effect: the one given, or "127.0.0.1".
    pub fn address_or_default(&self) -> (r: String)
        ensures
            r@ == address_in_effect(*self),
    {
        match &self.address {
            Some(a) => a.clone(),
            None => "127.0.0.1".to_owned(),
        }
    }

    /// Settles the parameters, given the number of CPUs and whether the
    /// address in effect reads as an IP address or a socket address. The
    /// checks come in this order: no CPU, an invalid address, a port above
    /// 65535.
    pub fn into_params(self, cpus: usize, address_valid: bool) -> (r: Result<ServerParams, String>)
        ensures
            match r {
                Ok(p) => cpus > 0 && address_valid && port_in_effect(self) <= 65535 && p@
                    == (ServerParamsView {
                    address: address_in_effect(self),
                    port: port_in_effect(self),
                    nb_threads: threads_in_effect(self, cpus),
                }),
                Err(e) => if cpus == 0 {
                    e@ == "No CPU detected"@
                } else if !address_valid {
                    e@ == "Invalid address"@
                } else {
                    port_in_effect(self) > 65535 && e@ == "Port number must be between 0 and 65535"@
                },
            },
    {
        if cpus == 0 {
            return Err("No CPU detected".to_owned());
        }
        let wanted = match self.max_thread_num {
            Some(n) => n,
            None => 10,
        };
        let nb_threads = if wanted > cpus {
            cpus
        } else {
            wanted
        };
        let address = self.address_or_default();
        if !address_valid {
            return Err("Invalid address".to_owned());
        }
        let port = match self.port {
            Some(p) => p,
            None => 4221,
        };
        if port > 65535 {
            return Err("Port number must be between 0 and 65535".to_owned());
        }
        Ok(ServerParams { address, port, nb_threads })
    }
}

impl ServerParams {
    /// The listening address as "<address>:<port>".
    pub fn get_address(&self) -> (r: String)
        ensures
            r@ == self@.address + ":"@ + decimal(self@.port as nat),
    {
        let mut r = self.address.clone();
        r.append(":");
        let p = decimal_string(self.port as u64);
        r.append(p.as_str());
        r
    }
}

} // verus!
