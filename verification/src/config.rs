//! Paths the daemon runs with, derived from the user's base directories.
//! Reading the environment happens at the edge of the system; the
//! derivation of every path from the base directories is decided here.

use vstd::prelude::*;
use vstd::string::StringExecFns;

verus! {

/// Where the auxiliary database runs: its template configuration, its
/// sockets, its log and working directory.
#[derive(Debug)]
pub struct UtopiaDatabaseConfig {
    pub tconfig: String,
    pub socket: String,
    pub inherits: String,
    pub logfile: String,
    pub working_dir: String,
    pub ready_sock: String,
}

#[derive(Debug)]
pub struct UtopiaConfiguration {
    pub runtime_dir: String,
    pub socket: String,
    pub database: UtopiaDatabaseConfig,
}

impl UtopiaConfiguration {
    /// Derive every path from the base directories: the runtime directory
    /// (required), the home directory, and the optional data-home
    /// override, which defaults to `.local/share` under home. All data
    /// lives under the `utopia` directory of the data home.
    pub fn new(runtime_dir: String, home_dir: String, xdg_data: Option<String>) -> (r: Self)
        ensures
            r.runtime_dir == runtime_dir,
            r.socket@ == runtime_dir@ + "/utopia.sock"@,
            r.database.socket@ == runtime_dir@ + "/utopiadb.sock"@,
            r.database.ready_sock@ == runtime_dir@ + "/_utopiadbctl.dsock"@,
            ({
                let data = match xdg_data {
                    Some(x) => x@,
                    None => home_dir@ + "/.local/share"@,
                } + "/utopia"@;
                r.database.working_dir@ == data && r.database.logfile@ == data + "/db.log"@
            }),
            r.database.tconfig@ == "/etc/utopia/db.conf.in"@,
            r.database.inherits@ == "/etc/utopia/default.conf"@,
    {
        let xdg = match xdg_data {
            Some(x) => x,
            None => home_dir.concat("/.local/share"),
        };
        let data_dir = xdg.concat("/utopia");
        UtopiaConfiguration {
            socket: runtime_dir.clone().concat("/utopia.sock"),
            database: UtopiaDatabaseConfig {
                tconfig: String::from_str("/etc/utopia/db.conf.in"),
                socket: runtime_dir.clone().concat("/utopiadb.sock"),
                inherits: String::from_str("/etc/utopia/default.conf"),
                logfile: data_dir.clone().concat("/db.log"),
                working_dir: data_dir,
                ready_sock: runtime_dir.clone().concat("/_utopiadbctl.dsock"),
            },
            runtime_dir,
        }
    }
}

/// The auxiliary database announces readiness with exactly this datagram
/// payload, after trimming: a `READY=1` line. Any other payload is
/// ignored.
pub open spec fn ready_payload(s: Seq<char>) -> bool {
    s == "READY=1"@
}

/// Whether a (trimmed) datagram payload is the readiness sentinel.
pub fn is_ready_payload(s: &str) -> (r: bool)
    ensures
        r == ready_payload(s@),
{
    let payload = String::from_str(s);
    let sentinel = String::from_str("READY=1");
    payload == sentinel
}

} // verus!
