//! Where the service listens and where it keeps its records.

use vstd::prelude::*;
use vstd::string::StringExecFns;
use crate::text::{signed_decimal, signed_text};

verus! {

/// The settings of the service.
#[derive(Debug)]
pub struct Config {
    pub host: String,
    pub port: i32,
    pub database_url: String,
    pub database_name: String,
}

/// The settings in one line: host, port, address of the store and name of the database,
/// with a comma and a blank between them.
pub open spec fn config_line(
    host: Seq<char>,
    port: int,
    database_url: Seq<char>,
    database_name: Seq<char>,
) -> Seq<char> {
    host + ", "@ + signed_decimal(port) + ", "@ + database_url + ", "@ + database_name
}

/// The address to listen on: the host, a colon and the port.
pub open spec fn listen_address(host: Seq<char>, port: int) -> Seq<char> {
    host + ":"@ + signed_decimal(port)
}

impl Config {
    /// The settings in one line.
    pub fn line(&self) -> (text: String)
        ensures
            text@ == config_line(
                self.host@,
                self.port as int,
                self.database_url@,
                self.database_name@,
            ),
    {
        let mut text = self.host.clone();
        text.append(", ");
        text.append(signed_text(self.port as i64).as_str());
        text.append(", ");
        text.append(self.database_url.as_str());
        text.append(", ");
        text.append(self.database_name.as_str());
        text
    }

    /// The address to listen on.
    pub fn address(&self) -> (text: String)
        ensures
            text@ == listen_address(self.host@, self.port as int),
    {
        let mut text = self.host.clone();
        text.append(":");
        text.append(signed_text(self.port as i64).as_str());
        text
    }
}

} // verus!
