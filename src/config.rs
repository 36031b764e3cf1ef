//! The monitor's settings, and the defaults that fill in what a
//! configuration file leaves out.
use vstd::prelude::*;
use vstd::string::*;

verus! {

/// Length of a generated database file name.
pub const DB_NAME_LEN: usize = 17;

/// ASCII letters and digits.
pub open spec fn is_alphanumeric(c: char) -> bool {
    ('a' <= c && c <= 'z') || ('A' <= c && c <= 'Z') || ('0' <= c && c <= '9')
}

/// Relies on `rand::thread_rng` sampling `rand::distributions::Alphanumeric`,
/// which yields ASCII letters and digits only: `len` of them, drawn at
/// random, as a string.
#[verifier::external_body]
fn random_alphanumeric(len: usize) -> (r: String)
    ensures
        r@.len() == len,
        forall|i: int| 0 <= i < r@.len() ==> is_alphanumeric(#[trigger] r@[i]),
{
    rand::Rng::sample_iter(rand::thread_rng(), &rand::distributions::Alphanumeric)
        .take(len)
        .map(char::from)
        .collect()
}

pub struct Config {
    /// Address and port of the web interface, e.g. "0.0.0.0:4017".
    pub bind_address: Option<String>,
    /// Addresses to monitor, e.g. ["8.8.8.8", "1.1.1.1"].
    pub addresses_to_monitor: Option<Vec<String>>,
    /// Timeouts in a row before an outage is recorded.
    pub max_timeouts: Option<u32>,
    /// Milliseconds a round waits for replies.
    pub max_ping_timeout: Option<u64>,
    /// Database file.
    pub db: Option<String>,
    /// Where closed windows are also written as text, if set.
    pub clear_text_log: Option<String>,
}

/// `Some(v)` stays; `None` becomes `Some(d)` (compared by view).
pub open spec fn filled_str(before: Option<String>, after: Option<String>, d: Seq<char>) -> bool {
    match before {
        Some(v) => after == Some(v),
        None => after matches Some(a) && a@ == d,
    }
}

pub open spec fn default_addresses(v: Vec<String>) -> bool {
    &&& v@.len() == 2
    &&& v@[0]@ == "8.8.8.8"@
    &&& v@[1]@ == "1.1.1.1"@
}

impl Config {
    /// Fills in every setting left out, with `db_name` as the database file
    /// name. Returns whether a setting that the file should hold from now on
    /// (bind address, addresses, database) was filled in, so that the file
    /// is to be saved.
    pub fn apply_defaults(&mut self, db_name: String) -> (save: bool)
        ensures
            filled_str(old(self).bind_address, final(self).bind_address, "0.0.0.0:4017"@),
            old(self).addresses_to_monitor is Some ==> final(self).addresses_to_monitor
                == old(self).addresses_to_monitor,
            old(self).addresses_to_monitor is None ==> (final(self).addresses_to_monitor matches Some(
                v,
            ) && default_addresses(v)),
            final(self).max_timeouts == Some(
                match old(self).max_timeouts {
                    Some(t) => t,
                    None => 3u32,
                },
            ),
            final(self).max_ping_timeout == Some(
                match old(self).max_ping_timeout {
                    Some(t) => t,
                    None => 1000u64,
                },
            ),
            filled_str(old(self).db, final(self).db, db_name@),
            final(self).clear_text_log == old(self).clear_text_log,
            save == (old(self).bind_address is None || old(self).addresses_to_monitor is None
                || old(self).db is None),
    {
        let mut save = false;
        if self.bind_address.is_none() {
            self.bind_address = Some(String::from_str("0.0.0.0:4017"));
            save = true;
        }
        if self.addresses_to_monitor.is_none() {
            let mut v: Vec<String> = Vec::new();
            v.push(String::from_str("8.8.8.8"));
            v.push(String::from_str("1.1.1.1"));
            self.addresses_to_monitor = Some(v);
            save = true;
        }
        if self.max_timeouts.is_none() {
            self.max_timeouts = Some(3);
        }
        if self.max_ping_timeout.is_none() {
            self.max_ping_timeout = Some(1000);
        }
        if self.db.is_none() {
            self.db = Some(db_name);
            save = true;
        }
        save
    }

    /// Fills in every setting left out; a missing database name becomes a
    /// random string of 17 letters and digits. Returns whether the file is
    /// to be saved.
    pub fn complete(&mut self) -> (save: bool)
        ensures
            filled_str(old(self).bind_address, final(self).bind_address, "0.0.0.0:4017"@),
            old(self).addresses_to_monitor is Some ==> final(self).addresses_to_monitor
                == old(self).addresses_to_monitor,
            old(self).addresses_to_monitor is None ==> (final(self).addresses_to_monitor matches Some(
                v,
            ) && default_addresses(v)),
            final(self).max_timeouts == Some(
                match old(self).max_timeouts {
                    Some(t) => t,
                    None => 3u32,
                },
            ),
            final(self).max_ping_timeout == Some(
                match old(self).max_ping_timeout {
                    Some(t) => t,
                    None => 1000u64,
                },
            ),
            old(self).db is Some ==> final(self).db == old(self).db,
            old(self).db is None ==> (final(self).db matches Some(n) && n@.len() == DB_NAME_LEN
                && forall|i: int| 0 <= i < n@.len() ==> is_alphanumeric(#[trigger] n@[i])),
            final(self).clear_text_log == old(self).clear_text_log,
            save == (old(self).bind_address is None || old(self).addresses_to_monitor is None
                || old(self).db is None),
    {
        let name = if self.db.is_none() {
            random_alphanumeric(DB_NAME_LEN)
        } else {
            String::new()
        };
        self.apply_defaults(name)
    }
}

} // verus!
