//! The configuration of a transfer, and the rules that make one valid.
//!
//! A configuration names the source queue, the destination queue (none when
//! the transfer only deletes), the number of workers and the region. It is
//! built from the raw settings as they were given; the rules are checked in a
//! fixed order and the first one broken is reported.

use crate::numeral::{count_of, decimal, parse_count, render};
use vstd::prelude::*;
use vstd::string::*;

verus! {

/// Why raw settings make no configuration.
#[derive(Clone, Copy, Debug, PartialEq, Eq, Hash, Structural)]
pub enum ConfigError {
    /// Neither a destination nor the delete flag was given, or both were.
    Mode,
    /// The worker count is not a positive number that a `usize` can hold.
    Threads,
    /// No region was given and no default region is set.
    Region,
}

/// What a `Config` holds.
pub struct ConfigView {
    pub source: Seq<char>,
    /// Empty when the transfer only deletes.
    pub destination: Seq<char>,
    pub threads: nat,
    pub region: Seq<char>,
}

/// The destination that was asked for; an absent one counts as empty.
pub open spec fn destination_of(destination: Option<Seq<char>>) -> Seq<char> {
    match destination {
        Some(queue) => queue,
        None => Seq::empty(),
    }
}

/// The region to use: the one given, else the default, else none.
pub open spec fn region_of(region: Option<Seq<char>>, default_region: Option<Seq<char>>) -> Seq<
    char,
> {
    match region {
        Some(name) => name,
        None => match default_region {
            Some(name) => name,
            None => Seq::empty(),
        },
    }
}

/// The configuration that raw settings make, or the first rule they break.
///
/// Exactly one of a destination and the delete flag must be given. The worker
/// count must be a numeral of a positive number. A region must be given or
/// set by default.
pub open spec fn resolve(
    source: Seq<char>,
    destination: Option<Seq<char>>,
    delete: bool,
    threads: Seq<char>,
    region: Option<Seq<char>>,
    default_region: Option<Seq<char>>,
) -> Result<ConfigView, ConfigError> {
    let destination = destination_of(destination);
    let region = region_of(region, default_region);
    if (destination.len() > 0) == delete {
        Err(ConfigError::Mode)
    } else if count_of(threads) is None || count_of(threads) == Some(0usize) {
        Err(ConfigError::Threads)
    } else if region.len() == 0 {
        Err(ConfigError::Region)
    } else {
        Ok(ConfigView { source, destination, threads: count_of(threads)->0 as nat, region })
    }
}

/// The one-line description of a configuration.
pub open spec fn description_of(config: ConfigView) -> Seq<char> {
    "(source:"@ + config.source + ", destination:"@ + config.destination + ", threads:"@ + decimal(
        config.threads,
    ) + ", region:"@ + config.region + ")"@
}

/// The closing report of a transfer that moved `transferred` messages.
pub open spec fn report_of(config: ConfigView, transferred: nat) -> Seq<char> {
    "Transferred messages count: "@ + decimal(transferred) + " (from: "@ + config.source
        + ", to: "@ + config.destination + ") "@
}

/// The configuration of a transfer.
pub struct Config {
    source: String,
    destination: String,
    threads: usize,
    region: String,
}

impl View for Config {
    type V = ConfigView;

    closed spec fn view(&self) -> ConfigView {
        ConfigView {
            source: self.source@,
            destination: self.destination@,
            threads: self.threads as nat,
            region: self.region@,
        }
    }
}

impl Config {
    /// There is at least one worker, and the region is named.
    #[verifier::type_invariant]
    spec fn valid(self) -> bool {
        self.threads >= 1 && self.region@.len() > 0
    }

    /// Builds a configuration from raw settings.
    ///
    /// `destination` and `region` are absent when they were not given;
    /// `delete` tells whether the delete flag was given; `threads` is the
    /// worker count as text; `default_region` is the region set by default,
    /// if one is.
    pub fn new(
        source: String,
        destination: Option<String>,
        delete: bool,
        threads: &str,
        region: Option<String>,
        default_region: Option<String>,
    ) -> (made: Result<Config, ConfigError>)
        ensures
            match made {
                Ok(config) => Ok(config@),
                Err(error) => Err(error),
            } == resolve(
                source@,
                destination.deep_view(),
                delete,
                threads@,
                region.deep_view(),
                default_region.deep_view(),
            ),
    {
        let destination = match destination {
            Some(queue) => queue,
            None => String::new(),
        };
        if !destination.as_str().is_empty() == delete {
            return Err(ConfigError::Mode);
        }
        let threads = match parse_count(threads) {
            Some(count) => count,
            None => {
                return Err(ConfigError::Threads);
            },
        };
        if threads == 0 {
            return Err(ConfigError::Threads);
        }
        let region = match region {
            Some(name) => name,
            None => match default_region {
                Some(name) => name,
                None => String::new(),
            },
        };
        if region.as_str().is_empty() {
            return Err(ConfigError::Region);
        }
        Ok(Config { source, destination, threads, region })
    }

    /// The queue that messages are taken from.
    pub fn source(&self) -> (queue: &str)
        ensures
            queue@ == self@.source,
    {
        self.source.as_str()
    }

    /// The queue that messages are forwarded to; empty when the transfer only
    /// deletes.
    pub fn destination(&self) -> (queue: &str)
        ensures
            queue@ == self@.destination,
    {
        self.destination.as_str()
    }

    /// Whether the transfer deletes what it fetches instead of forwarding it.
    pub fn deletes_only(&self) -> (only: bool)
        ensures
            only == (self@.destination.len() == 0),
    {
        self.destination.as_str().is_empty()
    }

    /// The number of workers, which is at least one.
    pub fn threads(&self) -> (count: usize)
        ensures
            count == self@.threads,
            count >= 1,
    {
        proof {
            use_type_invariant(self);
        }
        self.threads
    }

    /// The name of the region, which is not empty.
    pub fn region(&self) -> (name: &str)
        ensures
            name@ == self@.region,
            name@.len() > 0,
    {
        proof {
            use_type_invariant(self);
        }
        self.region.as_str()
    }

    /// Describes the configuration in one line.
    pub fn describe(&self) -> (line: String)
        ensures
            line@ == description_of(self@),
    {
        let count = render(self.threads);
        let mut line = "(source:".to_owned();
        line.append(self.source.as_str());
        line.append(", destination:");
        line.append(self.destination.as_str());
        line.append(", threads:");
        line.append(count.as_str());
        line.append(", region:");
        line.append(self.region.as_str());
        line.append(")");
        line
    }

    /// Words the closing report of a transfer that moved `transferred`
    /// messages.
    pub fn report(&self, transferred: usize) -> (line: String)
        ensures
            line@ == report_of(self@, transferred as nat),
    {
        let count = render(transferred);
        let mut line = "Transferred messages count: ".to_owned();
        line.append(count.as_str());
        line.append(" (from: ");
        line.append(self.source.as_str());
        line.append(", to: ");
        line.append(self.destination.as_str());
        line.append(") ");
        line
    }
}

} // verus!
