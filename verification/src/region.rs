//! Region names, as the client library of the queue service understands them.
//!
//! Whether a name denotes a region is decided by `rusoto_core`, which holds
//! the table of regions. Nothing in this module is proved of that table: the
//! contract of `parse_region` is taken on trust.

use rusoto_core::region::ParseRegionError;
use rusoto_core::Region;
use vstd::prelude::*;

verus! {

/// `rusoto_core::Region`, carried through without a look inside.
#[verifier::external_type_specification]
#[verifier::external_body]
pub struct ExRegion(Region);

/// `rusoto_core::region::ParseRegionError`, carried through without a look
/// inside.
#[verifier::external_type_specification]
#[verifier::external_body]
pub struct ExParseRegionError(ParseRegionError);

/// Whether `<Region as FromStr>::from_str` accepts `name`, that is whether
/// `name` is in the table of region names that `rusoto_core` holds.
pub uninterp spec fn is_region_name(name: Seq<char>) -> bool;

/// Calls `<Region as FromStr>::from_str`. That function lower-cases `name`
/// and looks it up in a fixed table; it reads nothing else, so whether it
/// returns `Ok` depends on `name` alone. Taken on trust: that dependence, and
/// nothing about which names the table holds or which region comes back.
#[verifier::external_body]
fn parse_region(name: &str) -> (parsed: Result<Region, ParseRegionError>)
    ensures
        parsed is Ok <==> is_region_name(name@),
{
    name.parse::<Region>()
}

/// The region that `name` denotes, if it denotes one.
pub fn known_region(name: &str) -> (region: Option<Region>)
    ensures
        region is Some <==> is_region_name(name@),
{
    match parse_region(name) {
        Ok(region) => Some(region),
        Err(_) => None,
    }
}

} // verus!
