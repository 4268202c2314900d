//! AirPlay display-name identity map over Chromecast advertised names.

use vstd::prelude::*;
use crate::config;
use crate::config::Config;

verus! {

/// Compute the AirPlay advertisement name for a Cast device.
///
/// Default: identity map (`cast_name`). Configuration may rename via
/// [`Config::device_override`].
pub fn airplay_name(cast_name: &str, config: &Config) -> (r: String)
    ensures
        r@ == config::override_of(config.devices@, cast_name@, ""@).0,
{
    airplay_name_with_id(cast_name, "", config)
}

/// Like [`airplay_name`], also matching against Cast device id / UUID.
pub fn airplay_name_with_id(cast_name: &str, cast_id: &str, config: &Config) -> (r: String)
    ensures
        r@ == config::override_of(config.devices@, cast_name@, cast_id@).0,
{
    config.device_override(cast_name, cast_id).display_name
}

/// Whether the device should be hidden from AirPlay advertisement.
pub fn is_hidden(cast_name: &str, cast_id: &str, config: &Config) -> (r: bool)
    ensures
        r == config::override_of(config.devices@, cast_name@, cast_id@).1,
{
    config.device_override(cast_name, cast_id).hidden
}

} // verus!
