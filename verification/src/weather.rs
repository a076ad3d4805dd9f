//! Words for weather.

use vstd::prelude::*;

verus! {

/// The code is one of the weather codes that have a description.
pub open spec fn is_weather_code(code: usize) -> bool {
    description_of(code).is_some()
}

/// The description of a weather code of the World Meteorological
/// Organization, for the codes that a forecast uses.
pub open spec fn description_of(code: usize) -> Option<Seq<char>> {
    if code == 0 {
        Some("Clear sky"@)
    } else if code == 1 {
        Some("Mainly clear"@)
    } else if code == 2 {
        Some("Partly cloudy"@)
    } else if code == 3 {
        Some("Overcast"@)
    } else if code == 45 {
        Some("Fog"@)
    } else if code == 48 {
        Some("Depositing rime fog"@)
    } else if code == 51 {
        Some("Light drizzle"@)
    } else if code == 53 {
        Some("Moderate drizzle"@)
    } else if code == 55 {
        Some("Dense drizzle"@)
    } else if code == 56 {
        Some("Light freezing drizzle"@)
    } else if code == 57 {
        Some("Dense freezing drizzle"@)
    } else if code == 61 {
        Some("Slight rain"@)
    } else if code == 63 {
        Some("Moderate rain"@)
    } else if code == 65 {
        Some("Heavy rain"@)
    } else if code == 66 {
        Some("Light freezing rain"@)
    } else if code == 67 {
        Some("Heavy freezing rain"@)
    } else if code == 71 {
        Some("Slight snow fall"@)
    } else if code == 73 {
        Some("Moderate snow fall"@)
    } else if code == 75 {
        Some("Heavy snow fall"@)
    } else if code == 77 {
        Some("Snow grains"@)
    } else if code == 80 {
        Some("Slight rain showers"@)
    } else if code == 81 {
        Some("Moderate rain showers"@)
    } else if code == 82 {
        Some("Violent rain showers"@)
    } else if code == 85 {
        Some("Slight snow showers"@)
    } else if code == 86 {
        Some("Heavy snow showers"@)
    } else if code == 95 {
        Some("Slight or moderate thunderstorm"@)
    } else if code == 96 {
        Some("Thunderstorm with slight hail"@)
    } else if code == 99 {
        Some("Thunderstorm with heavy hail"@)
    } else {
        None
    }
}

/// The description of a weather code, if the code has one.
pub fn weather_description(code: usize) -> (text: Option<&'static str>)
    ensures
        text.is_some() == is_weather_code(code),
        text matches Some(t) ==> Some(t@) == description_of(code),
{
    match code {
        0 => Some("Clear sky"),
        1 => Some("Mainly clear"),
        2 => Some("Partly cloudy"),
        3 => Some("Overcast"),
        45 => Some("Fog"),
        48 => Some("Depositing rime fog"),
        51 => Some("Light drizzle"),
        53 => Some("Moderate drizzle"),
        55 => Some("Dense drizzle"),
        56 => Some("Light freezing drizzle"),
        57 => Some("Dense freezing drizzle"),
        61 => Some("Slight rain"),
        63 => Some("Moderate rain"),
        65 => Some("Heavy rain"),
        66 => Some("Light freezing rain"),
        67 => Some("Heavy freezing rain"),
        71 => Some("Slight snow fall"),
        73 => Some("Moderate snow fall"),
        75 => Some("Heavy snow fall"),
        77 => Some("Snow grains"),
        80 => Some("Slight rain showers"),
        81 => Some("Moderate rain showers"),
        82 => Some("Violent rain showers"),
        85 => Some("Slight snow showers"),
        86 => Some("Heavy snow showers"),
        95 => Some("Slight or moderate thunderstorm"),
        96 => Some("Thunderstorm with slight hail"),
        99 => Some("Thunderstorm with heavy hail"),
        _ => None,
    }
}

/// The description of a weather code that has one.
pub fn wmo_weather_code_to_str(code: usize) -> (text: &'static str)
    requires
        is_weather_code(code),
    ensures
        Some(text@) == description_of(code),
{
    match weather_description(code) {
        Some(text) => text,
        None => "",
    }
}

} // verus!
