//! What the weather panel says about the place and the sky.

use vstd::prelude::*;

use crate::text::{trim, trim_seq};
use crate::weather_fx::{sky_for, Sky};

verus! {

/// The description shown for a WMO weather code.
pub open spec fn weather_label(code: i32) -> Seq<char> {
    if code == 0 {
        "Clear sky"@
    } else if code == 1 {
        "Mainly clear"@
    } else if code == 2 {
        "Partly cloudy"@
    } else if code == 3 {
        "Overcast"@
    } else if code == 45 || code == 48 {
        "Fog"@
    } else if code == 51 || code == 53 || code == 55 {
        "Drizzle"@
    } else if code == 56 || code == 57 {
        "Freezing drizzle"@
    } else if code == 61 || code == 63 || code == 65 {
        "Rain"@
    } else if code == 66 || code == 67 {
        "Freezing rain"@
    } else if code == 71 || code == 73 || code == 75 {
        "Snow"@
    } else if code == 77 {
        "Snow grains"@
    } else if code == 80 || code == 81 || code == 82 {
        "Rain showers"@
    } else if code == 85 || code == 86 {
        "Snow showers"@
    } else if code == 95 {
        "Thunderstorm"@
    } else if code == 96 || code == 99 {
        "Thunderstorm with hail"@
    } else {
        "Weather"@
    }
}

/// The words agree with the animation drawn for the same code (by day): a
/// code drawn as rain is described as drizzle, rain, showers of rain or a
/// thunderstorm, never as snow; a code drawn as snow is described as snow; a
/// cloud or fog code as cloud or fog; a clear code as clear; and a code with
/// no animation by day reads as plain "Weather".
pub proof fn lemma_words_match_sky(code: i32)
    ensures
        sky_for(Some(code), true) == Some(Sky::Rain) ==> {
            let w = weather_label(code);
            w == "Drizzle"@ || w == "Freezing drizzle"@ || w == "Rain"@ || w == "Freezing rain"@
                || w == "Rain showers"@ || w == "Thunderstorm"@ || w == "Thunderstorm with hail"@
        },
        sky_for(Some(code), true) == Some(Sky::Snow) ==> {
            let w = weather_label(code);
            w == "Snow"@ || w == "Snow grains"@ || w == "Snow showers"@
        },
        sky_for(Some(code), true) == Some(Sky::Clouds) ==> {
            let w = weather_label(code);
            w == "Partly cloudy"@ || w == "Overcast"@ || w == "Fog"@
        },
        sky_for(Some(code), true) == Some(Sky::Sun) ==> {
            let w = weather_label(code);
            w == "Clear sky"@ || w == "Mainly clear"@
        },
        sky_for(Some(code), true) is None ==> weather_label(code) == "Weather"@,
{
}

/// Describes a WMO weather code in words.
pub fn weather_text(code: i32) -> (r: String)
    ensures
        r@ == weather_label(code),
{
    let label = match code {
        0 => "Clear sky",
        1 => "Mainly clear",
        2 => "Partly cloudy",
        3 => "Overcast",
        45 | 48 => "Fog",
        51 | 53 | 55 => "Drizzle",
        56 | 57 => "Freezing drizzle",
        61 | 63 | 65 => "Rain",
        66 | 67 => "Freezing rain",
        71 | 73 | 75 => "Snow",
        77 => "Snow grains",
        80 | 81 | 82 => "Rain showers",
        85 | 86 => "Snow showers",
        95 => "Thunderstorm",
        96 | 99 => "Thunderstorm with hail",
        _ => "Weather",
    };
    label.to_owned()
}

/// The place name of a geolocation answer, or why it cannot be used: a
/// reported failure, then a missing latitude, then a missing longitude; a
/// city that is missing or blank becomes "Nearest city".
pub open spec fn place_outcome(
    success: Option<bool>,
    has_latitude: bool,
    has_longitude: bool,
    city: Option<Seq<char>>,
) -> Result<Seq<char>, Seq<char>> {
    if success == Some(false) {
        Err("geolocation failed"@)
    } else if !has_latitude {
        Err("missing latitude"@)
    } else if !has_longitude {
        Err("missing longitude"@)
    } else {
        match city {
            Some(c) => if trim_seq(c).len() > 0 { Ok(c) } else { Ok("Nearest city"@) },
            None => Ok("Nearest city"@),
        }
    }
}

/// Checks a geolocation answer and names the place for the weather panel.
pub fn weather_place(
    success: Option<bool>,
    has_latitude: bool,
    has_longitude: bool,
    city: Option<String>,
) -> (r: Result<String, String>)
    ensures
        (match r {
            Ok(s) => Ok(s@),
            Err(e) => Err(e@),
        }) == place_outcome(
            success,
            has_latitude,
            has_longitude,
            match city {
                Some(c) => Some(c@),
                None => None,
            },
        ),
{
    if success == Some(false) {
        return Err("geolocation failed".to_owned());
    }
    if !has_latitude {
        return Err("missing latitude".to_owned());
    }
    if !has_longitude {
        return Err("missing longitude".to_owned());
    }
    match city {
        Some(c) => {
            if !trim(c.as_str()).is_empty() {
                Ok(c)
            } else {
                Ok("Nearest city".to_owned())
            }
        },
        None => Ok("Nearest city".to_owned()),
    }
}


/// The weather animation and the weather description know the same codes:
/// by day a code has an animation exactly when it has its own description.
pub proof fn lemma_sky_matches_description(code: i32)
    ensures
        crate::weather_fx::sky_for(Some(code), true) is Some <==> weather_label(code) != "Weather"@,
{
    reveal_strlit("Weather");
    reveal_strlit("Clear sky");
    reveal_strlit("Mainly clear");
    reveal_strlit("Partly cloudy");
    reveal_strlit("Overcast");
    reveal_strlit("Fog");
    reveal_strlit("Drizzle");
    reveal_strlit("Freezing drizzle");
    reveal_strlit("Rain");
    reveal_strlit("Freezing rain");
    reveal_strlit("Snow");
    reveal_strlit("Snow grains");
    reveal_strlit("Rain showers");
    reveal_strlit("Snow showers");
    reveal_strlit("Thunderstorm");
    reveal_strlit("Thunderstorm with hail");
    let w = "Weather"@;
    assert("Clear sky"@.len() != w.len());
    assert("Mainly clear"@.len() != w.len());
    assert("Partly cloudy"@.len() != w.len());
    assert("Overcast"@.len() != w.len());
    assert("Fog"@.len() != w.len());
    assert("Drizzle"@[0] != w[0]);
    assert("Freezing drizzle"@.len() != w.len());
    assert("Rain"@.len() != w.len());
    assert("Freezing rain"@.len() != w.len());
    assert("Snow"@.len() != w.len());
    assert("Snow grains"@.len() != w.len());
    assert("Rain showers"@.len() != w.len());
    assert("Snow showers"@.len() != w.len());
    assert("Thunderstorm"@.len() != w.len());
    assert("Thunderstorm with hail"@.len() != w.len());
}

} // verus!
