//! Domain records: weather snapshots, render-request parameters and the
//! process environment tag, with verified parsers for their textual forms.

use vstd::prelude::*;

verus! {

/// The fixed 15-value weather condition enumeration.
#[derive(Clone, Copy, PartialEq, Eq, Structural, Debug)]
pub enum WeatherInfoState {
    ClearNight,
    Cloudy,
    Exceptional,
    Fog,
    Hail,
    Lightning,
    LightningRainy,
    Partlycloudy,
    Pouring,
    Rainy,
    Snowy,
    SnowyRainy,
    Sunny,
    Windy,
    WindyVariant,
}

/// Numeric weather attributes, held in tenths of their unit so that values
/// with one decimal place are exact.
#[derive(Clone, PartialEq, Eq, Debug)]
pub struct WeatherInfoAttribute {
    pub temperature_tenths: i64,
    pub dew_point_tenths: i64,
    pub temperature_unit: String,
    pub humidity_tenths: i64,
    pub cloud_coverage_tenths: i64,
    pub uv_index_tenths: i64,
    pub pressure_tenths: i64,
    pub wind_bearing_tenths: i64,
    pub wind_speed_tenths: i64,
}

#[derive(Clone, PartialEq, Eq, Debug)]
pub struct WeatherInfo {
    pub state: WeatherInfoState,
    pub attributes: WeatherInfoAttribute,
}

/// The requested output plane of a rendered page.
#[derive(Clone, Copy, PartialEq, Eq, Structural, Debug)]
pub enum QueryRouteEPaperOutputEnum {
    Full,
    Black,
    BlackInvert,
    Red,
}

/// The requested container format of a rendered page.
#[derive(Clone, Copy, PartialEq, Eq, Structural, Debug)]
pub enum QueryRouteEPaperFormatEnum {
    Png,
    Bmp,
}

/// Query parameters of a render request.
#[derive(Clone, Copy, PartialEq, Eq, Structural, Debug)]
pub struct QueryRouteEPaperModel {
    pub output: QueryRouteEPaperOutputEnum,
    pub format: QueryRouteEPaperFormatEnum,
}

impl Default for QueryRouteEPaperOutputEnum {
    fn default() -> (r: Self)
        ensures
            r == QueryRouteEPaperOutputEnum::Full,
    {
        QueryRouteEPaperOutputEnum::Full
    }
}

impl Default for QueryRouteEPaperFormatEnum {
    fn default() -> (r: Self)
        ensures
            r == QueryRouteEPaperFormatEnum::Png,
    {
        QueryRouteEPaperFormatEnum::Png
    }
}

impl Default for QueryRouteEPaperModel {
    fn default() -> (r: Self)
        ensures
            r == (QueryRouteEPaperModel {
                output: QueryRouteEPaperOutputEnum::Full,
                format: QueryRouteEPaperFormatEnum::Png,
            }),
    {
        QueryRouteEPaperModel {
            output: QueryRouteEPaperOutputEnum::Full,
            format: QueryRouteEPaperFormatEnum::Png,
        }
    }
}

/// The environment the process runs in.
#[derive(Clone, Copy, PartialEq, Eq, Structural, Debug)]
pub enum Environment {
    Development,
    Production,
}

/// Marker for the request-id generator of the surrounding HTTP layer.
#[derive(Clone, Copy, PartialEq, Eq, Structural, Debug)]
pub struct Id;

/// Query parameters of the token-based authentication check.
#[derive(Clone, PartialEq, Eq, Debug)]
pub struct QueryAuthModel {
    pub token: String,
}

/// Faults of the rendering pipeline: an unusable font, or a failed encode.
#[derive(Clone, Copy, PartialEq, Eq, Structural, Debug)]
pub enum RenderError {
    InvalidFont,
    EncodeFailed,
}

/// The kebab-case condition code of each weather state.
pub open spec fn spec_weather_state_of(s: Seq<char>) -> Option<WeatherInfoState> {
    if s == "clear-night"@ {
        Some(WeatherInfoState::ClearNight)
    } else if s == "cloudy"@ {
        Some(WeatherInfoState::Cloudy)
    } else if s == "exceptional"@ {
        Some(WeatherInfoState::Exceptional)
    } else if s == "fog"@ {
        Some(WeatherInfoState::Fog)
    } else if s == "hail"@ {
        Some(WeatherInfoState::Hail)
    } else if s == "lightning"@ {
        Some(WeatherInfoState::Lightning)
    } else if s == "lightning-rainy"@ {
        Some(WeatherInfoState::LightningRainy)
    } else if s == "partlycloudy"@ {
        Some(WeatherInfoState::Partlycloudy)
    } else if s == "pouring"@ {
        Some(WeatherInfoState::Pouring)
    } else if s == "rainy"@ {
        Some(WeatherInfoState::Rainy)
    } else if s == "snowy"@ {
        Some(WeatherInfoState::Snowy)
    } else if s == "snowy-rainy"@ {
        Some(WeatherInfoState::SnowyRainy)
    } else if s == "sunny"@ {
        Some(WeatherInfoState::Sunny)
    } else if s == "windy"@ {
        Some(WeatherInfoState::Windy)
    } else if s == "windy-variant"@ {
        Some(WeatherInfoState::WindyVariant)
    } else {
        None
    }
}

fn str_eq(a: &str, b: &str) -> (r: bool)
    ensures
        r == (a@ == b@),
{
    let sa = a.to_owned();
    let sb = b.to_owned();
    sa == sb
}

/// Decodes a kebab-case condition code; unknown codes yield `None`.
pub fn parse_weather_state(s: &str) -> (r: Option<WeatherInfoState>)
    ensures
        r == spec_weather_state_of(s@),
{
    if str_eq(s, "clear-night") {
        Some(WeatherInfoState::ClearNight)
    } else if str_eq(s, "cloudy") {
        Some(WeatherInfoState::Cloudy)
    } else if str_eq(s, "exceptional") {
        Some(WeatherInfoState::Exceptional)
    } else if str_eq(s, "fog") {
        Some(WeatherInfoState::Fog)
    } else if str_eq(s, "hail") {
        Some(WeatherInfoState::Hail)
    } else if str_eq(s, "lightning") {
        Some(WeatherInfoState::Lightning)
    } else if str_eq(s, "lightning-rainy") {
        Some(WeatherInfoState::LightningRainy)
    } else if str_eq(s, "partlycloudy") {
        Some(WeatherInfoState::Partlycloudy)
    } else if str_eq(s, "pouring") {
        Some(WeatherInfoState::Pouring)
    } else if str_eq(s, "rainy") {
        Some(WeatherInfoState::Rainy)
    } else if str_eq(s, "snowy") {
        Some(WeatherInfoState::Snowy)
    } else if str_eq(s, "snowy-rainy") {
        Some(WeatherInfoState::SnowyRainy)
    } else if str_eq(s, "sunny") {
        Some(WeatherInfoState::Sunny)
    } else if str_eq(s, "windy") {
        Some(WeatherInfoState::Windy)
    } else if str_eq(s, "windy-variant") {
        Some(WeatherInfoState::WindyVariant)
    } else {
        None
    }
}

/// The kebab-case name of each output plane.
pub open spec fn spec_output_of(s: Seq<char>) -> Option<QueryRouteEPaperOutputEnum> {
    if s == "full"@ {
        Some(QueryRouteEPaperOutputEnum::Full)
    } else if s == "black"@ {
        Some(QueryRouteEPaperOutputEnum::Black)
    } else if s == "black-invert"@ {
        Some(QueryRouteEPaperOutputEnum::BlackInvert)
    } else if s == "red"@ {
        Some(QueryRouteEPaperOutputEnum::Red)
    } else {
        None
    }
}

/// Decodes the kebab-case name of an output plane.
pub fn parse_output(s: &str) -> (r: Option<QueryRouteEPaperOutputEnum>)
    ensures
        r == spec_output_of(s@),
{
    if str_eq(s, "full") {
        Some(QueryRouteEPaperOutputEnum::Full)
    } else if str_eq(s, "black") {
        Some(QueryRouteEPaperOutputEnum::Black)
    } else if str_eq(s, "black-invert") {
        Some(QueryRouteEPaperOutputEnum::BlackInvert)
    } else if str_eq(s, "red") {
        Some(QueryRouteEPaperOutputEnum::Red)
    } else {
        None
    }
}

/// The kebab-case name of each container format.
pub open spec fn spec_format_of(s: Seq<char>) -> Option<QueryRouteEPaperFormatEnum> {
    if s == "png"@ {
        Some(QueryRouteEPaperFormatEnum::Png)
    } else if s == "bmp"@ {
        Some(QueryRouteEPaperFormatEnum::Bmp)
    } else {
        None
    }
}

/// Decodes the kebab-case name of a container format.
pub fn parse_format(s: &str) -> (r: Option<QueryRouteEPaperFormatEnum>)
    ensures
        r == spec_format_of(s@),
{
    if str_eq(s, "png") {
        Some(QueryRouteEPaperFormatEnum::Png)
    } else if str_eq(s, "bmp") {
        Some(QueryRouteEPaperFormatEnum::Bmp)
    } else {
        None
    }
}

/// The whole query of a render request: absent parameters take their
/// defaults, an unknown value rejects the request.
pub open spec fn spec_query_model(
    output: Option<Seq<char>>,
    format: Option<Seq<char>>,
) -> Option<QueryRouteEPaperModel> {
    let o = match output {
        None => Some(QueryRouteEPaperOutputEnum::Full),
        Some(s) => spec_output_of(s),
    };
    let f = match format {
        None => Some(QueryRouteEPaperFormatEnum::Png),
        Some(s) => spec_format_of(s),
    };
    match (o, f) {
        (Some(o), Some(f)) => Some(QueryRouteEPaperModel { output: o, format: f }),
        _ => None,
    }
}

/// Decodes the query of a render request; see [`spec_query_model`].
pub fn parse_query_model(output: Option<&str>, format: Option<&str>) -> (r: Option<
    QueryRouteEPaperModel,
>)
    ensures
        r == spec_query_model(
            match output {
                Some(s) => Some(s@),
                None => None,
            },
            match format {
                Some(s) => Some(s@),
                None => None,
            },
        ),
{
    let o = match output {
        None => Some(QueryRouteEPaperOutputEnum::Full),
        Some(s) => parse_output(s),
    };
    let f = match format {
        None => Some(QueryRouteEPaperFormatEnum::Png),
        Some(s) => parse_format(s),
    };
    match (o, f) {
        (Some(o), Some(f)) => Some(QueryRouteEPaperModel { output: o, format: f }),
        _ => None,
    }
}

/// The textual name of each environment.
pub open spec fn spec_environment_of(s: Seq<char>) -> Option<Environment> {
    if s == "development"@ {
        Some(Environment::Development)
    } else if s == "production"@ {
        Some(Environment::Production)
    } else {
        None
    }
}

/// Decodes an environment name; anything but `development` or `production`
/// yields `None`.
pub fn parse_environment(s: &str) -> (r: Option<Environment>)
    ensures
        r == spec_environment_of(s@),
{
    if str_eq(s, "development") {
        Some(Environment::Development)
    } else if str_eq(s, "production") {
        Some(Environment::Production)
    } else {
        None
    }
}

} // verus!
