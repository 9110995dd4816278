//! The weather and geocoding handlers: query-URL construction and reply
//! formatting on plain values.  The HTTP exchange itself, and the rounding
//! of the service's floating-point fields into the digit strings taken
//! here, are the caller's outside work.
use vstd::prelude::*;

verus! {

/// Failures of the weather and geocoding handlers.
#[derive(Debug, Clone, Copy, PartialEq, Eq, Structural)]
pub enum Error {
    /// Reserved variant with no meaning of its own.
    Placeholder,
    /// The weather service could not be queried.
    OpenWeatherQueryError,
    /// The weather service's answer could not be parsed.
    OpenWeatherParseError,
}

impl Error {
    /// The user-visible plain-language text of this failure.
    pub open spec fn spec_message(&self) -> Seq<char> {
        match self {
            Error::Placeholder => "placeholder"@,
            Error::OpenWeatherQueryError => "failed to query for openweather"@,
            Error::OpenWeatherParseError => "failed to parse openweather"@,
        }
    }

    /// Renders the failure as its user-visible text.
    pub fn message(&self) -> (r: String)
        ensures
            r@ == self.spec_message(),
    {
        match self {
            Error::Placeholder => String::from_str("placeholder"),
            Error::OpenWeatherQueryError => String::from_str("failed to query for openweather"),
            Error::OpenWeatherParseError => String::from_str("failed to parse openweather"),
        }
    }
}

/// One weather-condition description from the service's answer.
#[derive(Debug, Clone)]
pub struct Weather {
    /// Weather condition id.
    pub _id: u64,
    /// Group of weather parameters (Rain, Snow, Extreme etc.).
    pub _main: String,
    /// Weather condition.
    pub description: String,
    /// Weather icon id.
    pub _icon: String,
}

/// The fixed postal code that the geocoding query asks about.
pub const GEO_ZIP_CODE: &'static str = "91776";

/// The fixed country code that the geocoding query asks about.
pub const GEO_COUNTRY_CODE: &'static str = "US";

/// The geocoding-by-postal-code query URL for a postal code, a country code
/// and a credential.
pub fn geo_url(zip_code: &str, country_code: &str, api_key: &str) -> (r: String)
    ensures
        r@ == "http://api.openweathermap.org/geo/1.0/zip?zip="@ + zip_code@ + ","@ + country_code@
            + "&appid="@ + api_key@,
{
    let mut url = String::from_str("http://api.openweathermap.org/geo/1.0/zip?zip=");
    url.append(zip_code);
    url.append(",");
    url.append(country_code);
    url.append("&appid=");
    url.append(api_key);
    url
}

/// The weather-by-coordinates query URL for rendered coordinates and a
/// credential, in imperial units.
pub fn weather_url(lat: &str, lon: &str, api_key: &str) -> (r: String)
    ensures
        r@ == "https://api.openweathermap.org/data/2.5/weather?lat="@ + lat@ + "&lon="@ + lon@
            + "&appid="@ + api_key@ + "&units=imperial"@,
{
    let mut url = String::from_str("https://api.openweathermap.org/data/2.5/weather?lat=");
    url.append(lat);
    url.append("&lon=");
    url.append(lon);
    url.append("&appid=");
    url.append(api_key);
    url.append("&units=imperial");
    url
}

/// The formatted coordinates reply of the geocoding handler, from the
/// service's answer with the coordinates already rendered as text.
pub fn geo_display(zip: &str, name: &str, country: &str, lat: &str, lon: &str) -> (r: String)
    ensures
        r@ == zip@ + ", "@ + name@ + ", "@ + country@ + " ("@ + lat@ + ", "@ + lon@ + ")"@,
{
    let mut text = zip.to_owned();
    text.append(", ");
    text.append(name);
    text.append(", ");
    text.append(country);
    text.append(" (");
    text.append(lat);
    text.append(", ");
    text.append(lon);
    text.append(")");
    text
}

/// The formatted current-conditions reply of the weather handler: city
/// name, the condition's description, then humidity, the temperature span
/// and the wind speed, each already rounded and rendered as text.
pub fn weather_report(
    name: &str,
    weather: &Weather,
    humidity: &str,
    temp_max: &str,
    feels_like: &str,
    temp_min: &str,
    wind: &str,
) -> (r: String)
    ensures
        r@ == ">>> ■ "@ + name@ + "\n"@ + weather.description@ + "\n"@ + humidity@
            + "% humidity\n"@ + temp_max@ + " > "@ + feels_like@ + " > "@ + temp_min@ + "°F\n"@
            + wind@ + " mph winds"@,
{
    let mut text = String::from_str(">>> ■ ");
    text.append(name);
    text.append("\n");
    text.append(weather.description.as_str());
    text.append("\n");
    text.append(humidity);
    text.append("% humidity\n");
    text.append(temp_max);
    text.append(" > ");
    text.append(feels_like);
    text.append(" > ");
    text.append(temp_min);
    text.append("°F\n");
    text.append(wind);
    text.append(" mph winds");
    text
}

} // verus!
