use rustykelvinbot::action::weather::{
    geo_display, geo_url, weather_report, weather_url, Error, Weather, GEO_COUNTRY_CODE,
    GEO_ZIP_CODE,
};

#[test]
fn geo_url_is_assembled_exactly() {
    assert_eq!(
        geo_url(GEO_ZIP_CODE, GEO_COUNTRY_CODE, "KEY"),
        "http://api.openweathermap.org/geo/1.0/zip?zip=91776,US&appid=KEY"
    );
}

#[test]
fn weather_url_is_assembled_exactly() {
    assert_eq!(
        weather_url("34.09", "-118.1", "KEY"),
        "https://api.openweathermap.org/data/2.5/weather?lat=34.09&lon=-118.1&appid=KEY&units=imperial"
    );
}

#[test]
fn geo_display_formats_the_coordinates_reply() {
    assert_eq!(
        geo_display("91776", "San Gabriel", "US", "34.09", "-118.1"),
        "91776, San Gabriel, US (34.09, -118.1)"
    );
}

#[test]
fn weather_report_formats_the_conditions_reply() {
    let weather = Weather {
        _id: 800,
        _main: "Clear".to_string(),
        description: "clear sky".to_string(),
        _icon: "01d".to_string(),
    };
    assert_eq!(
        weather_report("San Gabriel", &weather, "40", "75", "72", "68", "5.1"),
        ">>> ■ San Gabriel\nclear sky\n40% humidity\n75 > 72 > 68°F\n5.1 mph winds"
    );
}

#[test]
fn weather_error_messages() {
    assert_eq!(Error::Placeholder.message(), "placeholder");
    assert_eq!(Error::OpenWeatherQueryError.message(), "failed to query for openweather");
    assert_eq!(Error::OpenWeatherParseError.message(), "failed to parse openweather");
}
