use rustykelvinbot::err::RKBServiceRequestErr;
use rustykelvinbot::token::{RKBTokens, TokenType};

#[test]
fn loads_both_recognized_keys() {
    let text = "OPEN_WEATHER_TOKEN = \"ow-secret\"\nDEEPSEEK_TOKEN = \"ds-secret\"\n";
    let tokens = RKBTokens::new(text.to_string()).unwrap();
    assert_eq!(tokens.get(&TokenType::OpenWeather).unwrap(), "ow-secret");
    assert_eq!(tokens.get(&TokenType::DeepSeek).unwrap(), "ds-secret");
}

#[test]
fn unrecognized_keys_are_ignored() {
    let text = "DISCORD_TOKEN = \"other\"\nDEEPSEEK_TOKEN = \"ds\"\n";
    let tokens = RKBTokens::new(text.to_string()).unwrap();
    assert!(tokens.get(&TokenType::OpenWeather).is_err());
    assert_eq!(tokens.get(&TokenType::DeepSeek).unwrap(), "ds");
}

#[test]
fn non_string_value_is_ignored() {
    let text = "OPEN_WEATHER_TOKEN = 5\n";
    let tokens = RKBTokens::new(text.to_string()).unwrap();
    assert!(matches!(
        tokens.get(&TokenType::OpenWeather),
        Err(RKBServiceRequestErr::Token(_))
    ));
}

#[test]
fn empty_file_loads_an_empty_store() {
    let tokens = RKBTokens::new(String::new()).unwrap();
    assert!(tokens.get(&TokenType::OpenWeather).is_err());
    assert!(tokens.get(&TokenType::DeepSeek).is_err());
}

#[test]
fn unparsable_text_is_a_token_error() {
    let result = RKBTokens::new("not [valid toml".to_string());
    match result {
        Err(RKBServiceRequestErr::Token(message)) => {
            assert_eq!(message, "Token file path can not be parsed into toml.");
        }
        other => panic!("expected a token error, got {:?}", other),
    }
}

#[test]
fn token_type_parses_known_keys() {
    assert_eq!(
        TokenType::try_from("OPEN_WEATHER_TOKEN".to_string()).unwrap(),
        TokenType::OpenWeather
    );
    assert_eq!(
        TokenType::try_from("DEEPSEEK_TOKEN".to_string()).unwrap(),
        TokenType::DeepSeek
    );
}

#[test]
fn token_type_rejects_other_keys_naming_them() {
    let error = TokenType::try_from("SOMETHING".to_string()).unwrap_err();
    assert_eq!(error, "Failed to parse key (SOMETHING) into token.");
}

#[test]
fn loading_succeeds_exactly_when_the_text_is_a_toml_table() {
    assert!(RKBTokens::new("a = 1\nb = \"two\"\n".to_string()).is_ok());
    assert!(RKBTokens::new(String::new()).is_ok());
    assert!(RKBTokens::new("= broken".to_string()).is_err());
}
