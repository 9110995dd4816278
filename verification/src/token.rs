//! The token store: named credentials looked up by logical key.  Reading
//! the secrets file from disk is the caller's outside work; this module
//! parses its TOML text and serves lookups.
use vstd::prelude::*;

use crate::err::RKBServiceRequestErr;

verus! {

broadcast use vstd::string::group_string_axioms;

/// The key under which the weather service's credential is stored.
pub const OPEN_WEATHER_TOKEN: &'static str = "OPEN_WEATHER_TOKEN";

/// The key under which the AI service's credential is stored.
pub const DEEPSEEK_TOKEN: &'static str = "DEEPSEEK_TOKEN";

/// A logical credential name.
#[derive(Debug, Hash, Clone, Copy, PartialEq, Eq, Structural)]
pub enum TokenType {
    /// The weather service's credential.
    OpenWeather,
    /// The AI service's credential.
    DeepSeek,
}

impl TokenType {
    /// Reads a stored key name as a logical credential name; any other key
    /// is rejected with a text naming it.
    pub fn try_from(value: String) -> (r: Result<TokenType, String>)
        ensures
            value@ == OPEN_WEATHER_TOKEN@ ==> (r matches Ok(t) && t == TokenType::OpenWeather),
            value@ == DEEPSEEK_TOKEN@ ==> (r matches Ok(t) && t == TokenType::DeepSeek),
            value@ != OPEN_WEATHER_TOKEN@ && value@ != DEEPSEEK_TOKEN@ ==> (r matches Err(m) && m@
                == "Failed to parse key ("@ + value@ + ") into token."@),
    {
        proof {
            reveal_strlit("OPEN_WEATHER_TOKEN");
            reveal_strlit("DEEPSEEK_TOKEN");
            assert(OPEN_WEATHER_TOKEN@.len() == 18);
            assert(DEEPSEEK_TOKEN@.len() == 14);
            assert(OPEN_WEATHER_TOKEN@ != DEEPSEEK_TOKEN@);
        }
        if crate::str_eq(value.as_str(), OPEN_WEATHER_TOKEN) {
            Ok(TokenType::OpenWeather)
        } else if crate::str_eq(value.as_str(), DEEPSEEK_TOKEN) {
            Ok(TokenType::DeepSeek)
        } else {
            let mut message = String::from_str("Failed to parse key (");
            message.append(value.as_str());
            message.append(") into token.");
            Err(message)
        }
    }
}

/// Whether the text parses as a TOML table.  The parser is deterministic,
/// so this is a function of the text alone.
pub uninterp spec fn toml_parses(s: Seq<char>) -> bool;

/// What parsing the secrets file's TOML text yields: the table's entries in
/// the table's own (deterministic) iteration order, each value kept when it
/// is a string and `None` otherwise.
pub uninterp spec fn toml_entries(s: Seq<char>) -> Seq<(String, Option<String>)>;

/// Relies on `toml::Table`'s `FromStr` (through `str::parse`): the parse
/// succeeds exactly on the texts that are TOML tables (`toml_parses` names
/// that set), and then yields the table's key/value entries, iterated in
/// the table's own order, with each string value kept and any other value
/// replaced by `None`.
#[verifier::external_body]
fn parse_toml_entries(content: &str) -> (r: Option<Vec<(String, Option<String>)>>)
    ensures
        r is Some <==> toml_parses(content@),
        r matches Some(v) ==> v@ == toml_entries(content@),
{
    match content.parse::<toml::Table>() {
        Ok(table) => Some(
            table.into_iter().map(
                |(key, value)| { (key, value.as_str().map(|v| v.to_string())) },
            ).collect(),
        ),
        Err(_) => None,
    }
}

/// The credential that a key selects from parsed entries: the value of the
/// last entry under that exact key whose value is a string, if any.
pub open spec fn spec_token_lookup(
    entries: Seq<(String, Option<String>)>,
    key: Seq<char>,
) -> Option<Seq<char>>
    decreases entries.len(),
{
    if entries.len() == 0 {
        None
    } else {
        let last = entries.last();
        if last.0@ == key && last.1 is Some {
            Some(last.1->0@)
        } else {
            spec_token_lookup(entries.drop_last(), key)
        }
    }
}

/// The loaded credential store.
#[derive(Debug, Clone)]
pub struct RKBTokens {
    open_weather: Option<String>,
    deep_seek: Option<String>,
}

impl RKBTokens {
    /// The credential stored under a logical name, if any.
    pub closed spec fn spec_get(&self, key: TokenType) -> Option<Seq<char>> {
        match key {
            TokenType::OpenWeather => crate::opt_view(self.open_weather),
            TokenType::DeepSeek => crate::opt_view(self.deep_seek),
        }
    }

    /// Loads the store from the secrets file's text: loading succeeds
    /// exactly when the text parses as a TOML table, the recognized keys'
    /// string values are kept, everything else is ignored, and text that is
    /// not a TOML table is a credential error, not a crash.
    pub fn new(token_file_content: String) -> (r: Result<RKBTokens, RKBServiceRequestErr>)
        ensures
            r is Ok <==> toml_parses(token_file_content@),
            r matches Ok(t) ==> (t.spec_get(TokenType::OpenWeather) == spec_token_lookup(
                toml_entries(token_file_content@),
                OPEN_WEATHER_TOKEN@,
            ) && t.spec_get(TokenType::DeepSeek) == spec_token_lookup(
                toml_entries(token_file_content@),
                DEEPSEEK_TOKEN@,
            )),
            r matches Err(e) ==> (e matches RKBServiceRequestErr::Token(m) && m@
                == "Token file path can not be parsed into toml."@),
    {
        let entries: Vec<(String, Option<String>)> = match parse_toml_entries(
            token_file_content.as_str(),
        ) {
            Option::Some(v) => v,
            Option::None => {
                return Err(
                    RKBServiceRequestErr::Token(
                        String::from_str("Token file path can not be parsed into toml."),
                    ),
                );
            },
        };
        let mut open_weather: Option<String> = None;
        let mut deep_seek: Option<String> = None;
        let mut i: usize = 0;
        proof {
            assert(entries@.subrange(0, 0) =~= Seq::<(String, Option<String>)>::empty());
        }
        while i < entries.len()
            invariant
                0 <= i <= entries@.len(),
                entries@ == toml_entries(token_file_content@),
                crate::opt_view(open_weather) == spec_token_lookup(
                    entries@.subrange(0, i as int),
                    OPEN_WEATHER_TOKEN@,
                ),
                crate::opt_view(deep_seek) == spec_token_lookup(
                    entries@.subrange(0, i as int),
                    DEEPSEEK_TOKEN@,
                ),
            decreases entries@.len() - i,
        {
            let ghost prefix = entries@.subrange(0, i as int);
            let key: String = entries[i].0.clone();
            match TokenType::try_from(key) {
                Result::Ok(TokenType::OpenWeather) => {
                    match &entries[i].1 {
                        Option::Some(v) => {
                            open_weather = Some(v.clone());
                        },
                        Option::None => {},
                    }
                },
                Result::Ok(TokenType::DeepSeek) => {
                    match &entries[i].1 {
                        Option::Some(v) => {
                            deep_seek = Some(v.clone());
                        },
                        Option::None => {},
                    }
                },
                Result::Err(_) => {},
            }
            proof {
                let next = entries@.subrange(0, i as int + 1);
                assert(next.drop_last() =~= prefix);
                assert(next.last() == entries@[i as int]);
                assert(OPEN_WEATHER_TOKEN@ != DEEPSEEK_TOKEN@) by {
                    reveal_strlit("OPEN_WEATHER_TOKEN");
                    reveal_strlit("DEEPSEEK_TOKEN");
                    assert(OPEN_WEATHER_TOKEN@.len() == 18);
                    assert(DEEPSEEK_TOKEN@.len() == 14);
                }
            }
            i = i + 1;
        }
        proof {
            assert(entries@.subrange(0, entries@.len() as int) =~= entries@);
        }
        Ok(RKBTokens { open_weather, deep_seek })
    }

    /// Looks a credential up; a missing key is a request-scoped credential
    /// error, never a panic.
    pub fn get(&self, key: &TokenType) -> (r: Result<&String, RKBServiceRequestErr>)
        ensures
            self.spec_get(*key) matches Some(s) ==> (r matches Ok(v) && v@ == s),
            self.spec_get(*key) is None ==> (r matches Err(e) && e matches
                RKBServiceRequestErr::Token(m) && m@ == "Key does not exist."@),
    {
        let slot: &Option<String> = match key {
            TokenType::OpenWeather => &self.open_weather,
            TokenType::DeepSeek => &self.deep_seek,
        };
        match slot {
            Option::Some(v) => Ok(v),
            Option::None => Err(
                RKBServiceRequestErr::Token(String::from_str("Key does not exist.")),
            ),
        }
    }
}

} // verus!
