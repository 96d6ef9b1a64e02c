use vstd::prelude::*;

verus! {

/// How long a client waits for a connection, in seconds, unless told otherwise.
pub const DEFAULT_CONNECT_TIMEOUT_SECS: u64 = 5;

/// The endpoint used where none is configured.
pub open spec fn default_base_url() -> Seq<char> {
    "https://api.typesafe.ai/v1/systemone"@
}

/// The headers that every request carries: the body is JSON and JSON is
/// wanted back.
pub open spec fn json_headers() -> Seq<(Seq<char>, Seq<char>)> {
    seq![("content-type"@, "application/json"@), ("accept"@, "application/json"@)]
}

/// The view of an optional string.
pub open spec fn opt_view(s: Option<String>) -> Option<Seq<char>> {
    match s {
        Some(v) => Some(v@),
        None => None,
    }
}

/// The endpoint text that is used: the configured one, else the default.
pub open spec fn chosen_base_url(configured: Option<Seq<char>>) -> Seq<char> {
    match configured {
        Some(u) => u,
        None => default_base_url(),
    }
}

/// What `reqwest::Url::parse` makes of `input`: the URL's normalized text, or
/// `None` where `input` is no absolute URL.
pub uninterp spec fn url_serialization(input: Seq<char>) -> Option<Seq<char>>;

/// Parses `text` with `reqwest::Url::parse` (the `url` crate's `Url::parse`)
/// and gives back the parsed URL's text (`String::from(url)`, its
/// serialization), or `None` where parsing fails. Trusted: the result is
/// `url_serialization` of the text, a function of the text alone; nothing more
/// is claimed of it.
#[verifier::external_body]
fn parse_url(text: &str) -> (r: Option<String>)
    ensures
        opt_view(r) == url_serialization(text@),
{
    match reqwest::Url::parse(text) {
        Ok(url) => Some(String::from(url)),
        Err(_) => None,
    }
}

/// Why the settings of a client could not be made.
#[derive(Debug, Clone, Copy, PartialEq, Eq, Structural)]
pub enum ClientSetupError {
    /// The endpoint is no absolute URL.
    InvalidBaseUrl,
    /// No API key was given.
    MissingApiKey,
}

/// What a client needs to talk to the service.
#[derive(Debug)]
pub struct ClientSettings {
    /// The endpoint, as a normalized URL.
    pub base_url: String,
    /// The key sent as the bearer token.
    pub api_key: String,
    /// Headers sent with every request, by name and value.
    pub headers: Vec<(String, String)>,
    /// Whether only HTTPS may be used.
    pub https_only: bool,
}

/// Client settings with their strings taken as character sequences.
pub struct ClientSettingsView {
    pub base_url: Seq<char>,
    pub api_key: Seq<char>,
    pub headers: Seq<(Seq<char>, Seq<char>)>,
    pub https_only: bool,
}

impl View for ClientSettings {
    type V = ClientSettingsView;

    open spec fn view(&self) -> ClientSettingsView {
        ClientSettingsView {
            base_url: self.base_url@,
            api_key: self.api_key@,
            headers: self.headers@.map_values(|h: (String, String)| (h.0@, h.1@)),
            https_only: self.https_only,
        }
    }
}

/// The settings made from a parsed endpoint and an API key; the endpoint is
/// checked first.
pub open spec fn settings_outcome(parsed_url: Option<Seq<char>>, api_key: Option<Seq<char>>) -> Result<
    ClientSettingsView,
    ClientSetupError,
> {
    match parsed_url {
        None => Err(ClientSetupError::InvalidBaseUrl),
        Some(url) => match api_key {
            None => Err(ClientSetupError::MissingApiKey),
            Some(key) => Ok(
                ClientSettingsView {
                    base_url: url,
                    api_key: key,
                    headers: json_headers(),
                    https_only: true,
                },
            ),
        },
    }
}

/// The view of a result of `settings_from_parsed` or `client_settings`.
pub open spec fn outcome_view(r: Result<ClientSettings, ClientSetupError>) -> Result<
    ClientSettingsView,
    ClientSetupError,
> {
    match r {
        Ok(s) => Ok(s@),
        Err(e) => Err(e),
    }
}

fn literal(s: &str) -> (r: String)
    ensures
        r@ == s@,
{
    s.to_owned()
}

/// The settings of a client, given the endpoint as parsed (`None` where it is
/// no URL) and the API key if there is one.
pub fn settings_from_parsed(parsed_url: Option<String>, api_key: Option<String>) -> (r: Result<
    ClientSettings,
    ClientSetupError,
>)
    ensures
        outcome_view(r) == settings_outcome(opt_view(parsed_url), opt_view(api_key)),
        r is Ok <==> (parsed_url is Some && api_key is Some),
        r matches Ok(s) ==> {
            &&& Some(s.base_url@) == opt_view(parsed_url)
            &&& Some(s.api_key@) == opt_view(api_key)
            &&& s@.headers == seq![("content-type"@, "application/json"@), ("accept"@, "application/json"@)]
            &&& s.https_only
        },
        parsed_url is None ==> r == Err::<ClientSettings, ClientSetupError>(ClientSetupError::InvalidBaseUrl),
        parsed_url is Some && api_key is None ==> r == Err::<ClientSettings, ClientSetupError>(
            ClientSetupError::MissingApiKey,
        ),
{
    let base_url = match parsed_url {
        Some(u) => u,
        None => {
            return Err(ClientSetupError::InvalidBaseUrl);
        },
    };
    let api_key = match api_key {
        Some(k) => k,
        None => {
            return Err(ClientSetupError::MissingApiKey);
        },
    };
    let mut headers: Vec<(String, String)> = Vec::new();
    headers.push((literal("content-type"), literal("application/json")));
    headers.push((literal("accept"), literal("application/json")));
    let settings = ClientSettings { base_url, api_key, headers, https_only: true };
    assert(settings@.headers =~= json_headers());
    Ok(settings)
}

/// The settings of a client from its configuration: the endpoint, if one is
/// configured (else the default one), and the API key, if there is one. The
/// endpoint is parsed as a URL; that it is one is checked before the key is.
pub fn client_settings(base_url: Option<String>, api_key: Option<String>) -> (r: Result<
    ClientSettings,
    ClientSetupError,
>)
    ensures
        outcome_view(r) == settings_outcome(
            url_serialization(chosen_base_url(opt_view(base_url))),
            opt_view(api_key),
        ),
        base_url matches Some(u) ==> (r is Ok <==> (url_serialization(u@) is Some && api_key is Some)),
        base_url matches Some(u) ==> (r matches Ok(s) ==> url_serialization(u@) == Some(s.base_url@)),
        base_url is None ==> (r matches Ok(s) ==> url_serialization("https://api.typesafe.ai/v1/systemone"@)
            == Some(s.base_url@)),
        r matches Ok(s) ==> {
            &&& Some(s.api_key@) == opt_view(api_key)
            &&& s@.headers == seq![("content-type"@, "application/json"@), ("accept"@, "application/json"@)]
            &&& s.https_only
        },
{
    let chosen = match base_url {
        Some(u) => u,
        None => literal("https://api.typesafe.ai/v1/systemone"),
    };
    let parsed = parse_url(chosen.as_str());
    settings_from_parsed(parsed, api_key)
}

/// A configured endpoint is the one used: whatever text `u` is configured,
/// the settings made from it hold the parse of `u` itself, or fail with
/// `InvalidBaseUrl` exactly when `u` does not parse; the default endpoint is
/// used only where none is configured.
pub proof fn law_configured_endpoint_is_used(u: Seq<char>, key: Seq<char>)
    ensures
        chosen_base_url(Some(u)) == u,
        chosen_base_url(None) == "https://api.typesafe.ai/v1/systemone"@,
        url_serialization(u) is None ==> settings_outcome(
            url_serialization(chosen_base_url(Some(u))),
            Some(key),
        ) == Err::<ClientSettingsView, ClientSetupError>(ClientSetupError::InvalidBaseUrl),
        url_serialization(u) matches Some(parsed) ==> settings_outcome(
            url_serialization(chosen_base_url(Some(u))),
            Some(key),
        ) matches Ok(s) && s.base_url == parsed && s.api_key == key,
{
}

/// Every client gets the JSON headers and HTTPS only, whatever its endpoint
/// and key: a parsed endpoint and a key always give settings with exactly
/// `content-type: application/json` and `accept: application/json`.
pub proof fn law_settings_always_carry_json_headers(url: Seq<char>, key: Seq<char>)
    ensures
        settings_outcome(Some(url), Some(key)) == Ok::<ClientSettingsView, ClientSetupError>(
            ClientSettingsView {
                base_url: url,
                api_key: key,
                headers: seq![("content-type"@, "application/json"@), ("accept"@, "application/json"@)],
                https_only: true,
            },
        ),
        settings_outcome(Some(url), None) == Err::<ClientSettingsView, ClientSetupError>(
            ClientSetupError::MissingApiKey,
        ),
        settings_outcome(None, Some(key)) == Err::<ClientSettingsView, ClientSetupError>(
            ClientSetupError::InvalidBaseUrl,
        ),
{
}

} // verus!
