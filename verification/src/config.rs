use vstd::prelude::*;

verus! {

/// Why building the configuration failed: one variant per required
/// environment variable that can be absent.
#[derive(Clone, Copy, Debug, PartialEq, Eq, Structural)]
pub enum ConfigError {
    MissingClientId,
    MissingClientSecret,
}

/// The application credentials for the remote API, immutable for the
/// lifetime of a run.
#[derive(Clone, Debug)]
pub struct ClientCredentials {
    pub id: String,
    pub secret: String,
}

/// Builds the credentials from the two required environment variables,
/// handed in as plain optional values. Succeeds exactly when both are
/// present; the error names the first missing one, the client identifier
/// being checked first.
pub fn make_credentials(id: Option<String>, secret: Option<String>) -> (r: Result<
    ClientCredentials,
    ConfigError,
>)
    ensures
        r is Ok <==> (id is Some && secret is Some),
        r matches Ok(c) ==> id matches Some(i) && c.id == i,
        r matches Ok(c) ==> secret matches Some(s) && c.secret == s,
        id is None ==> r == Result::<ClientCredentials, ConfigError>::Err(
            ConfigError::MissingClientId,
        ),
        id is Some && secret is None ==> r == Result::<ClientCredentials, ConfigError>::Err(
            ConfigError::MissingClientSecret,
        ),
{
    match (id, secret) {
        (Some(i), Some(s)) => Ok(ClientCredentials { id: i, secret: s }),
        (None, _) => Err(ConfigError::MissingClientId),
        (Some(_), None) => Err(ConfigError::MissingClientSecret),
    }
}

/// The fixed set of permissions requested at authorization time.
pub fn api_scopes() -> (r: Vec<String>)
    ensures
        r@.len() == 6,
        r@[0]@ == "user-library-read"@,
        r@[1]@ == "playlist-read-private"@,
        r@[2]@ == "playlist-modify-public"@,
        r@[3]@ == "playlist-modify-private"@,
        r@[4]@ == "playlist-read-collaborative"@,
        r@[5]@ == "user-read-currently-playing"@,
{
    let mut r: Vec<String> = Vec::new();
    r.push("user-library-read".to_owned());
    r.push("playlist-read-private".to_owned());
    r.push("playlist-modify-public".to_owned());
    r.push("playlist-modify-private".to_owned());
    r.push("playlist-read-collaborative".to_owned());
    r.push("user-read-currently-playing".to_owned());
    r
}

} // verus!
