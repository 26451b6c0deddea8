use vstd::prelude::*;

verus! {

/// The validated configuration for one upload session: credentials, the
/// server's base URL, and the set of file extensions worth uploading.
/// Immutable once built; shared by every operation of the session.
pub struct MusicUploaderClientConfig {
    pub user: String,
    pub password: String,
    pub valid_extension: Vec<String>,
    pub server_url: String,
}

/// The raw shape of the configuration file, before it is turned into the
/// session configuration. The surrounding binary fills it from whatever
/// source holds the settings.
pub struct TomlConfig {
    pub user: String,
    pub password: String,
    pub valid_extensions: Vec<String>,
    pub server_url: String,
}

/// Builds the session configuration from the raw configuration file
/// values: a field-for-field move.
pub fn build_lib_config(toml_config: TomlConfig) -> (r: MusicUploaderClientConfig)
    ensures
        r.user == toml_config.user,
        r.password == toml_config.password,
        r.valid_extension == toml_config.valid_extensions,
        r.server_url == toml_config.server_url,
{
    MusicUploaderClientConfig {
        user: toml_config.user,
        password: toml_config.password,
        valid_extension: toml_config.valid_extensions,
        server_url: toml_config.server_url,
    }
}

} // verus!
