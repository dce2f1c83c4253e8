use vstd::prelude::*;
use vstd::string::StringExecFns;

verus! {

/// How the client finds its home server: a full URL (restore) or a bare
/// server name to discover from (fresh login).
pub enum Endpoint {
    HomeserverUrl(String),
    ServerName(String),
}

/// When key backups are downloaded.
pub enum BackupDownloadStrategy {
    OneShot,
    AfterDecryptionFailure,
    Manual,
}

/// The encryption auto-setup a client is always configured with.
pub struct EncryptionConfig {
    pub auto_enable_cross_signing: bool,
    pub auto_enable_backups: bool,
    pub backup_download_strategy: BackupDownloadStrategy,
}

/// The full configuration the client factory hands to the protocol runtime.
pub struct ClientConfig {
    pub store_path: String,
    pub encryption: EncryptionConfig,
    pub endpoint: Option<Endpoint>,
}

/// The configuration of a new client handle.
///
/// Always: the local persistent store at the fixed relative path `states`,
/// cross-signing and key backups bootstrapped automatically, and backups
/// downloaded only after a decryption failure is observed, never eagerly.
/// The endpoint prefers the homeserver URL when both inputs are present;
/// the factory does not enforce mutual exclusivity.
pub fn build_client_config(server_name: Option<&str>, homeserver_url: Option<&str>) -> (r:
    ClientConfig)
    ensures
        r.store_path@ == "states"@,
        r.encryption.auto_enable_cross_signing,
        r.encryption.auto_enable_backups,
        r.encryption.backup_download_strategy is AfterDecryptionFailure,
        (match homeserver_url {
            Some(u) => r.endpoint matches Some(Endpoint::HomeserverUrl(x)) && x@ == u@,
            None => match server_name {
                Some(n) => r.endpoint matches Some(Endpoint::ServerName(x)) && x@ == n@,
                None => r.endpoint is None,
            },
        }),
{
    let endpoint = if let Some(u) = homeserver_url {
        Some(Endpoint::HomeserverUrl(String::from_str(u)))
    } else if let Some(n) = server_name {
        Some(Endpoint::ServerName(String::from_str(n)))
    } else {
        None
    };
    ClientConfig {
        store_path: String::from_str("states"),
        encryption: EncryptionConfig {
            auto_enable_cross_signing: true,
            auto_enable_backups: true,
            backup_download_strategy: BackupDownloadStrategy::AfterDecryptionFailure,
        },
        endpoint,
    }
}

} // verus!
