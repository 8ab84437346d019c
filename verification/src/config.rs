//! The configuration of the service and what is derived from it.

use vstd::prelude::*;
use vstd::utf8::*;

use crate::digest::{self, hex_digest, push_text};
use crate::text::{self, parse_i64, take_bytes};

verus! {

/// How long completed records are kept unless configured otherwise, in days.
pub const DEFAULT_RETENTION_DAYS: i64 = 30;

/// How much of a digest names the store of the delivery monitor.
pub const STORE_NAME_LENGTH: usize = 16;

/// The values of the environment variables, where they are set.
#[derive(Debug)]
pub struct Environment {
    pub homeserver_url: Option<String>,
    pub user_id: Option<String>,
    pub password: Option<String>,
    pub monitor_user_id: Option<String>,
    pub monitor_password: Option<String>,
    pub default_room_id: Option<String>,
    pub service_api_key: Option<String>,
    pub store_encryption_key: Option<String>,
    pub store_dir: Option<String>,
    pub database_url: Option<String>,
    pub idempotency_retention_days: Option<String>,
}

/// The configuration of the service.
#[derive(Debug)]
pub struct Config {
    pub homeserver_url: String,
    pub user_id: String,
    pub password: String,
    pub monitor_user_id: String,
    pub monitor_password: String,
    pub default_room_id: String,
    pub service_api_key: String,
    pub store_encryption_key: String,
    pub store_dir: String,
    pub database_url: String,
    pub idempotency_retention_days: i64,
}

/// A required environment variable that is not set.
#[derive(Clone, Copy, Debug)]
pub struct MissingVariable {
    pub name: &'static str,
}

impl MissingVariable {
    /// The message for the operator.
    pub fn message(&self) -> (message: String)
        ensures
            message@ == self.name@ + " must be configured"@,
    {
        let mut message: String = self.name.to_owned();
        message.append(" must be configured");
        message
    }
}

impl Environment {
    /// The required variables with their values, in the order in which they are
    /// read.
    pub open spec fn required(self) -> Seq<(Seq<char>, Option<String>)> {
        seq![
            ("MATRIX_HOMESERVER_URL"@, self.homeserver_url),
            ("MATRIX_USER_ID"@, self.user_id),
            ("MATRIX_PASSWORD"@, self.password),
            ("MATRIX_MONITOR_USER_ID"@, self.monitor_user_id),
            ("MATRIX_MONITOR_PASSWORD"@, self.monitor_password),
            ("MATRIX_DEFAULT_ROOM_ID"@, self.default_room_id),
            ("MATRIX_SERVICE_API_KEY"@, self.service_api_key),
            ("MATRIX_STORE_ENCRYPTION_KEY"@, self.store_encryption_key),
            ("MATRIX_DATABASE_URL"@, self.database_url),
        ]
    }

    /// `name` is the first of the required variables that is not set.
    pub open spec fn first_missing(self, name: Seq<char>) -> bool {
        exists|i: int|
            0 <= i < self.required().len() && (#[trigger] self.required()[i]) == (
                name,
                None::<String>,
            ) && forall|j: int| 0 <= j < i ==> (#[trigger] self.required()[j]).1 is Some
    }
}

fn required_env(name: &'static str, value: Option<String>) -> (outcome: Result<
    String,
    MissingVariable,
>)
    ensures
        match outcome {
            Ok(found) => value == Some(found),
            Err(missing) => value is None && missing.name == name,
        },
{
    match value {
        Some(value) => Ok(value),
        None => Err(MissingVariable { name }),
    }
}

/// The retention period that a variable gives: thirty days where it is not set or
/// is not a number.
pub open spec fn retention_days(value: Option<Seq<char>>) -> i64 {
    match value {
        Some(value) => match text::signed_decimal(value) {
            Some(days) => days,
            None => DEFAULT_RETENTION_DAYS,
        },
        None => DEFAULT_RETENTION_DAYS,
    }
}

impl Config {
    /// Reads the configuration from the environment. A password that is set may be
    /// empty: only setup needs it.
    pub fn from_env(env: Environment) -> (outcome: Result<Config, MissingVariable>)
        ensures
            match outcome {
                Ok(config) => {
                    &&& env.homeserver_url == Some(config.homeserver_url)
                    &&& env.user_id == Some(config.user_id)
                    &&& env.password == Some(config.password)
                    &&& env.monitor_user_id == Some(config.monitor_user_id)
                    &&& env.monitor_password == Some(config.monitor_password)
                    &&& env.default_room_id == Some(config.default_room_id)
                    &&& env.service_api_key == Some(config.service_api_key)
                    &&& env.store_encryption_key == Some(config.store_encryption_key)
                    &&& config.store_dir@ == (match env.store_dir {
                        Some(store_dir) => store_dir@,
                        None => "/matrix-store"@,
                    })
                    &&& env.database_url == Some(config.database_url)
                    &&& config.idempotency_retention_days == retention_days(
                        env.idempotency_retention_days.deep_view(),
                    )
                },
                Err(missing) => env.first_missing(missing.name@),
            },
    {
        let ghost required = env.required();
        assert(required.len() == 9);
        let homeserver_url = match required_env("MATRIX_HOMESERVER_URL", env.homeserver_url) {
            Ok(value) => value,
            Err(missing) => {
                assert(required[0] == (missing.name@, None::<String>));
                return Err(missing);
            },
        };
        let user_id = match required_env("MATRIX_USER_ID", env.user_id) {
            Ok(value) => value,
            Err(missing) => {
                assert(required[1] == (missing.name@, None::<String>));
                return Err(missing);
            },
        };
        let password = match required_env("MATRIX_PASSWORD", env.password) {
            Ok(value) => value,
            Err(missing) => {
                assert(required[2] == (missing.name@, None::<String>));
                return Err(missing);
            },
        };
        let monitor_user_id = match required_env("MATRIX_MONITOR_USER_ID", env.monitor_user_id) {
            Ok(value) => value,
            Err(missing) => {
                assert(required[3] == (missing.name@, None::<String>));
                return Err(missing);
            },
        };
        let monitor_password = match required_env("MATRIX_MONITOR_PASSWORD", env.monitor_password) {
            Ok(value) => value,
            Err(missing) => {
                assert(required[4] == (missing.name@, None::<String>));
                return Err(missing);
            },
        };
        let default_room_id = match required_env("MATRIX_DEFAULT_ROOM_ID", env.default_room_id) {
            Ok(value) => value,
            Err(missing) => {
                assert(required[5] == (missing.name@, None::<String>));
                return Err(missing);
            },
        };
        let service_api_key = match required_env("MATRIX_SERVICE_API_KEY", env.service_api_key) {
            Ok(value) => value,
            Err(missing) => {
                assert(required[6] == (missing.name@, None::<String>));
                return Err(missing);
            },
        };
        let store_encryption_key = match required_env(
            "MATRIX_STORE_ENCRYPTION_KEY",
            env.store_encryption_key,
        ) {
            Ok(value) => value,
            Err(missing) => {
                assert(required[7] == (missing.name@, None::<String>));
                return Err(missing);
            },
        };
        let store_dir = match env.store_dir {
            Some(store_dir) => store_dir,
            None => "/matrix-store".to_owned(),
        };
        let database_url = match required_env("MATRIX_DATABASE_URL", env.database_url) {
            Ok(value) => value,
            Err(missing) => {
                assert(required[8] == (missing.name@, None::<String>));
                return Err(missing);
            },
        };
        let parsed: Option<i64> = match &env.idempotency_retention_days {
            Some(value) => parse_i64(value.as_str()),
            None => None,
        };
        let idempotency_retention_days: i64 = match parsed {
            Some(days) => days,
            None => DEFAULT_RETENTION_DAYS,
        };
        Ok(
            Config {
                homeserver_url,
                user_id,
                password,
                monitor_user_id,
                monitor_password,
                default_room_id,
                service_api_key,
                store_encryption_key,
                store_dir,
                database_url,
                idempotency_retention_days,
            },
        )
    }

    /// The key of the store of the delivery monitor, which must not share the
    /// sender's: derived from the sender's key for the monitor's user.
    pub fn monitor_store_encryption_key(&self) -> (key: String)
        ensures
            key@ == monitor_store_key(self.store_encryption_key@, self.monitor_user_id@),
            digest::is_digest_text(key@),
            !digest::is_digest_text(self.store_encryption_key@) ==> key@
                != self.store_encryption_key@,
    {
        let mut data: Vec<u8> = Vec::new();
        push_text(&mut data, self.store_encryption_key.as_str());
        push_text(&mut data, "\0matrix-delivery-monitor-store-v1");
        push_text(&mut data, self.monitor_user_id.as_str());
        hex_digest(data.as_slice())
    }
}

/// The bytes that the key of the store of the delivery monitor is the digest of.
pub open spec fn monitor_store_key_bytes(store_key: Seq<char>, user_id: Seq<char>) -> Seq<u8> {
    encode_utf8(store_key) + encode_utf8("\0matrix-delivery-monitor-store-v1"@) + encode_utf8(
        user_id,
    )
}

/// The key of the store of the delivery monitor.
pub open spec fn monitor_store_key(store_key: Seq<char>, user_id: Seq<char>) -> Seq<char> {
    digest::hex_sha256(monitor_store_key_bytes(store_key, user_id))
}

/// The key of the monitor's store changes with the sender's key and with the
/// monitor's user: where only one of the two changes, so do the bytes that it is
/// the digest of, and with them the key, unless their digests collide.
pub proof fn law_monitor_store_key_changes_with_key_and_user(
    store_key: Seq<char>,
    user_id: Seq<char>,
    other_store_key: Seq<char>,
    other_user_id: Seq<char>,
)
    requires
        store_key == other_store_key || user_id == other_user_id,
    ensures
        ({
            let bytes = monitor_store_key_bytes(store_key, user_id);
            let other_bytes = monitor_store_key_bytes(other_store_key, other_user_id);
            let keys_are_equal = monitor_store_key(store_key, user_id) == monitor_store_key(
                other_store_key,
                other_user_id,
            );
            let both_are_equal = store_key == other_store_key && user_id == other_user_id;
            &&& bytes == other_bytes <==> both_are_equal
            &&& (keys_are_equal ==> bytes == other_bytes) ==> (keys_are_equal <==> both_are_equal)
        }),
{
    let bytes = monitor_store_key_bytes(store_key, user_id);
    let other_bytes = monitor_store_key_bytes(other_store_key, other_user_id);
    let k = encode_utf8(store_key);
    let u = encode_utf8(user_id);
    let other_k = encode_utf8(other_store_key);
    let other_u = encode_utf8(other_user_id);
    if bytes == other_bytes {
        assert(k =~= bytes.take(k.len() as int));
        assert(other_k =~= other_bytes.take(other_k.len() as int));
        assert(u =~= bytes.skip(bytes.len() - u.len()));
        assert(other_u =~= other_bytes.skip(other_bytes.len() - other_u.len()));
        encode_utf8_decode_utf8(store_key);
        encode_utf8_decode_utf8(other_store_key);
        encode_utf8_decode_utf8(user_id);
        encode_utf8_decode_utf8(other_user_id);
    }
}

/// The path of the store of the sender, one segment after another.
pub open spec fn sender_store_path(store_dir: Seq<char>) -> Seq<Seq<char>> {
    seq![store_dir, "sender"@]
}

/// The path of the store of the delivery monitor for a user, one segment after
/// another: the last names the user by the beginning of a digest.
pub open spec fn monitor_store_path(store_dir: Seq<char>, user_id: Seq<char>) -> Seq<Seq<char>> {
    seq![
        store_dir,
        "monitor"@,
        digest::hex_sha256(encode_utf8(user_id)).take(STORE_NAME_LENGTH as int),
    ]
}

/// The directory of the sender's store, as the segments of its path.
pub fn sender_store_directory(store_dir: &str) -> (path: Vec<String>)
    ensures
        path.deep_view() == sender_store_path(store_dir@),
{
    let path: Vec<String> = vec![store_dir.to_owned(), "sender".to_owned()];
    assert(path.deep_view() =~= sender_store_path(store_dir@));
    path
}

/// The directory of the delivery monitor's store, as the segments of its path.
pub fn monitor_store_directory(store_dir: &str, user_id: &str) -> (path: Vec<String>)
    ensures
        path.deep_view() == monitor_store_path(store_dir@, user_id@),
{
    let name = hex_digest(user_id.as_bytes());
    proof {
        digest::lemma_hex_text_prefix(digest::sha256(encode_utf8(user_id@)), STORE_NAME_LENGTH as int);
    }
    let path: Vec<String> = vec![
        store_dir.to_owned(),
        "monitor".to_owned(),
        take_bytes(name.as_str(), STORE_NAME_LENGTH).to_owned(),
    ];
    assert(path.deep_view() =~= monitor_store_path(store_dir@, user_id@));
    path
}

/// Sender and monitor have stores of their own: neither path leads to the other's
/// store, whatever the users.
pub proof fn law_stores_are_separate(store_dir: Seq<char>, user_id: Seq<char>)
    ensures
        sender_store_path(store_dir)[0] == monitor_store_path(store_dir, user_id)[0],
        sender_store_path(store_dir)[1] != monitor_store_path(store_dir, user_id)[1],
{
    reveal_strlit("sender");
    reveal_strlit("monitor");
    assert("sender"@.len() != "monitor"@.len());
}

} // verus!
