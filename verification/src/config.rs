//! Edge agent configuration: one file per box wired to a machine.
//!
//! ```toml
//! gateway_url   = "opc.tcp://gateway.local:4840/"
//! machine_id    = "howick-1"
//! driver        = "howick-frama"        # which driver this agent runs
//! namespace_uri = "http://joeblew999.github.io/factory-floor/"
//!
//! [howick]                       # the driver's own config (typed by the driver)
//! usb_mount       = "/mnt/usb_share"
//! ```
//!
//! The text is read and parsed by the program around this library; the
//! library holds the parsed configuration and picks the driver's own table.

use vstd::prelude::*;

verus! {

/// A TOML table of the `toml` crate (a map from keys to values).
#[verifier::external_type_specification]
#[verifier::external_body]
#[verifier::reject_recursive_types(K)]
#[verifier::reject_recursive_types(V)]
pub struct ExTomlMap<K, V>(toml::map::Map<K, V>);

/// A TOML value of the `toml` crate; carried through, never looked into.
#[verifier::external_type_specification]
#[verifier::external_body]
pub struct ExTomlValue(toml::Value);

/// The error of the `toml` crate's deserializer.
#[verifier::external_type_specification]
#[verifier::external_body]
pub struct ExTomlDeError(toml::de::Error);

/// The keys present in a TOML table.
pub uninterp spec fn table_keys(t: toml::map::Map<String, toml::Value>) -> Set<Seq<char>>;

/// The value stored in a TOML table under a key.
pub uninterp spec fn table_value(t: toml::map::Map<String, toml::Value>, key: Seq<char>) -> toml::Value;

/// Looks a key up with `toml::map::Map::get` and clones the value found.
/// The contract claims that a value comes back exactly when the key is one of
/// the table's keys, and that it is the value stored under that key.
#[verifier::external_body]
fn table_get(t: &toml::map::Map<String, toml::Value>, key: &str) -> (r: Option<toml::Value>)
    ensures
        r is Some <==> table_keys(*t).contains(key@),
        r matches Some(v) ==> v == table_value(*t, key@),
{
    t.get(key).cloned()
}

/// `Clone` of a TOML table (`toml::map::Map<String, toml::Value>`), which
/// clones the underlying map entry by entry. The contract claims that the
/// copy has the same keys, with the same value under each.
pub assume_specification[ <toml::map::Map<String, toml::Value> as Clone>::clone ](
    t: &toml::map::Map<String, toml::Value>,
) -> (r: toml::map::Map<String, toml::Value>)
    ensures
        table_keys(r) == table_keys(*t),
        forall|k: Seq<char>| table_keys(*t).contains(k) ==> table_value(r, k) == table_value(*t, k),
;

/// The TOML value is a table with no entries.
pub uninterp spec fn is_empty_table(v: toml::Value) -> bool;

/// Builds `toml::Value::Table(toml::Table::new())`. The contract claims that
/// the value is a table with no entries.
#[verifier::external_body]
fn empty_table_value() -> (v: toml::Value)
    ensures
        is_empty_table(v),
{
    toml::Value::Table(toml::map::Map::new())
}

/// Deserializes a TOML value into `T` with `toml::Value::try_into`. What comes
/// back depends on `T`'s `Deserialize` impl; nothing is stated of it.
#[verifier::external_body]
pub fn deserialize_value<T: serde::de::DeserializeOwned>(v: toml::Value) -> Result<T, toml::de::Error> {
    v.try_into()
}

/// The gateway namespace URI that a configuration without `namespace_uri` uses.
pub open spec fn spec_default_ns() -> Seq<char> {
    "http://joeblew999.github.io/factory-floor/"@
}

/// The default namespace URI of the factory gateway.
pub fn default_ns() -> (ns: String)
    ensures
        ns@ == spec_default_ns(),
{
    "http://joeblew999.github.io/factory-floor/".to_owned()
}

/// Why a driver's own configuration could not be read.
pub enum ConfigError {
    /// The driver's table does not fit the driver's typed config.
    DriverTable(toml::de::Error),
}

/// `r` is what reading a driver's config from `v` gives: an outcome of
/// deserializing `v` into `T`, with the deserializer's error wrapped as
/// `ConfigError::DriverTable`.
pub open spec fn deserialized_from<T: serde::de::DeserializeOwned>(v: toml::Value, r: Result<T, ConfigError>) -> bool {
    match r {
        Ok(t) => call_ensures(deserialize_value::<T>, (v,), Ok(t)),
        Err(ConfigError::DriverTable(e)) => call_ensures(deserialize_value::<T>, (v,), Err(e)),
    }
}

/// The driver kind of a configuration that names none: the Howick FRAMA.
pub open spec fn spec_default_driver() -> Seq<char> {
    "howick-frama"@
}

/// The driver kind that a configuration without `driver` runs.
pub fn default_driver() -> (d: String)
    ensures
        d@ == spec_default_driver(),
{
    "howick-frama".to_owned()
}

/// A parsed agent configuration.
#[derive(Debug, Clone)]
pub struct AgentConfig {
    /// OPC-UA endpoint of the factory-gateway.
    pub gateway_url: String,
    /// Which machine in the gateway this agent drives (the `Machines/<id>` key).
    pub machine_id: String,
    /// Which driver kind to run (matches a registered driver, e.g. `"howick-frama"`).
    pub driver: String,
    /// The gateway's namespace URI (to resolve the namespace index).
    pub namespace_uri: String,
    /// Driver-specific `[<key>]` tables (e.g. `[howick]`), opaque here and
    /// parsed by the driver's constructor.
    pub extra: toml::map::Map<String, toml::Value>,
}

impl AgentConfig {
    /// The TOML value handed to the driver's deserializer for `key`: the
    /// entry under `key` when there is one.
    pub fn driver_table(&self, key: &str) -> (r: Option<toml::Value>)
        ensures
            r is Some <==> table_keys(self.extra).contains(key@),
            r matches Some(v) ==> v == table_value(self.extra, key@),
    {
        table_get(&self.extra, key)
    }

    /// The driver-specific config table under `key` (e.g. `"howick"`),
    /// deserialized into the driver's typed config; an empty table when the
    /// configuration has none under `key`.
    pub fn driver_config<T: serde::de::DeserializeOwned>(&self, key: &str) -> (r: Result<T, ConfigError>)
        ensures
            table_keys(self.extra).contains(key@) ==> deserialized_from(table_value(self.extra, key@), r),
            !table_keys(self.extra).contains(key@) ==> exists|v: toml::Value|
                is_empty_table(v) && #[trigger] deserialized_from(v, r),
    {
        let ghost handed: toml::Value;
        let parsed = match self.driver_table(key) {
            Some(v) => {
                proof {
                    handed = v;
                }
                deserialize_value(v)
            },
            None => {
                let v = empty_table_value();
                proof {
                    handed = v;
                }
                deserialize_value(v)
            },
        };
        let r = match parsed {
            Ok(cfg) => Ok(cfg),
            Err(e) => Err(ConfigError::DriverTable(e)),
        };
        assert(deserialized_from(handed, r));
        r
    }
}

} // verus!
