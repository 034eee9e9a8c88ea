use factory_edge_agent::config::{default_ns, AgentConfig};
use factory_edge_agent::registry::{no_driver_message, refusal_message, BuildError, DriverRegistry};

type Ctor = fn(&AgentConfig) -> Result<String, String>;

fn config(driver: &str) -> AgentConfig {
    AgentConfig {
        gateway_url: "opc.tcp://127.0.0.1:4857/".to_owned(),
        machine_id: "howick-1".to_owned(),
        driver: driver.to_owned(),
        namespace_uri: default_ns(),
        extra: toml::Table::new(),
    }
}

fn howick(c: &AgentConfig) -> Result<String, String> {
    Ok(format!("howick driver for {}", c.machine_id))
}

fn other(c: &AgentConfig) -> Result<String, String> {
    Ok(format!("other driver for {}", c.machine_id))
}

fn refusing(_c: &AgentConfig) -> Result<String, String> {
    Err("missing usb_mount".to_owned())
}

#[test]
fn builtin_registry_supports_the_howick_frama() {
    let r: DriverRegistry<Ctor> = DriverRegistry::with_builtin_drivers(howick);
    assert_eq!(r.supported_kinds(), vec!["howick-frama"]);
    match r.build(&config("howick-frama")) {
        Ok(d) => assert_eq!(d, "howick driver for howick-1"),
        Err(_) => panic!("the howick-frama driver is registered"),
    }
}

#[test]
fn unknown_kind_is_refused_with_its_name() {
    let r: DriverRegistry<Ctor> = DriverRegistry::with_builtin_drivers(howick);
    match r.build(&config("laser-cutter")) {
        Err(BuildError::UnknownKind(k)) => {
            assert_eq!(k, "laser-cutter");
            assert_eq!(no_driver_message(&k), "no driver registered for kind 'laser-cutter'");
        },
        _ => panic!("laser-cutter is not registered"),
    }
}

#[test]
fn constructor_errors_come_through() {
    let mut r: DriverRegistry<Ctor> = DriverRegistry::with_builtin_drivers(howick);
    r.register("broken", refusing);
    match r.build(&config("broken")) {
        Err(BuildError::Constructor(e)) => assert_eq!(e, "missing usb_mount"),
        _ => panic!("the broken constructor refuses"),
    }
}

#[test]
fn register_then_build_uses_the_new_constructor() {
    let mut r: DriverRegistry<Ctor> = DriverRegistry::with_builtin_drivers(howick);
    r.register("saw", other);
    match r.build(&config("saw")) {
        Ok(d) => assert_eq!(d, "other driver for howick-1"),
        Err(_) => panic!("saw was registered"),
    }
    // The other kind keeps its constructor.
    match r.build(&config("howick-frama")) {
        Ok(d) => assert_eq!(d, "howick driver for howick-1"),
        Err(_) => panic!("howick-frama is still registered"),
    }
}

#[test]
fn reregistering_replaces_and_keeps_kinds() {
    let mut r: DriverRegistry<Ctor> = DriverRegistry::with_builtin_drivers(howick);
    r.register("howick-frama", other);
    assert_eq!(r.supported_kinds(), vec!["howick-frama"]);
    match r.build(&config("howick-frama")) {
        Ok(d) => assert_eq!(d, "other driver for howick-1"),
        Err(_) => panic!("howick-frama is registered"),
    }
}

#[test]
fn supported_kinds_are_sorted_like_str() {
    let mut r: DriverRegistry<Ctor> = DriverRegistry::with_builtin_drivers(howick);
    for k in ["zeta", "alpha", "mid", "alphabet", "Zulu", "\u{e9}clair", "alpha"] {
        r.register(k, other);
    }
    let kinds = r.supported_kinds();
    let mut expected = vec!["zeta", "alpha", "mid", "alphabet", "Zulu", "\u{e9}clair", "howick-frama"];
    expected.sort_unstable();
    assert_eq!(kinds, expected);
    assert_eq!(kinds, vec!["Zulu", "alpha", "alphabet", "howick-frama", "mid", "zeta", "\u{e9}clair"]);
}

#[test]
fn listing_does_not_depend_on_registration_order() {
    let mut a: DriverRegistry<Ctor> = DriverRegistry::with_builtin_drivers(howick);
    let mut b: DriverRegistry<Ctor> = DriverRegistry::with_builtin_drivers(howick);
    for k in ["c", "a", "b"] {
        a.register(k, other);
    }
    for k in ["b", "c", "a"] {
        b.register(k, other);
    }
    assert_eq!(a.supported_kinds(), b.supported_kinds());
}

#[test]
fn refusal_lists_the_supported_kinds() {
    let mut r: DriverRegistry<Ctor> = DriverRegistry::with_builtin_drivers(howick);
    r.register("saw", other);
    let m = refusal_message(&no_driver_message("laser"), &r.supported_kinds());
    assert_eq!(
        m,
        "no driver registered for kind 'laser' (this agent supports: [\"howick-frama\", \"saw\"])"
    );
    assert_eq!(refusal_message("bad", &Vec::new()), "bad (this agent supports: [])");
}

#[test]
fn the_default_driver_is_built_in() {
    let r: DriverRegistry<Ctor> = DriverRegistry::with_builtin_drivers(howick);
    let mut c = config("x");
    c.driver = factory_edge_agent::config::default_driver();
    assert!(r.build(&c).is_ok());
}
