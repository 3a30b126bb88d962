//! Reading the configuration file.

use zendure::address::IpAddress;
use zendure::clock::Weekday;
use zendure::config::{
    Config, DeviceConfig, MeterConfig, MqttConfig, ShellyConfig, SolarPhase, WebConfig,
    DEFAULT_JOURNAL_PATH, DEFAULT_RTE_STATE_PATH,
};
use zendure::units::{
    Duration, Efficiency, GridPower, PowerMargin, RetentionDays, Soc, SolarPower, WattHours, Watts,
};

/// Every connection setting is unmistakable, so that one showing up where it
/// should not is visible rather than plausible.
fn config() -> Config {
    Config {
        mqtt: Some(MqttConfig {
            host: "SECRET-HOST".to_string(),
            port: 1883,
            username: Some("SECRET-USER".to_string()),
            password: Some("SECRET-PASSWORD".to_string()),
            client_id: "SECRET-CLIENT".to_string(),
        }),
        device: DeviceConfig::Zendure {
            ip: "SECRET-IP".to_string(),
            sn: "SECRET-SERIAL".to_string(),
            poll_interval: Duration::from_secs(30),
        },
        shelly: Some(ShellyConfig {
            topic: "SECRET-TOPIC".to_string(),
            solar_phase: SolarPhase::A,
        }),
        meter: MeterConfig::Shelly,
        web: None,
        ha_publish_prefix: "SECRET-PREFIX".to_string(),
        charge_margin: PowerMargin::new(50),
        discharge_margin: PowerMargin::new(5),
        charge_start_threshold: GridPower { mw: -100_000 },
        discharge_start_threshold: GridPower { mw: 0 },
        min_mode_duration: Duration::from_secs(10),
        min_decision_interval: Duration::from_secs(5),
        idle_timeout: Duration::from_secs(300),
        cycle_warn_threshold: 200,
        min_soc: Soc::new(10),
        max_soc: Soc::new(100),
        rte_state_path: "/SECRET/rte_state.json".to_string(),
        balance_weekday: Some(Weekday::Mon),
        solar_discharge_block_threshold: SolarPower { mw: 0 },
        min_idle_before_discharge: Duration::from_secs(300),
        timezone: "UTC".to_string(),
        mqtt_timeout: Duration::from_secs(60),
        journal_path: "/SECRET/journal.db".to_string(),
        journal_retention_days: RetentionDays::new(90).unwrap(),
        log_filter: "zendure=info".to_string(),
    }
}

#[test]
fn the_session_config_matches_what_the_controller_was_built_with() {
    let config = config();
    let session = config.session();

    assert_eq!(session.charge_margin, config.charge_margin);
    assert_eq!(session.discharge_margin, config.discharge_margin);
    assert_eq!(session.charge_start_threshold, config.charge_start_threshold);
    assert_eq!(session.discharge_start_threshold, config.discharge_start_threshold);
    assert_eq!(session.min_soc, config.min_soc);
    assert_eq!(session.max_soc, config.max_soc);
    assert_eq!(session.balance_weekday, config.balance_weekday);
    assert_eq!(session.cycle_warn_threshold, config.cycle_warn_threshold);
    assert_eq!(
        session.solar_discharge_block_threshold,
        config.solar_discharge_block_threshold
    );
    assert_eq!(session.min_mode_duration_secs, config.min_mode_duration.as_secs());
    assert_eq!(session.min_decision_interval_secs, config.min_decision_interval.as_secs());
    assert_eq!(session.idle_timeout_secs, config.idle_timeout.as_secs());
    assert_eq!(
        session.min_idle_before_discharge_secs,
        config.min_idle_before_discharge.as_secs()
    );
    assert_eq!(session.mqtt_timeout_secs, config.mqtt_timeout.as_secs());
}

/// What is recorded with a session says nothing of how to reach a device.
#[test]
fn the_session_config_carries_no_connection_settings() {
    let shown = format!("{:?}", config().session());
    for secret in [
        "SECRET-HOST",
        "SECRET-USER",
        "SECRET-PASSWORD",
        "SECRET-CLIENT",
        "SECRET-IP",
        "SECRET-SERIAL",
        "SECRET-TOPIC",
        "SECRET-PREFIX",
        "/SECRET/journal.db",
        "/SECRET/rte_state.json",
    ] {
        assert!(!shown.contains(secret), "{secret} leaked into {shown}");
    }
}

/// Where a dashboard is served is no matter of a decision.
#[test]
fn web_never_leaks_into_session_config() {
    let toml = format!("{}\n[web]\nport = 9999\n", minimal_toml());
    let (config, _) = Config::from_toml_str(&toml).unwrap();
    let shown = format!("{:?}", config.session());
    assert!(!shown.contains("9999"), "{shown}");
}

// --- `from_toml_str` --------------------------------------------------------

/// The smallest file that satisfies every fatal requirement: a host, one
/// zendure device, and a Shelly topic. Every test below starts here and
/// changes exactly the one thing it means to test, so a failure is never
/// ambiguous about which knob caused it.
fn minimal_toml() -> String {
    r#"
        [mqtt]
        host = "127.0.0.1"

        [[device]]
        kind = "zendure"
        ip = "192.168.1.253"
        sn = "SN123"
        poll_interval_secs = 10

        [shelly]
        topic = "shellypro3em/status/em:0"
    "#
    .to_string()
}

#[test]
fn missing_mqtt_host_is_fatal() {
    // `[mqtt]` present (so the "absent" coherence check below does not fire
    // first) but empty, so the field-level check is what's being pinned.
    let toml = r#"
        [mqtt]

        [[device]]
        kind = "zendure"
        ip = "192.168.1.253"
        sn = "SN123"
        poll_interval_secs = 10

        [shelly]
        topic = "x"
    "#;
    let err = Config::from_toml_str(toml).err().unwrap();
    assert!(err.contains("mqtt.host"), "{err}");
}

/// The coherence check `missing_mqtt_host_is_fatal` deliberately routes
/// around: no `[mqtt]` table at all, with the default (Shelly) meter, is
/// fatal — the Shelly reading arrives over MQTT, so there is nothing for the
/// engine to decide against without a broker.
#[test]
fn a_shelly_meter_with_no_mqtt_table_is_fatal() {
    let toml = r#"
        [[device]]
        kind = "zendure"
        ip = "192.168.1.253"
        sn = "SN123"
        poll_interval_secs = 10

        [shelly]
        topic = "x"
    "#;
    let err = Config::from_toml_str(toml).err().unwrap();
    assert!(err.contains("[mqtt]"), "{err}");
}

#[test]
fn missing_shelly_topic_is_fatal() {
    let toml = r#"
        [mqtt]
        host = "127.0.0.1"

        [[device]]
        kind = "zendure"
        ip = "192.168.1.253"
        sn = "SN123"
        poll_interval_secs = 10
    "#;
    let err = Config::from_toml_str(toml).err().unwrap();
    assert!(err.contains("shelly.topic"), "{err}");
}

#[test]
fn missing_device_ip_is_fatal() {
    let toml = r#"
        [mqtt]
        host = "127.0.0.1"

        [[device]]
        kind = "zendure"
        sn = "SN123"
        poll_interval_secs = 10

        [shelly]
        topic = "x"
    "#;
    let err = Config::from_toml_str(toml).err().unwrap();
    assert!(err.contains("device.ip"), "{err}");
}

#[test]
fn missing_device_sn_is_fatal() {
    let toml = r#"
        [mqtt]
        host = "127.0.0.1"

        [[device]]
        kind = "zendure"
        ip = "192.168.1.253"
        poll_interval_secs = 10

        [shelly]
        topic = "x"
    "#;
    let err = Config::from_toml_str(toml).err().unwrap();
    assert!(err.contains("device.sn"), "{err}");
}

#[test]
fn a_wrong_typed_connection_setting_is_fatal() {
    let toml = r#"
        [mqtt]
        host = "127.0.0.1"
        port = "1883"

        [[device]]
        kind = "zendure"
        ip = "192.168.1.253"
        sn = "SN123"
        poll_interval_secs = 10

        [shelly]
        topic = "x"
    "#;
    let err = Config::from_toml_str(toml).err().unwrap();
    assert!(err.contains("mqtt.port"), "{err}");
}

#[test]
fn a_non_table_tuning_section_is_fatal_not_fourteen_defaults() {
    // `tuning = "x"` has to come before any `[table]` header: once one is
    // open, a bare key without its own header is a key of *that* table, not
    // of the root — the same reason `minimal_toml()` can't just be appended
    // to here the way the lenient-knob tests below append to it.
    let toml = format!("tuning = \"x\"\n{}", minimal_toml());
    let err = Config::from_toml_str(&toml).err().unwrap();
    assert!(err.contains("tuning"), "{err}");
}

#[test]
fn a_wrong_typed_tuning_knob_warns_and_defaults() {
    let toml = format!("{}\n[tuning]\nmax_soc = \"eighty\"\n", minimal_toml());
    let (config, warnings) = Config::from_toml_str(&toml).unwrap();
    assert_eq!(config.max_soc, Soc::new(100));
    assert_eq!(warnings.len(), 1, "{warnings:?}");
    assert!(warnings[0].contains("tuning.max_soc"), "{warnings:?}");
}

#[test]
fn an_unknown_key_warns_and_an_unknown_table_does_not_cascade() {
    let toml = format!(
        "{}\n[tuning]\nmni_soc = 5\n\n[extra_stuff]\nfoo = 1\nbar = 2\n",
        minimal_toml()
    );
    let (_, warnings) = Config::from_toml_str(&toml).unwrap();
    assert_eq!(warnings.len(), 2, "{warnings:?}");
    assert!(
        warnings.iter().any(|w| w.contains("tuning.mni_soc")),
        "{warnings:?}"
    );
    assert!(
        warnings.iter().any(|w| w.contains("extra_stuff")
            && !w.contains("extra_stuff.foo")
            && !w.contains("extra_stuff.bar")),
        "{warnings:?}"
    );
}

#[test]
fn retention_days_zero_warns_and_keeps_ninety() {
    let toml = format!("{}\n[journal]\nretention_days = 0\n", minimal_toml());
    let (config, warnings) = Config::from_toml_str(&toml).unwrap();
    assert_eq!(
        config.journal_retention_days,
        RetentionDays::new(90).unwrap()
    );
    assert!(
        warnings
            .iter()
            .any(|w| w.contains("journal.retention_days")),
        "{warnings:?}"
    );
}

#[test]
fn retention_days_negative_warns_and_keeps_ninety() {
    let toml = format!("{}\n[journal]\nretention_days = -5\n", minimal_toml());
    let (config, warnings) = Config::from_toml_str(&toml).unwrap();
    assert_eq!(
        config.journal_retention_days,
        RetentionDays::new(90).unwrap()
    );
    assert!(
        warnings
            .iter()
            .any(|w| w.contains("journal.retention_days")),
        "{warnings:?}"
    );
}

#[test]
fn invalid_toml_is_fatal() {
    assert!(Config::from_toml_str("this is [ not valid").is_err());
}

/// TOML distinguishes integers from floats, and a whole number in a threshold
/// must not land on the wrong branch of that distinction.
#[test]
fn an_integer_parses_where_a_float_is_expected() {
    let as_integer = format!(
        "{}\n[tuning]\ncharge_start_threshold = -100\n",
        minimal_toml()
    );
    let as_float = format!(
        "{}\n[tuning]\ncharge_start_threshold = -100.0\n",
        minimal_toml()
    );

    let (from_int, int_warnings) = Config::from_toml_str(&as_integer).unwrap();
    let (from_float, float_warnings) = Config::from_toml_str(&as_float).unwrap();

    assert_eq!(from_int.charge_start_threshold, GridPower { mw: -100_000 });
    assert_eq!(from_float.charge_start_threshold, GridPower { mw: -100_000 });
    assert_eq!(int_warnings, Vec::<String>::new(), "{int_warnings:?}");
    assert_eq!(float_warnings, Vec::<String>::new(), "{float_warnings:?}");
}

#[test]
fn balance_weekday_accepts_a_weekday_and_every_spelling_of_off() {
    for (raw, expected) in [
        ("Tue", Some(Weekday::Tue)),
        ("none", None),
        ("None", None),
        ("off", None),
        ("OFF", None),
        ("", None),
    ] {
        let toml = format!(
            "{}\n[tuning]\nbalance_weekday = \"{raw}\"\n",
            minimal_toml()
        );
        let (config, warnings) = Config::from_toml_str(&toml).unwrap();
        assert_eq!(config.balance_weekday, expected, "raw={raw:?}");
        assert_eq!(warnings, Vec::<String>::new(), "raw={raw:?} {warnings:?}");
    }
}

#[test]
fn debug_redacts_the_password() {
    let toml = r#"
        [mqtt]
        host = "127.0.0.1"
        password = "hunter2"

        [[device]]
        kind = "zendure"
        ip = "192.168.1.253"
        sn = "SN123"
        poll_interval_secs = 10

        [shelly]
        topic = "x"
    "#;
    let (config, _) = Config::from_toml_str(toml).unwrap();
    let debug = config.describe();
    assert!(debug.contains("<redacted>"), "{debug}");
    assert!(!debug.contains("hunter2"), "{debug}");
}

// --- brokerless / virtual / synthetic ---------------------------------------

/// The smallest brokerless file: no `[mqtt]`, no `[shelly]`, a virtual device,
/// a synthetic meter. The mirror image of `minimal_toml()` — every test below
/// starts here and changes exactly one thing.
fn minimal_virtual_toml() -> String {
    r#"
        [[device]]
        kind = "virtual"
        id = "sim"
        packs = [10000.0]
        soc = 50
        charge_efficiency = 95.0
        discharge_efficiency = 95.0

        [meter]
        kind = "synthetic"
        base_load = 500
        solar_peak = 3000
    "#
    .to_string()
}

#[test]
fn a_brokerless_virtual_config_parses_with_zero_warnings() {
    let (config, warnings) = Config::from_toml_str(&minimal_virtual_toml()).unwrap();
    assert_eq!(warnings, Vec::<String>::new(), "{warnings:?}");
    assert!(config.mqtt.is_none());
    assert!(config.shelly.is_none());
    assert_eq!(
        config.meter,
        MeterConfig::Synthetic {
            base_load: Watts { w: 500 },
            solar_peak: Watts { w: 3000 },
        }
    );
    assert_eq!(
        config.device,
        DeviceConfig::Virtual {
            id: "sim".to_string(),
            packs: vec![WattHours::from_wh(10_000)],
            soc: Soc::new(50),
            charge_efficiency: Efficiency::new(95_000),
            discharge_efficiency: Efficiency::new(95_000),
        }
    );
}

#[test]
fn a_synthetic_meter_with_a_zendure_device_is_fatal() {
    let toml = r#"
        [[device]]
        kind = "zendure"
        ip = "192.168.1.253"
        sn = "SN123"
        poll_interval_secs = 10

        [meter]
        kind = "synthetic"
        base_load = 500
        solar_peak = 3000
    "#;
    let err = Config::from_toml_str(toml).err().unwrap();
    assert!(err.contains("synthetic"), "{err}");
    assert!(err.contains("virtual"), "{err}");
}

#[test]
fn an_unknown_meter_kind_is_fatal() {
    let toml = format!("{}\n[meter]\nkind = \"telepathic\"\n", minimal_toml());
    let err = Config::from_toml_str(&toml).err().unwrap();
    assert!(err.contains("meter.kind"), "{err}");
}

#[test]
fn missing_device_packs_is_fatal_for_a_virtual_device() {
    let toml = r#"
        [[device]]
        kind = "virtual"
        id = "sim"
        soc = 50
        charge_efficiency = 95.0
        discharge_efficiency = 95.0

        [meter]
        kind = "synthetic"
        base_load = 500
        solar_peak = 3000
    "#;
    let err = Config::from_toml_str(toml).err().unwrap();
    assert!(err.contains("device.packs"), "{err}");
}

#[test]
fn an_unknown_device_kind_is_still_fatal() {
    let toml = r#"
        [[device]]
        kind = "peblar"
        ip = "x"
        sn = "y"
        poll_interval_secs = 10

        [mqtt]
        host = "127.0.0.1"

        [shelly]
        topic = "x"
    "#;
    let err = Config::from_toml_str(toml).err().unwrap();
    assert!(err.contains("device.kind"), "{err}");
}

/// `[mqtt]` may still be configured for a synthetic meter — e.g. to publish
/// over a real broker while simulating the battery — so long as the device is
/// virtual. Only the *combination* "Shelly meter, no mqtt" and "synthetic
/// meter, non-virtual device" are refused.
#[test]
fn mqtt_alongside_a_synthetic_meter_is_allowed() {
    let toml = format!("[mqtt]\nhost = \"127.0.0.1\"\n\n{}", minimal_virtual_toml());
    let (config, warnings) = Config::from_toml_str(&toml).unwrap();
    assert_eq!(warnings, Vec::<String>::new(), "{warnings:?}");
    assert!(config.mqtt.is_some());
}

// --- `[web]` -----------------------------------------------------------------

#[test]
fn no_web_table_means_no_dashboard_server() {
    let (config, warnings) = Config::from_toml_str(&minimal_toml()).unwrap();
    assert_eq!(warnings, Vec::<String>::new(), "{warnings:?}");
    assert!(config.web.is_none());
}

#[test]
fn a_web_table_with_defaults_binds_localhost_8080() {
    let toml = format!("{}\n[web]\n", minimal_toml());
    let (config, warnings) = Config::from_toml_str(&toml).unwrap();
    assert_eq!(warnings, Vec::<String>::new(), "{warnings:?}");
    assert_eq!(
        config.web,
        Some(WebConfig {
            bind_address: IpAddress::V4(0x7f00_0001),
            port: 8080,
        })
    );
}

#[test]
fn a_web_table_overrides_bind_address_and_port() {
    let toml = format!(
        "{}\n[web]\nbind_address = \"0.0.0.0\"\nport = 9000\n",
        minimal_toml()
    );
    let (config, warnings) = Config::from_toml_str(&toml).unwrap();
    assert_eq!(warnings, Vec::<String>::new(), "{warnings:?}");
    assert_eq!(
        config.web,
        Some(WebConfig {
            bind_address: IpAddress::V4(0),
            port: 9000,
        })
    );
}

#[test]
fn an_unparseable_web_bind_address_is_fatal() {
    let toml = format!("{}\n[web]\nbind_address = \"not-an-ip\"\n", minimal_toml());
    let err = Config::from_toml_str(&toml).err().unwrap();
    assert!(err.contains("web.bind_address"), "{err}");
}

#[test]
fn a_wrong_typed_web_port_is_fatal() {
    let toml = format!("{}\n[web]\nport = \"9000\"\n", minimal_toml());
    let err = Config::from_toml_str(&toml).err().unwrap();
    assert!(err.contains("web.port"), "{err}");
}

/// Every setting at once, as a deployment would write them.
#[test]
fn a_full_file_is_read_setting_by_setting() {
    let toml = r#"
        [mqtt]
        host = "127.0.0.1"
        port = 1884
        username = "house"
        client_id = "odroid"

        [homeassistant]
        publish_prefix = "battery"

        [[device]]
        kind = "zendure"
        ip = "192.168.1.253"
        sn = "SN123"
        poll_interval_secs = 10

        [shelly]
        topic = "x"
        solar_phase = "B"

        [tuning]
        charge_margin = 40
        max_soc = 80
        balance_weekday = "Mon"
        solar_discharge_block_threshold = 200.0

        [journal]
        path = "/tmp/j.db"
        retention_days = 30
    "#;
    let (config, warnings) = Config::from_toml_str(toml).unwrap();
    assert_eq!(warnings, Vec::<String>::new());
    let mqtt = config.mqtt.unwrap();
    assert_eq!((mqtt.host.as_str(), mqtt.port), ("127.0.0.1", 1884));
    assert_eq!(mqtt.username.as_deref(), Some("house"));
    assert_eq!(mqtt.password, None);
    assert_eq!(mqtt.client_id, "odroid");
    assert_eq!(config.ha_publish_prefix, "battery");
    assert_eq!(config.device.identity(), "SN123");
    assert_eq!(config.device.poll_interval(), Duration::from_secs(10));
    assert_eq!(config.shelly.unwrap().solar_phase, SolarPhase::B);
    assert_eq!(config.charge_margin, PowerMargin::new(40));
    assert_eq!(config.max_soc, Soc::new(80));
    assert_eq!(config.balance_weekday, Some(Weekday::Mon));
    assert_eq!(config.solar_discharge_block_threshold, SolarPower { mw: 200_000 });
    assert_eq!(config.journal_path, "/tmp/j.db");
    assert_eq!(config.journal_retention_days, RetentionDays::new(30).unwrap());
    assert_eq!(config.rte_state_path, DEFAULT_RTE_STATE_PATH);
}

#[test]
fn what_a_file_leaves_out_has_its_default() {
    let (config, _) = Config::from_toml_str(&minimal_toml()).unwrap();
    assert_eq!(config.mqtt.unwrap().port, 1883);
    assert_eq!(config.charge_margin, PowerMargin::new(50));
    assert_eq!(config.discharge_margin, PowerMargin::new(5));
    assert_eq!(config.charge_start_threshold, GridPower { mw: -100_000 });
    assert_eq!(config.min_soc, Soc::new(10));
    assert_eq!(config.max_soc, Soc::new(100));
    assert_eq!(config.journal_path, DEFAULT_JOURNAL_PATH);
    assert_eq!(config.journal_retention_days, RetentionDays::new(90).unwrap());
    assert_eq!(config.log_filter, "zendure=info");
}

#[test]
fn an_address_of_either_family_is_read() {
    assert_eq!(zendure::address::parse("192.168.1.2"), Some(IpAddress::V4(0xc0a8_0102)));
    assert_eq!(zendure::address::parse("::1"), Some(IpAddress::V6(1)));
    assert_eq!(zendure::address::parse("1.2.3"), None);
    assert_eq!(zendure::address::parse("1.2.3.256"), None);
}

#[test]
fn a_configuration_is_shown_setting_by_setting() {
    let toml = format!("{}\n[web]\n", minimal_toml());
    let (config, _) = Config::from_toml_str(&toml).unwrap();
    assert_eq!(
        config.describe(),
        "Config { mqtt: Some(MqttConfig { host: \"127.0.0.1\", port: 1883, username: None, \
         password: None, client_id: \"zendure-controller\" }), device: Zendure { ip: \
         \"192.168.1.253\", sn: \"SN123\", poll_interval: 10s }, shelly: Some(ShellyConfig { \
         topic: \"shellypro3em/status/em:0\", solar_phase: A }), meter: Shelly, web: \
         Some(WebConfig { bind_address: 127.0.0.1, port: 8080 }), ha_publish_prefix: \
         \"zendure\", charge_margin: PowerMargin(50), discharge_margin: PowerMargin(5), \
         charge_start_threshold: GridPower(-100.0), discharge_start_threshold: GridPower(0.0), \
         min_mode_duration: 10s, min_decision_interval: 5s, idle_timeout: 300s, \
         cycle_warn_threshold: 200, min_soc: Soc(10), max_soc: Soc(100), balance_weekday: \
         Some(Mon), solar_discharge_block_threshold: SolarPower(0.0), \
         min_idle_before_discharge: 300s, timezone: UTC, mqtt_timeout: 60s, journal_path: \
         \"/var/lib/zendure/journal.db\", journal_retention_days: RetentionDays(90), \
         rte_state_path: \"/var/lib/zendure/rte_state.json\", log_filter: \"zendure=info\" }"
    );

    let (simulated, _) = Config::from_toml_str(&minimal_virtual_toml()).unwrap();
    let shown = simulated.describe();
    assert!(
        shown.contains(
            "Virtual { id: \"sim\", packs: [WattHours(10000.0)], soc: Soc(50), \
             charge_efficiency: Efficiency(95.0), discharge_efficiency: Efficiency(95.0) }"
        ),
        "{shown}"
    );
    assert!(
        shown.contains("Synthetic { base_load: Watts(500), solar_peak: Watts(3000) }"),
        "{shown}"
    );
}

#[test]
fn an_address_is_shown_in_its_short_form() {
    let shown = |address: &str| {
        let mut out = String::new();
        zendure::address::parse(address).unwrap().push_to(&mut out);
        out
    };
    assert_eq!(shown("192.168.1.2"), "192.168.1.2");
    assert_eq!(shown("::"), "::");
    assert_eq!(shown("0:0:0:0:0:0:0:1"), "::1");
    assert_eq!(shown("fe80:0:0:0:0:0:0:1"), "fe80::1");
    assert_eq!(shown("2001:DB8:0:0:1:0:0:0"), "2001:db8:0:0:1::");
    assert_eq!(shown("2001:db8:0:0:1:0:0:1"), "2001:db8::1:0:0:1");
    assert_eq!(shown("1:0:3:4:5:6:7:8"), "1:0:3:4:5:6:7:8");
    assert_eq!(shown("::ffff:10.0.0.1"), "::ffff:10.0.0.1");
    assert_eq!(shown("::1.2.3.4"), "::102:304");

    let toml = format!("{}\n[web]\nbind_address = \"::1\"\n", minimal_toml());
    let (config, _) = Config::from_toml_str(&toml).unwrap();
    assert!(config.describe().contains("bind_address: ::1, port: 8080"));
}

/// A wrong setting is complained of as `toml` does: a connection setting with a
/// line of its own, a knob in brackets.
#[test]
fn a_wrong_setting_says_what_was_expected() {
    let values = ["\"x\\n\"", "true", "1.5", "2.0", "[1]", "{ a = 1 }", "-1", "70000", "1979-05-27"];
    for value in values {
        let document = format!("v = {value}").parse::<toml::Table>().unwrap();
        let toml = format!("{}\n[web]\nport = {value}\n", minimal_toml());
        let expected = document["v"].clone().try_into::<u16>().unwrap_err();
        assert_eq!(Config::from_toml_str(&toml).err().unwrap(), format!("web.port: {expected}"));
    }
    for value in ["\"x\"", "true", "1.5", "-1", "5000000000", "[]"] {
        let document = format!("v = {value}").parse::<toml::Table>().unwrap();
        let toml = format!("{}\n[tuning]\ncycle_warn_threshold = {value}\n", minimal_toml());
        let expected = document["v"].clone().try_into::<u32>().unwrap_err().to_string();
        let (_, warnings) = Config::from_toml_str(&toml).unwrap();
        assert_eq!(
            warnings,
            vec![format!(
                "tuning.cycle_warn_threshold ignored ({}); keeping 200",
                expected.lines().next().unwrap(),
            )],
        );
    }
    let fatal = |section: &str| {
        Config::from_toml_str(&format!("{}\n{section}\n", minimal_toml())).err().unwrap()
    };
    assert_eq!(
        fatal("[web]\nbind_address = 5"),
        "web.bind_address: invalid type: integer `5`, expected IP address\n",
    );
    assert_eq!(
        fatal("[web]\nbind_address = \"x\""),
        "web.bind_address: invalid IP address syntax\n",
    );
    let warned = |section: &str| {
        Config::from_toml_str(&format!("{}\n{section}\n", minimal_toml())).unwrap().1
    };
    assert_eq!(
        warned("[journal]\npath = 5"),
        vec![
            "journal.path ignored (invalid type: integer `5`, expected path string); keeping \
             \"/var/lib/zendure/journal.db\""
        ],
    );
    assert_eq!(
        warned("[tuning]\ncharge_start_threshold = \"x\""),
        vec![
            "tuning.charge_start_threshold ignored (invalid type: string \"x\", expected f64); \
             keeping GridPower(-100.0)"
        ],
    );
}

/// A date is as good a text as any, where text is expected.
#[test]
fn a_date_is_read_as_text() {
    let toml = format!("{}\n[journal]\npath = 1979-05-27\n", minimal_toml());
    let (config, warnings) = Config::from_toml_str(&toml).unwrap();
    assert_eq!(warnings, Vec::<String>::new());
    assert_eq!(config.journal_path, "1979-05-27");
}

/// A threshold beyond every number is never passed, or always; one that is no
/// number compares with nothing.
#[test]
fn a_threshold_need_not_be_finite() {
    let thresholds = |value: &str| {
        let toml = format!(
            "{}\n[tuning]\ncharge_start_threshold = {value}\ndischarge_start_threshold = {value}\n\
             solar_discharge_block_threshold = {value}\n",
            minimal_toml()
        );
        let (config, warnings) = Config::from_toml_str(&toml).unwrap();
        assert_eq!(warnings, Vec::<String>::new());
        (
            config.charge_start_threshold.mw,
            config.discharge_start_threshold.mw,
            config.solar_discharge_block_threshold.mw,
            config.describe(),
        )
    };
    let (charge, discharge, solar, shown) = thresholds("inf");
    assert_eq!((charge, discharge, solar), (i64::MAX, i64::MAX, i64::MAX));
    assert!(shown.contains("charge_start_threshold: GridPower(inf)"), "{shown}");
    let (charge, discharge, solar, _) = thresholds("-inf");
    assert_eq!((charge, discharge, solar), (i64::MIN, i64::MIN, i64::MIN));
    let (charge, discharge, solar, _) = thresholds("nan");
    assert_eq!((charge, discharge, solar), (i64::MIN, i64::MAX, i64::MIN));
}
