use apex_tux::Clock;
use apex_tux::ClockFormat;
use apex_tux::CoreProps;
use apex_tux::HandleRegistration;
use apex_tux::Target;
use apex_tux::Time;
use apex_tux::is_supported_device;
use apex_tux::providers::clock_format_from_config;

#[test]
fn clock_format_follows_the_configuration() {
    assert_eq!(clock_format_from_config(Some(true)), ClockFormat::Twelve);
    assert_eq!(clock_format_from_config(Some(false)), ClockFormat::TwentyFour);
    assert_eq!(clock_format_from_config(None), ClockFormat::Locale);
}

#[test]
fn clock_pattern_matches_the_format() {
    assert_eq!(Clock::new(ClockFormat::Twelve).format_pattern(), "%I:%M:%S %p");
    assert_eq!(Clock::new(ClockFormat::TwentyFour).format_pattern(), "%H:%M:%S");
    assert_eq!(Clock::new(ClockFormat::Locale).format_pattern(), "%X");
}

#[test]
fn currency_names_parse_exactly() {
    assert_eq!(Target::parse("USD").unwrap(), Target::Usd);
    assert_eq!(Target::parse("usd").unwrap(), Target::Usd);
    assert_eq!(Target::parse("dollar").unwrap(), Target::Usd);
    assert_eq!(Target::parse("eur").unwrap(), Target::Eur);
    assert_eq!(Target::parse("EUR").unwrap(), Target::Eur);
    assert_eq!(Target::parse("euro").unwrap(), Target::Eur);
    assert_eq!(Target::parse("Euro").unwrap(), Target::Eur);
    assert_eq!(Target::parse("gbp").unwrap(), Target::Gbp);
    assert_eq!(Target::parse("GBP").unwrap(), Target::Gbp);
    assert!(Target::parse("yen").is_err());
    assert!(Target::parse("").is_err());
    assert_eq!(Target::default_target(), Target::Usd);
}

#[test]
fn prices_carry_the_currency_symbol() {
    assert_eq!(Target::Usd.format("123.45"), "$123.45");
    assert_eq!(Target::Eur.format("67"), "67\u{20ac}");
    assert_eq!(Target::Gbp.format("9"), "\u{a3}9");
}

#[test]
fn time_record_keeps_its_fields() {
    let t = Time::new("a".to_string(), "b".to_string(), "c".to_string());
    assert_eq!(t.updated, "a");
    assert_eq!(t.updated_iso, "b");
    assert_eq!(t.updateduk, "c");
}

#[test]
fn engine_registration_defaults_identify_the_program() {
    let r = HandleRegistration::default();
    assert_eq!(r.game, "apex-tux");
    assert_eq!(r.game_display_name, "apex-tux");
    assert_eq!(r.developer, "not-jan");
    let props = CoreProps { address: "127.0.0.1:3650".to_string() };
    assert_eq!(props.address, "127.0.0.1:3650");
}

#[test]
fn only_known_products_on_the_display_interface_are_supported() {
    for product in [0x1614u16, 0x1612, 0x1610, 0x1618, 0x161C] {
        assert!(is_supported_device(0x1038, product, 1));
        assert!(!is_supported_device(0x1038, product, 0));
        assert!(!is_supported_device(0x1039, product, 1));
    }
    assert!(!is_supported_device(0x1038, 0x1615, 1));
}
