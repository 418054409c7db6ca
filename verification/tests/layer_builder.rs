use tracing_etw::layer::DEFAULT_KEYWORD;
use tracing_etw::{CommonSchemaProvider, GuidWrapper, LayerBuilder, Provider};
use tracing_subscriber::filter::{LevelFilter, Targets};

fn directives(t: &Targets) -> Vec<(String, LevelFilter)> {
    let mut v: Vec<(String, LevelFilter)> = t.iter().map(|(n, l)| (n.to_string(), l)).collect();
    v.sort_by(|a, b| a.0.cmp(&b.0));
    v
}

#[test]
fn new_derives_provider_id_from_name() {
    let b = LayerBuilder::new("MyProvider");
    assert_eq!(b.get_provider_id().to_u128(), 0xb3864c38_4273_58c5_545b_8b3608343471);
    assert_eq!(GuidWrapper::from_name("MyProvider").to_u128(), 0xb3864c38_4273_58c5_545b_8b3608343471);
}

#[test]
fn provider_id_from_name_ignores_case() {
    assert_eq!(
        GuidWrapper::from_name("myprovider").to_u128(),
        GuidWrapper::from_name("MYPROVIDER").to_u128()
    );
}

#[test]
fn new_starts_with_defaults() {
    let b = LayerBuilder::new("MyProvider");
    assert_eq!(b.provider_name(), "MyProvider");
    assert_eq!(b.provider_group(), None);
    assert_eq!(b.default_keyword(), 1);
    assert_eq!(DEFAULT_KEYWORD, 1);
    assert!(b.config_is_valid());
}

#[test]
fn common_schema_builder_matches_native_builder() {
    let a = LayerBuilder::new("Some_Provider");
    let b = LayerBuilder::new_common_schema_events("Some_Provider");
    assert_eq!(a.get_provider_id(), b.get_provider_id());
    assert_eq!(a.provider_name(), b.provider_name());
    assert_eq!(a.provider_group(), b.provider_group());
    assert_eq!(a.default_keyword(), b.default_keyword());
}

#[test]
fn with_name_and_id_keeps_given_id() {
    let id = GuidWrapper::from_u128(42);
    let b = LayerBuilder::<Provider>::with_name_and_id("Name", id);
    assert_eq!(b.get_provider_id().to_u128(), 42);
    assert_eq!(b.provider_name(), "Name");
    assert_eq!(b.default_keyword(), 1);
}

#[test]
fn with_provider_id_replaces_only_the_id() {
    let b = LayerBuilder::new("MyProvider")
        .with_default_keyword(7)
        .with_provider_id(&GuidWrapper::from_u128(0x1234));
    assert_eq!(b.get_provider_id().to_u128(), 0x1234);
    assert_eq!(b.provider_name(), "MyProvider");
    assert_eq!(b.default_keyword(), 7);
}

#[test]
fn with_default_keyword_sets_keyword() {
    let b = LayerBuilder::new("P").with_default_keyword(0x8000_0000_0000_0001);
    assert_eq!(b.default_keyword(), 0x8000_0000_0000_0001);
    assert_eq!(b.get_provider_id().to_u128(), GuidWrapper::from_name("P").to_u128());
}

#[test]
fn settings_commute_and_last_write_wins() {
    let a = LayerBuilder::new("P")
        .with_provider_id(&GuidWrapper::from_u128(1))
        .with_default_keyword(5)
        .with_provider_group("g1")
        .with_provider_id(&GuidWrapper::from_u128(2))
        .with_provider_group("g2");
    let b = LayerBuilder::new("P")
        .with_provider_group("g2")
        .with_default_keyword(5)
        .with_provider_id(&GuidWrapper::from_u128(2));
    assert_eq!(a.get_provider_id(), b.get_provider_id());
    assert_eq!(a.default_keyword(), b.default_keyword());
    assert_eq!(a.provider_group(), Some("g2"));
    assert_eq!(b.provider_group(), Some("g2"));
}

#[test]
fn with_provider_group_sets_group() {
    let b = LayerBuilder::new_common_schema_events("P").with_provider_group("mygroup");
    assert_eq!(b.provider_group(), Some("mygroup"));
}

#[test]
fn config_is_valid_accepts_lowercase_alphanumeric_groups() {
    assert!(LayerBuilder::new("P").with_provider_group("mygroup2").config_is_valid());
    assert!(LayerBuilder::new("P").with_provider_group("").config_is_valid());
    assert!(LayerBuilder::new("P").with_provider_group("0123456789abcdefghijklmnopqrstuvwxyz").config_is_valid());
}

#[test]
fn config_is_valid_rejects_other_groups() {
    assert!(!LayerBuilder::new("P").with_provider_group("MyGroup").config_is_valid());
    assert!(!LayerBuilder::new("P").with_provider_group("my_group").config_is_valid());
    assert!(!LayerBuilder::new("P").with_provider_group("my group").config_is_valid());
    assert!(!LayerBuilder::new_common_schema_events("P").with_provider_group("gr\u{e9}").config_is_valid());
}

#[test]
fn validate_config_accepts_valid_configs() {
    LayerBuilder::new("P").validate_config();
    let b = LayerBuilder::new("P").with_provider_group("grp1");
    b.validate_config();
    assert_eq!(b.provider_group(), Some("grp1"));
}

#[test]
fn validity_ignores_id_and_keyword() {
    let b = LayerBuilder::new("P").with_provider_group("Bad");
    let c = LayerBuilder::new("P").with_provider_group("Bad").with_default_keyword(3).with_provider_id(&GuidWrapper::from_u128(9));
    assert_eq!(b.config_is_valid(), c.config_is_valid());
    assert!(!c.config_is_valid());
}

#[test]
fn target_filter_enables_provider_name() {
    let b = LayerBuilder::<CommonSchemaProvider>::new_common_schema_events("MyProvider");
    let t = b.build_target_filter("");
    assert_eq!(directives(&t), vec![("MyProvider".to_string(), LevelFilter::TRACE)]);
}

#[test]
fn target_filter_adds_group_and_target() {
    let b = LayerBuilder::new("MyProvider").with_provider_group("mygroup");
    let t = b.build_target_filter("my_crate");
    assert_eq!(
        directives(&t),
        vec![
            ("MyProvider".to_string(), LevelFilter::TRACE),
            ("my_crate".to_string(), LevelFilter::TRACE),
            ("mygroup".to_string(), LevelFilter::TRACE),
        ]
    );
    assert!(t.would_enable("my_crate::module", &tracing::Level::TRACE));
    assert!(!t.would_enable("other_crate", &tracing::Level::ERROR));
}

#[test]
fn target_filter_keeps_one_directive_per_target() {
    let b = LayerBuilder::new("same").with_provider_group("same");
    let t = b.build_target_filter("same");
    assert_eq!(directives(&t), vec![("same".to_string(), LevelFilter::TRACE)]);
}

#[test]
fn target_filter_has_no_default_level() {
    let t = LayerBuilder::new("MyProvider").with_provider_group("grp").build_target_filter("my_crate");
    assert_eq!(t.default_level(), None);
    assert!(!t.would_enable("unrelated", &tracing::Level::ERROR));
    let t = LayerBuilder::new("MyProvider").build_target_filter("");
    assert_eq!(t.default_level(), None);
}
