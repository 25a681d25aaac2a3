use wayeyes::config::{setting_for, ConfigError, Field, Setting, Wayeyes};
use wayeyes::number::NumberFault;
use wayeyes::window::{Category, ShellKind, WindowDescriptor};

fn args(words: &[&str]) -> Vec<String> {
    words.iter().map(|w| w.to_string()).collect()
}

fn native() -> WindowDescriptor {
    WindowDescriptor { shell: Some(ShellKind::XdgShell) }
}

fn compat() -> WindowDescriptor {
    WindowDescriptor { shell: Some(ShellKind::Xwayland) }
}

#[test]
fn default_values() {
    let config = Wayeyes::default();
    assert_eq!(config.xdg.icon.as_deref(), Some("\u{f584}"));
    assert_eq!(config.xdg.tooltip.as_deref(), Some("wayland native"));
    assert_eq!(config.xdg.class.as_deref(), Some("wayland"));
    assert_eq!(config.xdg.percentage, 100);
    assert_eq!(config.xwayland.icon.as_deref(), Some("\u{f5a5}"));
    assert_eq!(config.xwayland.tooltip.as_deref(), Some("xwayland"));
    assert_eq!(config.xwayland.class.as_deref(), Some("xwayland"));
    assert_eq!(config.xwayland.percentage, 50);
    assert_eq!(config.unknown.icon.as_deref(), Some("\u{f567}"));
    assert_eq!(config.unknown.tooltip.as_deref(), Some("unknown"));
    assert_eq!(config.unknown.class.as_deref(), Some("unknown"));
    assert_eq!(config.unknown.percentage, 0);
    assert_eq!(
        config.format,
        "{\"text\" : \"{icon}\", \"tooltip\" : \"{tooltip}\", \"class\" : \"{class}\", \"percentage\" : \"{percentage}\" }"
    );
}

#[test]
fn default_native_line() {
    let config = Wayeyes::new_from_args(&[]).unwrap();
    assert_eq!(
        config.wayeyes_format(Some(&native())),
        "{\"text\" : \"\u{f584}\", \"tooltip\" : \"wayland native\", \"class\" : \"wayland\", \"percentage\" : \"100\" }"
    );
}

#[test]
fn default_lines_of_the_other_categories() {
    let config = Wayeyes::default();
    assert_eq!(
        config.wayeyes_format(Some(&compat())),
        "{\"text\" : \"\u{f5a5}\", \"tooltip\" : \"xwayland\", \"class\" : \"xwayland\", \"percentage\" : \"50\" }"
    );
    let unknown =
        "{\"text\" : \"\u{f567}\", \"tooltip\" : \"unknown\", \"class\" : \"unknown\", \"percentage\" : \"0\" }";
    assert_eq!(config.wayeyes_format(None), unknown);
    assert_eq!(
        config.wayeyes_format(Some(&WindowDescriptor { shell: None })),
        unknown
    );
    assert_eq!(
        config.wayeyes_format(Some(&WindowDescriptor { shell: Some(ShellKind::Other) })),
        unknown
    );
}

#[test]
fn no_arguments_give_the_defaults() {
    let config = Wayeyes::new_from_args(&[]).unwrap();
    let default = Wayeyes::default();
    assert_eq!(config.format, default.format);
    assert_eq!(config.xdg.icon, default.xdg.icon);
    assert_eq!(config.xwayland.percentage, 50);
    assert_eq!(config.unknown.class, default.unknown.class);
}

#[test]
fn xdg_percentage_override() {
    let config = Wayeyes::new_from_args(&args(&["--xdg-percentage", "42"])).unwrap();
    assert_eq!(
        config.wayeyes_format(Some(&native())),
        "{\"text\" : \"\u{f584}\", \"tooltip\" : \"wayland native\", \"class\" : \"wayland\", \"percentage\" : \"42\" }"
    );
    let default = Wayeyes::default();
    assert_eq!(config.xdg.percentage, 42);
    assert_eq!(config.xdg.icon, default.xdg.icon);
    assert_eq!(config.xdg.tooltip, default.xdg.tooltip);
    assert_eq!(config.xdg.class, default.xdg.class);
    assert_eq!(config.xwayland.icon, default.xwayland.icon);
    assert_eq!(config.xwayland.tooltip, default.xwayland.tooltip);
    assert_eq!(config.xwayland.class, default.xwayland.class);
    assert_eq!(config.xwayland.percentage, default.xwayland.percentage);
    assert_eq!(config.unknown.icon, default.unknown.icon);
    assert_eq!(config.unknown.tooltip, default.unknown.tooltip);
    assert_eq!(config.unknown.class, default.unknown.class);
    assert_eq!(config.unknown.percentage, default.unknown.percentage);
    assert_eq!(config.format, default.format);
}

#[test]
fn unknown_percentage_that_is_no_number_is_refused() {
    let outcome = Wayeyes::new_from_args(&args(&["--unknown-percentage", "abc"]));
    assert_eq!(
        outcome.err(),
        Some(ConfigError::InvalidPercentage(
            Category::Unknown,
            NumberFault::InvalidDigit
        ))
    );
}

#[test]
fn every_percentage_flag_names_its_category_in_the_error() {
    assert_eq!(
        Wayeyes::new_from_args(&args(&["--xdg-percentage", ""])).err(),
        Some(ConfigError::InvalidPercentage(Category::Xdg, NumberFault::Empty))
    );
    assert_eq!(
        Wayeyes::new_from_args(&args(&["--xwayland-percentage", "4294967296"])).err(),
        Some(ConfigError::InvalidPercentage(
            Category::Xwayland,
            NumberFault::Overflow
        ))
    );
    assert_eq!(
        Wayeyes::new_from_args(&args(&["--unknown-percentage", "-5"])).err(),
        Some(ConfigError::InvalidPercentage(
            Category::Unknown,
            NumberFault::InvalidDigit
        ))
    );
}

#[test]
fn an_error_after_good_overrides_gives_no_configuration() {
    let outcome = Wayeyes::new_from_args(&args(&[
        "--xdg-icon",
        "N",
        "--xdg-percentage",
        "x",
        "--xdg-class",
        "c",
    ]));
    assert_eq!(
        outcome.err(),
        Some(ConfigError::InvalidPercentage(
            Category::Xdg,
            NumberFault::InvalidDigit
        ))
    );
}

#[test]
fn an_argument_that_is_no_flag_is_refused() {
    assert_eq!(
        Wayeyes::new_from_args(&args(&["--bogus", "1"])).err(),
        Some(ConfigError::UnknownArgument("--bogus".to_string()))
    );
    assert_eq!(
        Wayeyes::new_from_args(&args(&["--bogus"])).err(),
        Some(ConfigError::UnknownArgument("--bogus".to_string()))
    );
    assert_eq!(
        Wayeyes::new_from_args(&args(&["--xdg-icon", "a", "b"])).err(),
        Some(ConfigError::UnknownArgument("b".to_string()))
    );
    assert_eq!(
        Wayeyes::new_from_args(&args(&["xdg-icon", "a"])).err(),
        Some(ConfigError::UnknownArgument("xdg-icon".to_string()))
    );
}

#[test]
fn a_flag_without_a_value_is_refused() {
    assert_eq!(
        Wayeyes::new_from_args(&args(&["--format"])).err(),
        Some(ConfigError::MissingValue("--format".to_string()))
    );
    assert_eq!(
        Wayeyes::new_from_args(&args(&["--xdg-icon", "a", "--unknown-percentage"])).err(),
        Some(ConfigError::MissingValue("--unknown-percentage".to_string()))
    );
}

#[test]
fn a_value_is_taken_as_it_is_even_if_it_looks_like_a_flag() {
    let config = Wayeyes::new_from_args(&args(&["--xdg-icon", "--format"])).unwrap();
    assert_eq!(config.xdg.icon.as_deref(), Some("--format"));
    assert_eq!(config.format, Wayeyes::default().format);
}

#[test]
fn every_flag_sets_its_own_value() {
    let config = Wayeyes::new_from_args(&args(&[
        "--format",
        "{icon}|{tooltip}|{class}|{percentage}",
        "--xdg-icon",
        "a",
        "--xdg-tooltip",
        "b",
        "--xdg-class",
        "c",
        "--xdg-percentage",
        "1",
        "--xwayland-icon",
        "d",
        "--xwayland-tooltip",
        "e",
        "--xwayland-class",
        "f",
        "--xwayland-percentage",
        "2",
        "--unknown-icon",
        "g",
        "--unknown-tooltip",
        "h",
        "--unknown-class",
        "i",
        "--unknown-percentage",
        "3",
    ]))
    .unwrap();
    assert_eq!(config.wayeyes_format(Some(&native())), "a|b|c|1");
    assert_eq!(config.wayeyes_format(Some(&compat())), "d|e|f|2");
    assert_eq!(config.wayeyes_format(None), "g|h|i|3");
}

#[test]
fn overrides_apply_in_any_order_and_the_last_one_wins() {
    let config = Wayeyes::new_from_args(&args(&[
        "--unknown-percentage",
        "9",
        "--xdg-class",
        "first",
        "--format",
        "{class}:{percentage}",
        "--xdg-class",
        "second",
    ]))
    .unwrap();
    assert_eq!(config.wayeyes_format(Some(&native())), "second:100");
    assert_eq!(config.wayeyes_format(None), "unknown:9");
}

#[test]
fn format_override_is_printed_verbatim() {
    let config = Wayeyes::new_from_args(&args(&["--format", "focus changed"])).unwrap();
    assert_eq!(config.wayeyes_format(Some(&native())), "focus changed");
    assert_eq!(config.wayeyes_format(None), "focus changed");
}

#[test]
fn setting_for_knows_the_thirteen_flags() {
    assert_eq!(setting_for("--format"), Some(Setting::Format));
    let categories = [
        ("xdg", Category::Xdg),
        ("xwayland", Category::Xwayland),
        ("unknown", Category::Unknown),
    ];
    let fields = [
        ("icon", Field::Icon),
        ("tooltip", Field::Tooltip),
        ("class", Field::Class),
        ("percentage", Field::Percentage),
    ];
    for (category_word, category) in categories {
        for (field_word, field) in fields {
            let flag = format!("--{}-{}", category_word, field_word);
            assert_eq!(setting_for(&flag), Some(Setting::Item(category, field)));
        }
    }
}

#[test]
fn setting_for_knows_nothing_else() {
    assert_eq!(setting_for(""), None);
    assert_eq!(setting_for("--"), None);
    assert_eq!(setting_for("format"), None);
    assert_eq!(setting_for("--Format"), None);
    assert_eq!(setting_for("--format "), None);
    assert_eq!(setting_for("--xdg"), None);
    assert_eq!(setting_for("--xdg-text"), None);
    assert_eq!(setting_for("--wayland-icon"), None);
    assert_eq!(setting_for("-xdg-icon"), None);
}

#[test]
fn apply_changes_one_value() {
    let mut config = Wayeyes::default();
    assert_eq!(
        config.apply(Setting::Item(Category::Xwayland, Field::Tooltip), "legacy"),
        Ok(())
    );
    assert_eq!(config.xwayland.tooltip.as_deref(), Some("legacy"));
    assert_eq!(config.xwayland.class.as_deref(), Some("xwayland"));
    assert_eq!(config.xdg.tooltip.as_deref(), Some("wayland native"));
    assert_eq!(config.apply(Setting::Format, "{class}"), Ok(()));
    assert_eq!(config.format, "{class}");
}

#[test]
fn apply_leaves_the_configuration_alone_on_error() {
    let mut config = Wayeyes::default();
    assert_eq!(
        config.apply(Setting::Item(Category::Xdg, Field::Percentage), "12%"),
        Err(ConfigError::InvalidPercentage(
            Category::Xdg,
            NumberFault::InvalidDigit
        ))
    );
    assert_eq!(config.xdg.percentage, 100);
}

#[test]
fn item_picks_the_record_of_a_category() {
    let config = Wayeyes::default();
    assert_eq!(config.item(Category::Xdg).percentage, 100);
    assert_eq!(config.item(Category::Xwayland).percentage, 50);
    assert_eq!(config.item(Category::Unknown).percentage, 0);
}

#[test]
fn set_reads_a_percentage_and_keeps_a_text() {
    let mut record = Wayeyes::default().xdg;
    assert_eq!(record.set(Field::Percentage, "+7"), Ok(()));
    assert_eq!(record.percentage, 7);
    assert_eq!(record.set(Field::Percentage, ""), Err(NumberFault::Empty));
    assert_eq!(record.percentage, 7);
    assert_eq!(record.set(Field::Icon, "12%"), Ok(()));
    assert_eq!(record.icon.as_deref(), Some("12%"));
}

#[test]
fn messages() {
    assert_eq!(
        ConfigError::UnknownArgument("--bogus".to_string()).message(),
        "argument parse error: --bogus"
    );
    assert_eq!(
        ConfigError::MissingValue("--format".to_string()).message(),
        "missing value for --format"
    );
    assert_eq!(
        ConfigError::InvalidPercentage(Category::Xdg, NumberFault::InvalidDigit).message(),
        "xdg-percentage parsing error: invalid digit found in string"
    );
    assert_eq!(
        ConfigError::InvalidPercentage(Category::Xwayland, NumberFault::Empty).message(),
        "xwayland-percentage parsing error: cannot parse integer from empty string"
    );
    assert_eq!(
        ConfigError::InvalidPercentage(Category::Unknown, NumberFault::Overflow).message(),
        "unknown-percentage parsing error: number too large to fit in target type"
    );
}
