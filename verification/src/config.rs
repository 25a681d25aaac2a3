//! The configuration: one record for each category of window and the
//! template, built from fixed defaults and command-line overrides.
use crate::number::{fault_text, parse_number, parsed_number, NumberFault};
use crate::output::{formatted, optional_text, ItemModel, OutputItem};
use crate::text::{text_eq, texts};
use crate::window::{category_of, classify, seen, Category, WindowDescriptor};
use vstd::prelude::*;
use vstd::string::StringExecFns;

verus! {

/// The records for the three categories, and the template for a line.
#[derive(Debug, Clone)]
pub struct Wayeyes {
    pub xdg: OutputItem,
    pub xwayland: OutputItem,
    pub unknown: OutputItem,
    pub format: String,
}

/// A [`Wayeyes`] as text.
pub struct ConfigModel {
    pub xdg: ItemModel,
    pub xwayland: ItemModel,
    pub unknown: ItemModel,
    pub format: Seq<char>,
}

impl ConfigModel {
    /// The record for a category.
    pub open spec fn item(self, category: Category) -> ItemModel {
        match category {
            Category::Xdg => self.xdg,
            Category::Xwayland => self.xwayland,
            Category::Unknown => self.unknown,
        }
    }

    /// This configuration with another record for one category.
    pub open spec fn with_item(self, category: Category, item: ItemModel) -> ConfigModel {
        match category {
            Category::Xdg => ConfigModel { xdg: item, ..self },
            Category::Xwayland => ConfigModel { xwayland: item, ..self },
            Category::Unknown => ConfigModel { unknown: item, ..self },
        }
    }
}

impl View for Wayeyes {
    type V = ConfigModel;

    open spec fn view(&self) -> ConfigModel {
        ConfigModel {
            xdg: self.xdg@,
            xwayland: self.xwayland@,
            unknown: self.unknown@,
            format: self.format@,
        }
    }
}

/// The template that is used unless `--format` gives another.
pub open spec fn default_template() -> Seq<char> {
    "{\"text\" : \"{icon}\", \"tooltip\" : \"{tooltip}\", \"class\" : \"{class}\", \"percentage\" : \"{percentage}\" }"@
}

/// The configuration before any override.
pub open spec fn default_config() -> ConfigModel {
    ConfigModel {
        xdg: ItemModel {
            icon: Some("\u{f584}"@),
            tooltip: Some("wayland native"@),
            class: Some("wayland"@),
            percentage: 100,
        },
        xwayland: ItemModel {
            icon: Some("\u{f5a5}"@),
            tooltip: Some("xwayland"@),
            class: Some("xwayland"@),
            percentage: 50,
        },
        unknown: ItemModel {
            icon: Some("\u{f567}"@),
            tooltip: Some("unknown"@),
            class: Some("unknown"@),
            percentage: 0,
        },
        format: default_template(),
    }
}

/// One of the four values of a record.
#[derive(Debug, Clone, Copy, PartialEq, Eq, Structural)]
pub enum Field {
    Icon,
    Tooltip,
    Class,
    Percentage,
}

/// What an override changes.
#[derive(Debug, Clone, Copy, PartialEq, Eq, Structural)]
pub enum Setting {
    /// The template.
    Format,
    /// One value of one category's record.
    Item(Category, Field),
}

/// The setting that a flag names, if it names one.
pub open spec fn setting_of(flag: Seq<char>) -> Option<Setting> {
    if flag == "--format"@ {
        Some(Setting::Format)
    } else if flag == "--xdg-icon"@ {
        Some(Setting::Item(Category::Xdg, Field::Icon))
    } else if flag == "--xdg-tooltip"@ {
        Some(Setting::Item(Category::Xdg, Field::Tooltip))
    } else if flag == "--xdg-class"@ {
        Some(Setting::Item(Category::Xdg, Field::Class))
    } else if flag == "--xdg-percentage"@ {
        Some(Setting::Item(Category::Xdg, Field::Percentage))
    } else if flag == "--xwayland-icon"@ {
        Some(Setting::Item(Category::Xwayland, Field::Icon))
    } else if flag == "--xwayland-tooltip"@ {
        Some(Setting::Item(Category::Xwayland, Field::Tooltip))
    } else if flag == "--xwayland-class"@ {
        Some(Setting::Item(Category::Xwayland, Field::Class))
    } else if flag == "--xwayland-percentage"@ {
        Some(Setting::Item(Category::Xwayland, Field::Percentage))
    } else if flag == "--unknown-icon"@ {
        Some(Setting::Item(Category::Unknown, Field::Icon))
    } else if flag == "--unknown-tooltip"@ {
        Some(Setting::Item(Category::Unknown, Field::Tooltip))
    } else if flag == "--unknown-class"@ {
        Some(Setting::Item(Category::Unknown, Field::Class))
    } else if flag == "--unknown-percentage"@ {
        Some(Setting::Item(Category::Unknown, Field::Percentage))
    } else {
        None
    }
}

/// Why a list of overrides gives no configuration.
#[derive(Debug, Clone, PartialEq, Eq)]
pub enum ConfigError {
    /// An argument stands where a flag is expected and is none.
    UnknownArgument(String),
    /// A flag is the last argument, with no value after it.
    MissingValue(String),
    /// The value given for a percentage is no number.
    InvalidPercentage(Category, NumberFault),
}

/// A [`ConfigError`] as text.
pub enum ConfigFault {
    UnknownArgument(Seq<char>),
    MissingValue(Seq<char>),
    InvalidPercentage(Category, NumberFault),
}

impl View for ConfigError {
    type V = ConfigFault;

    open spec fn view(&self) -> ConfigFault {
        match self {
            ConfigError::UnknownArgument(argument) => ConfigFault::UnknownArgument(argument@),
            ConfigError::MissingValue(flag) => ConfigFault::MissingValue(flag@),
            ConfigError::InvalidPercentage(category, fault) => ConfigFault::InvalidPercentage(
                *category,
                *fault,
            ),
        }
    }
}

/// The word for a category in flags and messages.
pub open spec fn category_word(category: Category) -> Seq<char> {
    match category {
        Category::Xdg => "xdg"@,
        Category::Xwayland => "xwayland"@,
        Category::Unknown => "unknown"@,
    }
}

/// The message for an error.
pub open spec fn message_text(fault: ConfigFault) -> Seq<char> {
    match fault {
        ConfigFault::UnknownArgument(argument) => "argument parse error: "@ + argument,
        ConfigFault::MissingValue(flag) => "missing value for "@ + flag,
        ConfigFault::InvalidPercentage(category, fault) => category_word(category)
            + "-percentage parsing error: "@ + fault_text(fault),
    }
}

/// A record with one value set from a text. Only a percentage can fail.
pub open spec fn item_with(item: ItemModel, field: Field, value: Seq<char>) -> Result<
    ItemModel,
    NumberFault,
> {
    match field {
        Field::Icon => Ok(ItemModel { icon: Some(value), ..item }),
        Field::Tooltip => Ok(ItemModel { tooltip: Some(value), ..item }),
        Field::Class => Ok(ItemModel { class: Some(value), ..item }),
        Field::Percentage => match parsed_number(value) {
            Ok(percentage) => Ok(ItemModel { percentage, ..item }),
            Err(fault) => Err(fault),
        },
    }
}

/// A configuration with one override applied.
pub open spec fn applied(config: ConfigModel, setting: Setting, value: Seq<char>) -> Result<
    ConfigModel,
    ConfigFault,
> {
    match setting {
        Setting::Format => Ok(ConfigModel { format: value, ..config }),
        Setting::Item(category, field) => match item_with(config.item(category), field, value) {
            Ok(item) => Ok(config.with_item(category, item)),
            Err(fault) => Err(ConfigFault::InvalidPercentage(category, fault)),
        },
    }
}

/// A configuration with a list of overrides applied in order. The list is
/// read in pairs of a flag and its value; the first pair that is wrong
/// decides the error, and nothing comes of the pairs before it.
pub open spec fn configured(config: ConfigModel, args: Seq<Seq<char>>) -> Result<
    ConfigModel,
    ConfigFault,
>
    decreases args.len(),
{
    if args.len() == 0 {
        Ok(config)
    } else {
        match setting_of(args[0]) {
            None => Err(ConfigFault::UnknownArgument(args[0])),
            Some(setting) => if args.len() < 2 {
                Err(ConfigFault::MissingValue(args[0]))
            } else {
                match applied(config, setting, args[1]) {
                    Ok(next) => configured(next, args.skip(2)),
                    Err(fault) => Err(fault),
                }
            },
        }
    }
}

/// An outcome of [`Wayeyes::new_from_args`] as text.
pub open spec fn outcome_model(outcome: Result<Wayeyes, ConfigError>) -> Result<
    ConfigModel,
    ConfigFault,
> {
    match outcome {
        Ok(config) => Ok(config@),
        Err(error) => Err(error@),
    }
}

/// Finds the setting that a flag names.
pub fn setting_for(flag: &str) -> (setting: Option<Setting>)
    ensures
        setting == setting_of(flag@),
{
    if text_eq(flag, "--format") {
        Some(Setting::Format)
    } else if text_eq(flag, "--xdg-icon") {
        Some(Setting::Item(Category::Xdg, Field::Icon))
    } else if text_eq(flag, "--xdg-tooltip") {
        Some(Setting::Item(Category::Xdg, Field::Tooltip))
    } else if text_eq(flag, "--xdg-class") {
        Some(Setting::Item(Category::Xdg, Field::Class))
    } else if text_eq(flag, "--xdg-percentage") {
        Some(Setting::Item(Category::Xdg, Field::Percentage))
    } else if text_eq(flag, "--xwayland-icon") {
        Some(Setting::Item(Category::Xwayland, Field::Icon))
    } else if text_eq(flag, "--xwayland-tooltip") {
        Some(Setting::Item(Category::Xwayland, Field::Tooltip))
    } else if text_eq(flag, "--xwayland-class") {
        Some(Setting::Item(Category::Xwayland, Field::Class))
    } else if text_eq(flag, "--xwayland-percentage") {
        Some(Setting::Item(Category::Xwayland, Field::Percentage))
    } else if text_eq(flag, "--unknown-icon") {
        Some(Setting::Item(Category::Unknown, Field::Icon))
    } else if text_eq(flag, "--unknown-tooltip") {
        Some(Setting::Item(Category::Unknown, Field::Tooltip))
    } else if text_eq(flag, "--unknown-class") {
        Some(Setting::Item(Category::Unknown, Field::Class))
    } else if text_eq(flag, "--unknown-percentage") {
        Some(Setting::Item(Category::Unknown, Field::Percentage))
    } else {
        None
    }
}

impl OutputItem {
    /// Sets one value from a text. A percentage that is no number leaves
    /// the record as it was.
    pub fn set(&mut self, field: Field, value: &str) -> (outcome: Result<(), NumberFault>)
        ensures
            match outcome {
                Ok(()) => item_with(old(self)@, field, value@) == Ok::<ItemModel, NumberFault>(
                    final(self)@,
                ),
                Err(fault) => item_with(old(self)@, field, value@) == Err::<
                    ItemModel,
                    NumberFault,
                >(fault) && *final(self) == *old(self),
            },
    {
        match field {
            Field::Icon => {
                self.icon = Some(value.to_owned());
                Ok(())
            },
            Field::Tooltip => {
                self.tooltip = Some(value.to_owned());
                Ok(())
            },
            Field::Class => {
                self.class = Some(value.to_owned());
                Ok(())
            },
            Field::Percentage => match parse_number(value) {
                Ok(percentage) => {
                    self.percentage = percentage;
                    Ok(())
                },
                Err(fault) => Err(fault),
            },
        }
    }
}

impl ConfigError {
    /// The message for this error.
    pub fn message(&self) -> (words: String)
        ensures
            words@ == message_text(self@),
    {
        match self {
            ConfigError::UnknownArgument(argument) => {
                let mut words = "argument parse error: ".to_owned();
                words.append(argument.as_str());
                words
            },
            ConfigError::MissingValue(flag) => {
                let mut words = "missing value for ".to_owned();
                words.append(flag.as_str());
                words
            },
            ConfigError::InvalidPercentage(category, fault) => {
                let mut words = match category {
                    Category::Xdg => "xdg".to_owned(),
                    Category::Xwayland => "xwayland".to_owned(),
                    Category::Unknown => "unknown".to_owned(),
                };
                words.append("-percentage parsing error: ");
                words.append(fault.describe());
                words
            },
        }
    }
}

impl Default for Wayeyes {
    /// The configuration before any override.
    fn default() -> (config: Self)
        ensures
            config@ == default_config(),
    {
        Wayeyes {
            xdg: OutputItem {
                icon: Some("\u{f584}".to_owned()),
                tooltip: Some("wayland native".to_owned()),
                class: Some("wayland".to_owned()),
                percentage: 100,
            },
            xwayland: OutputItem {
                icon: Some("\u{f5a5}".to_owned()),
                tooltip: Some("xwayland".to_owned()),
                class: Some("xwayland".to_owned()),
                percentage: 50,
            },
            unknown: OutputItem {
                icon: Some("\u{f567}".to_owned()),
                tooltip: Some("unknown".to_owned()),
                class: Some("unknown".to_owned()),
                percentage: 0,
            },
            format: "{\"text\" : \"{icon}\", \"tooltip\" : \"{tooltip}\", \"class\" : \"{class}\", \"percentage\" : \"{percentage}\" }".to_owned(),
        }
    }
}

impl Wayeyes {
    /// Applies one override. An error leaves the configuration as it was.
    pub fn apply(&mut self, setting: Setting, value: &str) -> (outcome: Result<(), ConfigError>)
        ensures
            match outcome {
                Ok(()) => applied(old(self)@, setting, value@) == Ok::<ConfigModel, ConfigFault>(
                    final(self)@,
                ),
                Err(error) => applied(old(self)@, setting, value@) == Err::<
                    ConfigModel,
                    ConfigFault,
                >(error@) && *final(self) == *old(self),
            },
    {
        match setting {
            Setting::Format => {
                self.format = value.to_owned();
                Ok(())
            },
            Setting::Item(category, field) => {
                let set = match category {
                    Category::Xdg => self.xdg.set(field, value),
                    Category::Xwayland => self.xwayland.set(field, value),
                    Category::Unknown => self.unknown.set(field, value),
                };
                match set {
                    Ok(()) => Ok(()),
                    Err(fault) => Err(ConfigError::InvalidPercentage(category, fault)),
                }
            },
        }
    }

    /// Builds the configuration from the defaults and a list of overrides:
    /// pairs of a flag and its value, applied in order. The first argument
    /// that is no flag, a flag without a value, or a percentage that is no
    /// number is an error, and then there is no configuration.
    pub fn new_from_args(args: &[String]) -> (outcome: Result<Self, ConfigError>)
        ensures
            outcome_model(outcome) == configured(default_config(), texts(args@)),
    {
        let mut wayeyes = Wayeyes::default();
        let ghost all = texts(args@);
        let mut i: usize = 0;
        assert(all.skip(0) =~= all);
        while i < args.len()
            invariant
                i <= args.len(),
                all == texts(args@),
                configured(default_config(), all) == configured(wayeyes@, all.skip(i as int)),
            decreases args.len() - i,
        {
            let ghost rest = all.skip(i as int);
            assert(rest[0] == args@[i as int]@);
            let flag = &args[i];
            let setting = match setting_for(flag.as_str()) {
                Some(setting) => setting,
                None => {
                    return Err(ConfigError::UnknownArgument(flag.clone()));
                },
            };
            if args.len() - i < 2 {
                return Err(ConfigError::MissingValue(flag.clone()));
            }
            assert(rest[1] == args@[i + 1]@);
            assert(rest.skip(2) =~= all.skip(i + 2));
            match wayeyes.apply(setting, args[i + 1].as_str()) {
                Ok(()) => {},
                Err(error) => {
                    return Err(error);
                },
            }
            i += 2;
        }
        Ok(wayeyes)
    }

    /// The record for a category.
    pub fn item(&self, category: Category) -> (item: &OutputItem)
        ensures
            item@ == self@.item(category),
    {
        match category {
            Category::Xdg => &self.xdg,
            Category::Xwayland => &self.xwayland,
            Category::Unknown => &self.unknown,
        }
    }

    /// The line for the focused window: the record of its category, put
    /// into the template.
    pub fn wayeyes_format(&self, container: Option<&WindowDescriptor>) -> (line: String)
        ensures
            line@ == formatted(self@.item(category_of(seen(container))), self@.format),
    {
        self.item(classify(container)).format(self.format.as_str())
    }
}

} // verus!
