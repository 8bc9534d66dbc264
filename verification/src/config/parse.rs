//! The schema of the application's configuration and the builder that
//! takes its values in.
//!
//! The unnamed section holds the settings of the window, the section
//! `Entries` those of the tiles. The unnamed section may be left out, the
//! section `Entries` may not; every key in them is optional and has a
//! default.

use crate::config::colors::{color_of, parse_color, Color};
use crate::config::errors::{Error, ErrorView};
use crate::config::number::Number;
use crate::config::{AppConfig, AppConfigView, EntryConfig, EntryConfigView};
use crate::numeric::{is_float_literal, parse_u64, unsigned_value};
use crate::parser;
use crate::parser::config_builder::{ConfigBuilder, Key, KeyView, Section, SectionView};
use crate::text::{chars_of, decimal_digits, same_text};
use vstd::prelude::*;

verus! {

/// One setting of the configuration.
#[derive(Debug, PartialEq, Eq, Clone, Copy, Structural)]
pub enum Setting {
    Background,
    Padding,
    TextColor,
    Columns,
    Height,
    Width,
    ColumnGap,
    RowGap,
    EntryBackground,
    EntryTextColor,
    EntryBorderRadius,
    EntryTextSize,
    EntryWidth,
    EntryHeight,
}

/// The setting that `key` of `section` stands for, if it stands for one.
pub open spec fn setting_of(section: Seq<char>, key: Seq<char>) -> Option<Setting> {
    if section.len() == 0 {
        if key == "background"@ {
            Some(Setting::Background)
        } else if key == "padding"@ {
            Some(Setting::Padding)
        } else if key == "text-color"@ {
            Some(Setting::TextColor)
        } else if key == "columns"@ {
            Some(Setting::Columns)
        } else if key == "height"@ {
            Some(Setting::Height)
        } else if key == "width"@ {
            Some(Setting::Width)
        } else if key == "column-gap"@ {
            Some(Setting::ColumnGap)
        } else if key == "row-gap"@ {
            Some(Setting::RowGap)
        } else {
            None
        }
    } else if section == "Entries"@ {
        if key == "background"@ {
            Some(Setting::EntryBackground)
        } else if key == "text-color"@ {
            Some(Setting::EntryTextColor)
        } else if key == "border-radius"@ {
            Some(Setting::EntryBorderRadius)
        } else if key == "text-size"@ {
            Some(Setting::EntryTextSize)
        } else if key == "width"@ {
            Some(Setting::EntryWidth)
        } else if key == "height"@ {
            Some(Setting::EntryHeight)
        } else {
            None
        }
    } else {
        None
    }
}

/// The setting that `key` of `section` stands for, if it stands for one.
pub fn find_setting(section: &str, key: &str) -> (r: Option<Setting>)
    ensures
        r == setting_of(section@, key@),
{
    if section.is_empty() {
        if same_text(key, "background") {
            Some(Setting::Background)
        } else if same_text(key, "padding") {
            Some(Setting::Padding)
        } else if same_text(key, "text-color") {
            Some(Setting::TextColor)
        } else if same_text(key, "columns") {
            Some(Setting::Columns)
        } else if same_text(key, "height") {
            Some(Setting::Height)
        } else if same_text(key, "width") {
            Some(Setting::Width)
        } else if same_text(key, "column-gap") {
            Some(Setting::ColumnGap)
        } else if same_text(key, "row-gap") {
            Some(Setting::RowGap)
        } else {
            None
        }
    } else if same_text(section, "Entries") {
        if same_text(key, "background") {
            Some(Setting::EntryBackground)
        } else if same_text(key, "text-color") {
            Some(Setting::EntryTextColor)
        } else if same_text(key, "border-radius") {
            Some(Setting::EntryBorderRadius)
        } else if same_text(key, "text-size") {
            Some(Setting::EntryTextSize)
        } else if same_text(key, "width") {
            Some(Setting::EntryWidth)
        } else if same_text(key, "height") {
            Some(Setting::EntryHeight)
        } else {
            None
        }
    } else {
        None
    }
}

/// The settings read so far. What was not read is `None` and is left to its
/// default when the configuration is built.
pub struct AppConfigBuilder {
    entry_background: Option<Color>,
    entry_text_color: Option<Color>,
    entry_border_radius: Option<Number>,
    entry_text_size: Option<Number>,
    entry_width: Option<Number>,
    entry_height: Option<Number>,
    columns: Option<u64>,
    padding: Option<Number>,
    background: Option<Color>,
    text_color: Option<Color>,
    height: Option<Number>,
    width: Option<Number>,
    column_gap: Option<Number>,
    row_gap: Option<Number>,
}

/// The mathematical value of an [`AppConfigBuilder`]; a number is the text
/// of its literal.
pub struct AppConfigBuilderView {
    pub entry_background: Option<Color>,
    pub entry_text_color: Option<Color>,
    pub entry_border_radius: Option<Seq<char>>,
    pub entry_text_size: Option<Seq<char>>,
    pub entry_width: Option<Seq<char>>,
    pub entry_height: Option<Seq<char>>,
    pub columns: Option<u64>,
    pub padding: Option<Seq<char>>,
    pub background: Option<Color>,
    pub text_color: Option<Color>,
    pub height: Option<Seq<char>>,
    pub width: Option<Seq<char>>,
    pub column_gap: Option<Seq<char>>,
    pub row_gap: Option<Seq<char>>,
}

/// The literal that an optional number holds.
pub open spec fn literal_of(n: Option<Number>) -> Option<Seq<char>> {
    match n {
        Some(n) => Some(n@),
        None => None,
    }
}

impl View for AppConfigBuilder {
    type V = AppConfigBuilderView;

    closed spec fn view(&self) -> AppConfigBuilderView {
        AppConfigBuilderView {
            entry_background: self.entry_background,
            entry_text_color: self.entry_text_color,
            entry_border_radius: literal_of(self.entry_border_radius),
            entry_text_size: literal_of(self.entry_text_size),
            entry_width: literal_of(self.entry_width),
            entry_height: literal_of(self.entry_height),
            columns: self.columns,
            padding: literal_of(self.padding),
            background: self.background,
            text_color: self.text_color,
            height: literal_of(self.height),
            width: literal_of(self.width),
            column_gap: literal_of(self.column_gap),
            row_gap: literal_of(self.row_gap),
        }
    }
}

impl AppConfigBuilderView {
    /// Nothing read.
    pub open spec fn empty() -> AppConfigBuilderView {
        AppConfigBuilderView {
            entry_background: None,
            entry_text_color: None,
            entry_border_radius: None,
            entry_text_size: None,
            entry_width: None,
            entry_height: None,
            columns: None,
            padding: None,
            background: None,
            text_color: None,
            height: None,
            width: None,
            column_gap: None,
            row_gap: None,
        }
    }

    /// The settings with `color` read for `setting`, which holds a color.
    pub open spec fn with_color(self, setting: Setting, color: Color) -> AppConfigBuilderView {
        match setting {
            Setting::Background => AppConfigBuilderView { background: Some(color), ..self },
            Setting::TextColor => AppConfigBuilderView { text_color: Some(color), ..self },
            Setting::EntryBackground => AppConfigBuilderView {
                entry_background: Some(color),
                ..self
            },
            Setting::EntryTextColor => AppConfigBuilderView {
                entry_text_color: Some(color),
                ..self
            },
            _ => self,
        }
    }

    /// The settings with the literal `number` read for `setting`, which
    /// holds a number.
    pub open spec fn with_number(self, setting: Setting, number: Seq<char>) -> AppConfigBuilderView {
        match setting {
            Setting::Padding => AppConfigBuilderView { padding: Some(number), ..self },
            Setting::Height => AppConfigBuilderView { height: Some(number), ..self },
            Setting::Width => AppConfigBuilderView { width: Some(number), ..self },
            Setting::ColumnGap => AppConfigBuilderView { column_gap: Some(number), ..self },
            Setting::RowGap => AppConfigBuilderView { row_gap: Some(number), ..self },
            Setting::EntryBorderRadius => AppConfigBuilderView {
                entry_border_radius: Some(number),
                ..self
            },
            Setting::EntryTextSize => AppConfigBuilderView {
                entry_text_size: Some(number),
                ..self
            },
            Setting::EntryWidth => AppConfigBuilderView { entry_width: Some(number), ..self },
            Setting::EntryHeight => AppConfigBuilderView { entry_height: Some(number), ..self },
            _ => self,
        }
    }

    /// The settings after the raw `value` is read for `setting`, or the
    /// error where the value is not of the setting's kind.
    ///
    /// A color setting takes a color literal, the number of columns an
    /// unsigned 64-bit decimal integer, every other setting a decimal
    /// floating-point literal. A value that is no color is reported as the
    /// color parser reports it, one that is no number as it stands.
    pub open spec fn taken(self, setting: Setting, value: Seq<char>) -> Result<
        AppConfigBuilderView,
        ErrorView,
    > {
        match setting {
            Setting::Background
            | Setting::TextColor
            | Setting::EntryBackground
            | Setting::EntryTextColor => match color_of(value) {
                Ok(color) => Ok(self.with_color(setting, color)),
                Err(e) => Err(e),
            },
            Setting::Columns => match unsigned_value(value, u64::MAX as nat) {
                Some(n) => Ok(AppConfigBuilderView { columns: Some(n as u64), ..self }),
                None => Err(ErrorView::InvalidNumber(value)),
            },
            _ => if is_float_literal(value) {
                Ok(self.with_number(setting, value))
            } else {
                Err(ErrorView::InvalidNumber(value))
            },
        }
    }

    /// The literal of a number that was read, or of the default `n`.
    pub open spec fn or_whole(read: Option<Seq<char>>, n: nat) -> Seq<char> {
        match read {
            Some(text) => text,
            None => decimal_digits(n),
        }
    }

    /// A color that was read, or the default.
    pub open spec fn or_color(read: Option<Color>, default: Color) -> Color {
        match read {
            Some(color) => color,
            None => default,
        }
    }

    /// The configuration that the settings make, each one that was not read
    /// at its default: the window black with white text, no padding, width
    /// and height 0, gaps of 10; the tiles transparent with black text,
    /// square corners, text of size 12, 100 wide and 100 high.
    pub open spec fn built(self) -> AppConfigView {
        AppConfigView {
            background: Self::or_color(self.background, Color::black()),
            text_color: Self::or_color(self.text_color, Color::white()),
            padding: Self::or_whole(self.padding, 0),
            columns: self.columns,
            height: Self::or_whole(self.height, 0),
            width: Self::or_whole(self.width, 0),
            column_gap: Self::or_whole(self.column_gap, 10),
            row_gap: Self::or_whole(self.row_gap, 10),
            entries: EntryConfigView {
                background: Self::or_color(self.entry_background, Color::transparent()),
                text_color: Self::or_color(self.entry_text_color, Color::black()),
                border_radius: Self::or_whole(self.entry_border_radius, 0),
                text_size: Self::or_whole(self.entry_text_size, 12),
                width: Self::or_whole(self.entry_width, 100),
                height: Self::or_whole(self.entry_height, 100),
            },
        }
    }
}

/// The declared sections: the unnamed one, which a file may leave out, and
/// `Entries`, which it may not.
pub open spec fn app_sections() -> Seq<SectionView> {
    seq![
        SectionView { name: Seq::empty(), optional: true },
        SectionView { name: "Entries"@, optional: false },
    ]
}

/// An optional key of the given name.
pub open spec fn optional_key(name: Seq<char>) -> KeyView {
    KeyView { name, optional: true }
}

/// The keys of the unnamed section, all optional.
pub open spec fn window_keys() -> Seq<KeyView> {
    seq![
        optional_key("background"@),
        optional_key("padding"@),
        optional_key("text-color"@),
        optional_key("columns"@),
        optional_key("height"@),
        optional_key("width"@),
        optional_key("column-gap"@),
        optional_key("row-gap"@),
    ]
}

/// The keys of the section `Entries`, all optional.
pub open spec fn entry_keys() -> Seq<KeyView> {
    seq![
        optional_key("background"@),
        optional_key("text-color"@),
        optional_key("border-radius"@),
        optional_key("text-size"@),
        optional_key("width"@),
        optional_key("height"@),
    ]
}

/// Reads `value` as a number.
fn parse_number(value: &str) -> (r: Result<Number, Error>)
    ensures
        match r {
            Ok(n) => is_float_literal(value@) && n@ == value@,
            Err(e) => !is_float_literal(value@) && e@ == ErrorView::InvalidNumber(value@),
        },
{
    match Number::parse(value) {
        Some(n) => Ok(n),
        None => Err(Error::InvalidNumber(value.to_owned())),
    }
}

/// Reads `value` as a number of columns.
fn parse_count(value: &str) -> (r: Result<u64, Error>)
    ensures
        match r {
            Ok(n) => unsigned_value(value@, u64::MAX as nat) == Some(n as nat),
            Err(e) => unsigned_value(value@, u64::MAX as nat) is None && e@
                == ErrorView::InvalidNumber(value@),
        },
{
    let chars = chars_of(value);
    match parse_u64(chars.as_slice()) {
        Some(n) => Ok(n),
        None => Err(Error::InvalidNumber(value.to_owned())),
    }
}

/// A number that was read, or the default `n`.
fn number_or(read: Option<Number>, n: usize) -> (r: Number)
    ensures
        r@ == AppConfigBuilderView::or_whole(literal_of(read), n as nat),
{
    match read {
        Some(number) => number,
        None => Number::whole(n),
    }
}

/// A color that was read, or the default.
fn color_or(read: Option<Color>, default: Color) -> (r: Color)
    ensures
        r == AppConfigBuilderView::or_color(read, default),
{
    match read {
        Some(color) => color,
        None => default,
    }
}

impl AppConfigBuilder {
    /// A builder that has read nothing.
    pub fn new() -> (b: Self)
        ensures
            b@ == AppConfigBuilderView::empty(),
    {
        AppConfigBuilder {
            entry_background: None,
            entry_text_color: None,
            entry_border_radius: None,
            entry_text_size: None,
            entry_width: None,
            entry_height: None,
            columns: None,
            padding: None,
            background: None,
            text_color: None,
            height: None,
            width: None,
            column_gap: None,
            row_gap: None,
        }
    }

    /// Reads the color `value` for `setting`.
    fn take_color(&mut self, setting: Setting, value: &str) -> (r: Result<(), Error>)
        ensures
            match r {
                Ok(()) => color_of(value@) is Ok && final(self)@ == old(self)@.with_color(
                    setting,
                    color_of(value@)->Ok_0,
                ),
                Err(e) => color_of(value@) == Err::<Color, ErrorView>(e@) && final(self)@ == old(
                    self,
                )@,
            },
    {
        let color = match parse_color(value) {
            Ok(color) => color,
            Err(e) => {
                return Err(e);
            },
        };
        match setting {
            Setting::Background => {
                self.background = Some(color);
            },
            Setting::TextColor => {
                self.text_color = Some(color);
            },
            Setting::EntryBackground => {
                self.entry_background = Some(color);
            },
            Setting::EntryTextColor => {
                self.entry_text_color = Some(color);
            },
            _ => {},
        }
        Ok(())
    }

    /// Reads the number `value` for `setting`.
    fn take_number(&mut self, setting: Setting, value: &str) -> (r: Result<(), Error>)
        ensures
            match r {
                Ok(()) => is_float_literal(value@) && final(self)@ == old(self)@.with_number(
                    setting,
                    value@,
                ),
                Err(e) => !is_float_literal(value@) && e@ == ErrorView::InvalidNumber(value@)
                    && final(self)@ == old(self)@,
            },
    {
        let number = match parse_number(value) {
            Ok(number) => number,
            Err(e) => {
                return Err(e);
            },
        };
        match setting {
            Setting::Padding => {
                self.padding = Some(number);
            },
            Setting::Height => {
                self.height = Some(number);
            },
            Setting::Width => {
                self.width = Some(number);
            },
            Setting::ColumnGap => {
                self.column_gap = Some(number);
            },
            Setting::RowGap => {
                self.row_gap = Some(number);
            },
            Setting::EntryBorderRadius => {
                self.entry_border_radius = Some(number);
            },
            Setting::EntryTextSize => {
                self.entry_text_size = Some(number);
            },
            Setting::EntryWidth => {
                self.entry_width = Some(number);
            },
            Setting::EntryHeight => {
                self.entry_height = Some(number);
            },
            _ => {},
        }
        Ok(())
    }
}

impl ConfigBuilder for AppConfigBuilder {
    type Output = AppConfig;

    type Error = Error;

    open spec fn schema() -> Seq<SectionView> {
        app_sections()
    }

    open spec fn key_schema(section: Seq<char>) -> Result<Seq<KeyView>, ErrorView> {
        if section.len() == 0 {
            Ok(window_keys())
        } else if section == "Entries"@ {
            Ok(entry_keys())
        } else {
            Err(ErrorView::InvalidSection(section))
        }
    }

    open spec fn step(
        state: AppConfigBuilderView,
        section: Seq<char>,
        key: Seq<char>,
        value: Seq<char>,
    ) -> Result<AppConfigBuilderView, ErrorView> {
        if !(section.len() == 0 || section == "Entries"@) {
            Err(ErrorView::InvalidSection(section))
        } else {
            match setting_of(section, key) {
                Some(setting) => state.taken(setting, value),
                None => Err(ErrorView::InvalidKey { section, key }),
            }
        }
    }

    open spec fn output(state: AppConfigBuilderView) -> AppConfigView {
        state.built()
    }

    open spec fn lift(err: parser::errors::ErrorView) -> ErrorView {
        ErrorView::Parse(err)
    }

    fn sections() -> (r: Vec<Section>) {
        let mut r: Vec<Section> = Vec::new();
        r.push(Section::new("", true));
        r.push(Section::new("Entries", false));
        proof {
            reveal_strlit("");
            assert(""@ =~= Seq::<char>::empty());
        }
        assert(r.deep_view() =~= app_sections());
        r
    }

    fn section_keys(section: &str) -> (r: Result<Vec<Key>, Error>) {
        let mut keys: Vec<Key> = Vec::new();
        if section.is_empty() {
            keys.push(Key::new("background", true));
            keys.push(Key::new("padding", true));
            keys.push(Key::new("text-color", true));
            keys.push(Key::new("columns", true));
            keys.push(Key::new("height", true));
            keys.push(Key::new("width", true));
            keys.push(Key::new("column-gap", true));
            keys.push(Key::new("row-gap", true));
            assert(keys.deep_view() =~= window_keys());
            Ok(keys)
        } else if same_text(section, "Entries") {
            keys.push(Key::new("background", true));
            keys.push(Key::new("text-color", true));
            keys.push(Key::new("border-radius", true));
            keys.push(Key::new("text-size", true));
            keys.push(Key::new("width", true));
            keys.push(Key::new("height", true));
            assert(keys.deep_view() =~= entry_keys());
            Ok(keys)
        } else {
            Err(Error::InvalidSection(section.to_owned()))
        }
    }

    fn parse_value(&mut self, section: &str, key: &str, value: &str) -> (r: Result<(), Error>) {
        if !(section.is_empty() || same_text(section, "Entries")) {
            return Err(Error::InvalidSection(section.to_owned()));
        }
        let setting = match find_setting(section, key) {
            Some(setting) => setting,
            None => {
                return Err(Error::invalid_key(section, key));
            },
        };
        match setting {
            Setting::Background
            | Setting::TextColor
            | Setting::EntryBackground
            | Setting::EntryTextColor => self.take_color(setting, value),
            Setting::Columns => {
                match parse_count(value) {
                    Ok(n) => {
                        self.columns = Some(n);
                        Ok(())
                    },
                    Err(e) => Err(e),
                }
            },
            _ => self.take_number(setting, value),
        }
    }

    fn build(self) -> (o: AppConfig) {
        let ghost state = self@;
        let entries = EntryConfig {
            background: color_or(self.entry_background, Color::transparent()),
            text_color: color_or(self.entry_text_color, Color::black()),
            border_radius: number_or(self.entry_border_radius, 0),
            text_size: number_or(self.entry_text_size, 12),
            width: number_or(self.entry_width, 100),
            height: number_or(self.entry_height, 100),
        };
        assert(entries@ == state.built().entries);
        let o = AppConfig {
            background: color_or(self.background, Color::black()),
            text_color: color_or(self.text_color, Color::white()),
            padding: number_or(self.padding, 0),
            columns: self.columns,
            height: number_or(self.height, 0),
            width: number_or(self.width, 0),
            column_gap: number_or(self.column_gap, 10),
            row_gap: number_or(self.row_gap, 10),
            entries,
        };
        assert(o@ == state.built());
        o
    }

    fn from_parser(err: parser::Error) -> (e: Error) {
        Error::Parse(err)
    }
}

} // verus!
