use tvmenu::config::parse::{find_setting, Setting};
use tvmenu::config::{
    expand_stripped, expand_user, AppConfig, AppConfigBuilder, Color, Error, Number, Probe,
};
use tvmenu::parser;
use tvmenu::parser::{contents_from_string, from_contents, ConfigBuilder};

fn parse(text: &str) -> Result<AppConfig, Error> {
    AppConfig::from_file("tvmenu.conf", &Ok(text.to_owned()))
}

fn number(n: &Number) -> f32 {
    n.as_str().parse::<f32>().unwrap()
}

const EXAMPLE: &str = "background=#101010\npadding=5\n\n[Entries]\nbackground=rgb(20,20,20)\ntext-color=#ffffff\nborder-radius=4\ntext-size=14\nwidth=100\nheight=100\n";

#[test]
fn example_configuration_is_read() {
    let config = parse(EXAMPLE).unwrap();
    assert_eq!(config.background, Color::rgba(16, 16, 16, 255));
    assert_eq!(config.padding.as_str(), "5");
    assert_eq!(number(&config.padding), 5.0);
    assert_eq!(config.entries.background, Color::rgba(20, 20, 20, 255));
    assert_eq!(config.entries.text_color, Color::rgba(255, 255, 255, 255));
    assert_eq!(config.entries.border_radius.as_str(), "4");
    assert_eq!(number(&config.entries.border_radius), 4.0);
    assert_eq!(number(&config.entries.text_size), 14.0);
    assert_eq!(number(&config.entries.width), 100.0);
    assert_eq!(number(&config.entries.height), 100.0);
    assert_eq!(config.text_color, Color::white());
    assert_eq!(config.columns, None);
    assert_eq!(number(&config.height), 0.0);
    assert_eq!(number(&config.width), 0.0);
    assert_eq!(number(&config.column_gap), 10.0);
    assert_eq!(number(&config.row_gap), 10.0);
}

#[test]
fn settings_left_out_are_at_their_defaults() {
    let config = parse("padding=1\n[Entries]\nwidth=7\n").unwrap();
    assert_eq!(config.background, Color::rgba(0, 0, 0, 255));
    assert_eq!(config.text_color, Color::rgba(255, 255, 255, 255));
    assert_eq!(config.columns, None);
    assert_eq!(config.padding.as_str(), "1");
    assert_eq!(config.height.as_str(), "0");
    assert_eq!(config.width.as_str(), "0");
    assert_eq!(config.column_gap.as_str(), "10");
    assert_eq!(config.row_gap.as_str(), "10");
    assert_eq!(config.entries.background, Color::rgba(0, 0, 0, 0));
    assert_eq!(config.entries.text_color, Color::rgba(0, 0, 0, 255));
    assert_eq!(config.entries.border_radius.as_str(), "0");
    assert_eq!(number(&config.entries.border_radius), 0.0);
    assert_eq!(config.entries.text_size.as_str(), "12");
    assert_eq!(config.entries.width.as_str(), "7");
    assert_eq!(config.entries.height.as_str(), "100");
}

#[test]
fn every_setting_is_read() {
    let text = "background=#010203\ntext-color=rgba(4,5,6,7)\npadding=1.5\ncolumns=4\nheight=600\nwidth=800.25\ncolumn-gap=2\nrow-gap=3e0\n[Entries]\nbackground=rgb(8,9,10)\ntext-color=#0b0c0d0e\nborder-radius=.5\ntext-size=16.\nwidth=-1\nheight=+2\n";
    let config = parse(text).unwrap();
    assert_eq!(config.background, Color::rgb(1, 2, 3));
    assert_eq!(config.text_color, Color::rgba(4, 5, 6, 7));
    assert_eq!(number(&config.padding), 1.5);
    assert_eq!(config.columns, Some(4));
    assert_eq!(number(&config.height), 600.0);
    assert_eq!(number(&config.width), 800.25);
    assert_eq!(number(&config.column_gap), 2.0);
    assert_eq!(number(&config.row_gap), 3.0);
    assert_eq!(config.entries.background, Color::rgb(8, 9, 10));
    assert_eq!(config.entries.text_color, Color::rgba(11, 12, 13, 14));
    assert_eq!(number(&config.entries.border_radius), 0.5);
    assert_eq!(number(&config.entries.text_size), 16.0);
    assert_eq!(number(&config.entries.width), -1.0);
    assert_eq!(number(&config.entries.height), 2.0);
}

#[test]
fn only_the_entries_section_is_required() {
    assert_eq!(
        parse(""),
        Err(Error::Parse(parser::Error::missing_section("tvmenu.conf", "Entries")))
    );
    assert_eq!(
        parse("padding=1\n"),
        Err(Error::Parse(parser::Error::missing_section("tvmenu.conf", "Entries")))
    );
    assert_eq!(
        parse("padding=1\n[Entries]\n"),
        Err(Error::Parse(parser::Error::missing_section("tvmenu.conf", "Entries")))
    );
    assert!(parse("[Entries]\nwidth=1\n").is_ok());
}

#[test]
fn a_file_may_start_with_the_entries_section() {
    let config = parse("[Entries]\nborder-radius=4\n").unwrap();
    assert_eq!(number(&config.entries.border_radius), 4.0);
    assert_eq!(number(&config.padding), 0.0);
    assert_eq!(config.columns, None);
    assert_eq!(config.background, Color::black());
    assert_eq!(config.text_color, Color::white());
    assert_eq!(number(&config.height), 0.0);
    assert_eq!(number(&config.width), 0.0);
    assert_eq!(number(&config.column_gap), 10.0);
    assert_eq!(number(&config.row_gap), 10.0);
    assert_eq!(number(&config.entries.text_size), 12.0);
}

#[test]
fn config_undeclared_key_is_reported() {
    let text = format!("{}radius=4\n", EXAMPLE);
    assert_eq!(
        parse(&text),
        Err(Error::Parse(parser::Error::unexpected_keys(
            "tvmenu.conf",
            "Entries",
            vec!["radius".to_owned()]
        )))
    );
    assert_eq!(
        parse("paddin=5\ncolour=1\npadding=2\n[Entries]\nwidth=1\n"),
        Err(Error::Parse(parser::Error::unexpected_keys(
            "tvmenu.conf",
            "",
            vec!["paddin".to_owned(), "colour".to_owned()]
        )))
    );
    assert_eq!(
        parse("padding=1\n[Entries]\nborder-radius=1\ncolumns=3\n"),
        Err(Error::Parse(parser::Error::unexpected_keys(
            "tvmenu.conf",
            "Entries",
            vec!["columns".to_owned()]
        )))
    );
}

#[test]
fn an_undeclared_section_is_reported() {
    assert_eq!(
        parse("padding=1\n[Extra]\na=1\n[Entries]\nwidth=1\n[More]\nb=2\n"),
        Err(Error::Parse(parser::Error::unexpected_sections(
            "tvmenu.conf",
            vec!["Extra".to_owned(), "More".to_owned()]
        )))
    );
}

#[test]
fn values_are_checked_in_the_order_of_the_schema() {
    assert_eq!(
        parse("padding=x\nbackground=red\n[Entries]\nwidth=1\n"),
        Err(Error::InvalidColor("red".to_owned()))
    );
    assert_eq!(
        parse("columns=many\npadding=x\n[Entries]\nwidth=1\n"),
        Err(Error::InvalidNumber("x".to_owned()))
    );
    assert_eq!(
        parse("columns=many\n[Entries]\nwidth=1\n"),
        Err(Error::InvalidNumber("many".to_owned()))
    );
    assert_eq!(
        parse("columns=-1\n[Entries]\nwidth=1\n"),
        Err(Error::InvalidNumber("-1".to_owned()))
    );
    assert_eq!(
        parse("columns=1.0\n[Entries]\nwidth=1\n"),
        Err(Error::InvalidNumber("1.0".to_owned()))
    );
    assert_eq!(
        parse("padding=1\nextra=1\n[Entries]\nwidth=wide\n"),
        Err(Error::Parse(parser::Error::unexpected_keys("tvmenu.conf", "", vec!["extra".to_owned()])))
    );
    assert_eq!(
        parse("padding=1\n[Entries]\nheight=tall\ntext-color=#12\nunknown=1\n"),
        Err(Error::InvalidColor("#12".to_owned()))
    );
    assert_eq!(
        parse("padding=1\n[Entries]\nheight=\n"),
        Err(Error::InvalidNumber("".to_owned()))
    );
}

#[test]
fn a_malformed_line_is_reported() {
    assert_eq!(
        parse("padding=1\n[Entries]\nfoo bar\n"),
        Err(Error::Parse(parser::Error::format(
            "tvmenu.conf",
            2,
            "Entries need to be in key=value format"
        )))
    );
}

#[test]
fn config_file_that_could_not_be_read_is_reported() {
    assert_eq!(
        AppConfig::from_file("conf", &Err("denied".to_owned())),
        Err(Error::Parse(parser::Error::read_file("denied", "conf")))
    );
}

#[test]
fn settings_are_found_by_section_and_key() {
    assert_eq!(find_setting("", "background"), Some(Setting::Background));
    assert_eq!(find_setting("", "padding"), Some(Setting::Padding));
    assert_eq!(find_setting("", "text-color"), Some(Setting::TextColor));
    assert_eq!(find_setting("", "columns"), Some(Setting::Columns));
    assert_eq!(find_setting("", "height"), Some(Setting::Height));
    assert_eq!(find_setting("", "width"), Some(Setting::Width));
    assert_eq!(find_setting("", "column-gap"), Some(Setting::ColumnGap));
    assert_eq!(find_setting("", "row-gap"), Some(Setting::RowGap));
    assert_eq!(find_setting("Entries", "background"), Some(Setting::EntryBackground));
    assert_eq!(find_setting("Entries", "text-color"), Some(Setting::EntryTextColor));
    assert_eq!(find_setting("Entries", "border-radius"), Some(Setting::EntryBorderRadius));
    assert_eq!(find_setting("Entries", "text-size"), Some(Setting::EntryTextSize));
    assert_eq!(find_setting("Entries", "width"), Some(Setting::EntryWidth));
    assert_eq!(find_setting("Entries", "height"), Some(Setting::EntryHeight));
    assert_eq!(find_setting("", "border-radius"), None);
    assert_eq!(find_setting("Entries", "columns"), None);
    assert_eq!(find_setting("entries", "width"), None);
    assert_eq!(find_setting("", "Width"), None);
}

#[test]
fn config_builder_declares_its_schema() {
    let sections = AppConfigBuilder::sections();
    assert_eq!(sections.len(), 2);
    assert_eq!(sections[0].name(), "");
    assert!(sections[0].is_optional());
    assert_eq!(sections[1].name(), "Entries");
    assert!(!sections[1].is_optional());
    let names = |section: &str| -> Vec<String> {
        AppConfigBuilder::section_keys(section)
            .unwrap()
            .iter()
            .map(|k| {
                assert!(k.is_optional());
                k.name().to_owned()
            })
            .collect()
    };
    assert_eq!(
        names(""),
        vec![
            "background",
            "padding",
            "text-color",
            "columns",
            "height",
            "width",
            "column-gap",
            "row-gap"
        ]
    );
    assert_eq!(
        names("Entries"),
        vec!["background", "text-color", "border-radius", "text-size", "width", "height"]
    );
    assert_eq!(
        AppConfigBuilder::section_keys("Other").err(),
        Some(Error::InvalidSection("Other".to_owned()))
    );
}

#[test]
fn the_builder_refuses_keys_that_are_not_its_own() {
    let mut builder = AppConfigBuilder::new();
    assert_eq!(
        builder.parse_value("Entries", "columns", "3"),
        Err(Error::invalid_key("Entries", "columns"))
    );
    assert_eq!(
        builder.parse_value("", "border-radius", "3"),
        Err(Error::InvalidKey { section: String::new(), key: "border-radius".to_owned() })
    );
    assert_eq!(
        builder.parse_value("Other", "width", "3"),
        Err(Error::InvalidSection("Other".to_owned()))
    );
    assert_eq!(
        builder.parse_value("entries", "nothing", "3"),
        Err(Error::InvalidSection("entries".to_owned()))
    );
    assert_eq!(builder.parse_value("", "columns", "3"), Ok(()));
    assert_eq!(builder.parse_value("", "columns", "18446744073709551615"), Ok(()));
    assert_eq!(builder.build().columns, Some(u64::MAX));
    assert_eq!(
        AppConfigBuilder::from_parser(parser::Error::missing_section("p", "s")),
        Error::Parse(parser::Error::missing_section("p", "s"))
    );
}

#[test]
fn a_refused_value_leaves_the_builder_as_it_was() {
    let mut builder = AppConfigBuilder::new();
    assert_eq!(
        builder.parse_value("", "columns", "2.5"),
        Err(Error::InvalidNumber("2.5".to_owned()))
    );
    assert_eq!(builder.build().columns, None);
    let mut builder = AppConfigBuilder::new();
    builder.parse_value("", "columns", "3").unwrap();
    builder.parse_value("", "background", "#010203").unwrap();
    builder.parse_value("Entries", "width", "7").unwrap();
    assert!(builder.parse_value("", "columns", "x").is_err());
    assert!(builder.parse_value("", "background", "red").is_err());
    assert!(builder.parse_value("Entries", "width", "wide").is_err());
    assert!(builder.parse_value("Entries", "padding", "1").is_err());
    assert!(builder.parse_value("Other", "width", "1").is_err());
    let config = builder.build();
    assert_eq!(config.columns, Some(3));
    assert_eq!(config.background, Color::rgb(1, 2, 3));
    assert_eq!(config.entries.width.as_str(), "7");
    assert_eq!(config.width.as_str(), "0");
    assert_eq!(config.padding.as_str(), "0");
}

#[test]
fn the_engine_starts_from_the_builder_it_is_given() {
    let mut builder = AppConfigBuilder::new();
    builder.parse_value("", "padding", "9").unwrap();
    builder.parse_value("", "width", "8").unwrap();
    let contents = contents_from_string("width=1\n[Entries]\nwidth=2\n", "p").unwrap();
    let config = from_contents::<AppConfigBuilder>(contents, builder).unwrap();
    assert_eq!(config.padding.as_str(), "9");
    assert_eq!(config.width.as_str(), "1");
    assert_eq!(config.entries.width.as_str(), "2");
}

#[test]
fn numbers_keep_their_literal() {
    assert_eq!(Number::parse("1.50").unwrap().as_str(), "1.50");
    assert_eq!(Number::parse("-INF").unwrap().as_str(), "-INF");
    assert_eq!(Number::parse("1e3").unwrap().as_str().parse::<f32>().unwrap(), 1000.0);
    assert_eq!(Number::parse("one"), None);
    assert_eq!(Number::parse(""), None);
    assert_eq!(Number::whole(0).as_str(), "0");
    assert_eq!(Number::whole(100).as_str(), "100");
    assert_eq!(Number::whole(1234567).as_str(), "1234567");
}

#[test]
fn a_leading_tilde_is_expanded() {
    assert_eq!(expand_user("~/.config/tvmenu.conf", Some("/home/u")), Ok("/home/u/.config/tvmenu.conf".to_owned()));
    assert_eq!(expand_user("~/a/b", Some("/root")), Ok("/root/a/b".to_owned()));
    assert_eq!(expand_user("~", Some("/home/u")), Ok("/home/u/".to_owned()));
}

#[test]
fn a_path_without_tilde_is_left_alone() {
    assert_eq!(expand_user("./tvmenu.conf", Some("/home/u")), Ok("./tvmenu.conf".to_owned()));
    assert_eq!(expand_user("./tvmenu.conf", None), Ok("./tvmenu.conf".to_owned()));
    assert_eq!(expand_user("/etc/~/x", None), Ok("/etc/~/x".to_owned()));
    assert_eq!(expand_user("", None), Ok(String::new()));
}

#[test]
fn expansion_fails_without_home_or_prefix() {
    assert_eq!(
        expand_user("~/x", None),
        Err(Error::HomeDir {
            path: "~/x".to_owned(),
            msg: "Could not get home directory".to_owned()
        })
    );
    let reason = std::path::Path::new("~user/x").strip_prefix("~").unwrap_err().to_string();
    assert_eq!(
        expand_user("~user/x", Some("/home/u")),
        Err(Error::HomeDir { path: "~user/x".to_owned(), msg: reason.clone() })
    );
    assert_eq!(
        expand_user("~user/x", None),
        Err(Error::HomeDir { path: "~user/x".to_owned(), msg: reason })
    );
}

#[test]
fn expansion_of_a_stripped_path() {
    assert_eq!(
        expand_stripped("~/x", Err("no prefix".to_owned()), Some("/home/u")),
        Err(Error::HomeDir { path: "~/x".to_owned(), msg: "no prefix".to_owned() })
    );
    assert_eq!(
        expand_stripped("~/x", Ok("x".to_owned()), None),
        Err(Error::HomeDir {
            path: "~/x".to_owned(),
            msg: "Could not get home directory".to_owned()
        })
    );
    assert_eq!(
        expand_stripped("~/x", Ok("x".to_owned()), Some("/home/u")),
        Ok("/home/u/x".to_owned())
    );
}

fn found(text: &str) -> Probe {
    Probe::Found(Ok(text.to_owned()))
}

#[test]
fn the_first_candidate_that_parses_wins() {
    let candidates = ["~/.config/tvmenu.conf", "./tvmenu.conf"];
    let valid = "padding=3\n[Entries]\nwidth=1\n";
    let config =
        AppConfig::load(&candidates, Some("/home/u"), &vec![Probe::Missing, found(valid)]).unwrap();
    assert_eq!(config.padding.as_str(), "3");
    let other = "padding=4\n[Entries]\nwidth=1\n";
    let config =
        AppConfig::load(&candidates, Some("/home/u"), &vec![found(valid), found(other)]).unwrap();
    assert_eq!(config.padding.as_str(), "3");
}

#[test]
fn a_candidate_that_does_not_parse_is_passed_over() {
    let candidates = ["a.conf", "b.conf", "c.conf"];
    let valid = "padding=3\n[Entries]\nwidth=1\n";
    let probes = vec![found("foo bar"), Probe::Found(Err("denied".to_owned())), found(valid)];
    let config = AppConfig::load(&candidates, None, &probes).unwrap();
    assert_eq!(config.padding.as_str(), "3");
}

#[test]
fn all_candidates_are_reported_when_none_is_left() {
    let candidates = ["~/a.conf", "b.conf"];
    let expected = Err(Error::NoConfigFound(vec!["~/a.conf".to_owned(), "b.conf".to_owned()]));
    assert_eq!(
        AppConfig::load(&candidates, Some("/home/u"), &vec![Probe::Missing, Probe::Missing]),
        expected
    );
    assert_eq!(
        AppConfig::load(&candidates, Some("/home/u"), &vec![found("x"), found("padding=1\n")]),
        expected
    );
    assert_eq!(AppConfig::load(&candidates, Some("/home/u"), &Vec::new()), expected);
    assert_eq!(AppConfig::load(&[], None, &Vec::new()), Err(Error::NoConfigFound(Vec::new())));
}

#[test]
fn home_is_only_needed_for_candidates_with_a_tilde() {
    let valid = "padding=3\n[Entries]\nwidth=1\n";
    let config = AppConfig::load(&["./tvmenu.conf"], None, &vec![found(valid)]).unwrap();
    assert_eq!(config.padding.as_str(), "3");
    let candidates = ["./tvmenu.conf", "~/.config/tvmenu.conf"];
    let config = AppConfig::load(&candidates, None, &vec![found(valid), Probe::Missing]).unwrap();
    assert_eq!(config.padding.as_str(), "3");
    let candidates = ["~/.config/tvmenu.conf", "./tvmenu.conf"];
    assert_eq!(
        AppConfig::load(&candidates, None, &vec![Probe::Missing, found(valid)]),
        Err(Error::HomeDir {
            path: "~/.config/tvmenu.conf".to_owned(),
            msg: "Could not get home directory".to_owned()
        })
    );
    let candidates = ["./missing.conf", "~/.config/tvmenu.conf", "./tvmenu.conf"];
    assert_eq!(
        AppConfig::load(&candidates, None, &vec![Probe::Missing, Probe::Missing, found(valid)]),
        Err(Error::HomeDir {
            path: "~/.config/tvmenu.conf".to_owned(),
            msg: "Could not get home directory".to_owned()
        })
    );
}

#[test]
fn config_messages_name_what_went_wrong() {
    assert_eq!(Error::InvalidColor("red".to_owned()).message(), "Not a valid color: red");
    assert_eq!(Error::InvalidNumber("x".to_owned()).message(), "Not a valid number: x");
    assert_eq!(
        Error::invalid_key("Entries", "k").message(),
        "Not a valid key for section Entries: k"
    );
    assert_eq!(Error::InvalidSection("S".to_owned()).message(), "Not a valid section: S");
    assert_eq!(
        Error::NoConfigFound(vec!["a".to_owned(), "b".to_owned()]).message(),
        "Could not find valid config file, searched:\na\nb"
    );
    assert_eq!(
        Error::HomeDir { path: "~/x".to_owned(), msg: "why".to_owned() }.message(),
        "Could not expand home directory for ~/x:\nwhy"
    );
    assert_eq!(
        Error::Parse(parser::Error::missing_section("conf", "Entries")).message(),
        "Missing section Entries in conf"
    );
}
