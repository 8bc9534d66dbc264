use tvmenu::entries::parse::find_icon;
use tvmenu::entries::{EntryBuilder, Error, IconFile, IconWalk, Listed, Listing, MenuEntry};
use tvmenu::parser;
use tvmenu::parser::ConfigBuilder;

fn icon(path: &str, size: Option<u64>) -> IconFile {
    let p = std::path::Path::new(path);
    IconFile {
        path: path.to_owned(),
        stem: p.file_stem().map(|s| s.to_string_lossy().into_owned()),
        extension: p.extension().map(|s| s.to_string_lossy().into_owned()),
        size,
    }
}

fn no_icons() -> IconWalk {
    IconWalk::Listed(Vec::new())
}

fn some_icons() -> IconWalk {
    IconWalk::Listed(vec![
        icon("/usr/share/pixmaps/firefox.png", Some(100)),
        icon("/usr/share/icons/hicolor/scalable/firefox.svg", Some(9000)),
        icon("/usr/share/icons/hicolor/48/firefox.png", Some(300)),
        icon("/usr/share/icons/hicolor/32/firefox.png", Some(200)),
        icon("/usr/share/icons/hicolor/64/Firefox.png", Some(500)),
        icon("/usr/share/icons/hicolor/64/firefox-esr.png", Some(700)),
        icon("/usr/share/icons/hicolor/96/firefox.xpm", None),
        icon("/usr/share/icons/hicolor/48/files.png", Some(50)),
    ])
}

fn parse(text: &str, icons: &IconWalk) -> Result<MenuEntry, Error> {
    MenuEntry::from_file("firefox.entry", &Ok(text.to_owned()), icons)
}

fn strings(items: &[&str]) -> Vec<String> {
    items.iter().map(|s| (*s).to_owned()).collect()
}

#[test]
fn an_entry_is_read() {
    let text = "title=Firefox // the browser\nlaunch=firefox --new-window https:\nicon=firefox\n";
    assert_eq!(
        parse(text, &some_icons()),
        Ok(MenuEntry {
            title: "Firefox".to_owned(),
            launch: "firefox".to_owned(),
            args: strings(&["--new-window", "https:"]),
            icon: Some("/usr/share/icons/hicolor/48/firefox.png".to_owned()),
        })
    );
}

#[test]
fn the_icon_may_be_left_out() {
    assert_eq!(
        parse("launch=thunar\ntitle=Files\n", &no_icons()),
        Ok(MenuEntry {
            title: "Files".to_owned(),
            launch: "thunar".to_owned(),
            args: Vec::new(),
            icon: None,
        })
    );
}

#[test]
fn parsing_twice_gives_the_same_entry() {
    let text = "title=Firefox\nlaunch=firefox -P  default\nicon=files\n";
    let first = parse(text, &some_icons());
    let second = parse(text, &some_icons());
    assert!(first.is_ok());
    assert_eq!(first, second);
    let first = parse("title=Firefox\nfoo bar\n", &some_icons());
    let second = parse("title=Firefox\nfoo bar\n", &some_icons());
    assert!(first.is_err());
    assert_eq!(first, second);
}

#[test]
fn the_launch_line_is_cut_into_words() {
    let entry = parse("title=t\nlaunch=cmd  a\tb c\n", &no_icons()).unwrap();
    assert_eq!(entry.launch, "cmd");
    assert_eq!(entry.args, strings(&["a", "b", "c"]));
    let entry = parse("title=t\nlaunch=a  b\n", &no_icons()).unwrap();
    assert_eq!(entry.launch, "a");
    assert_eq!(entry.args, strings(&["b"]));
    let entry = parse("title=t\nlaunch=\n", &no_icons()).unwrap();
    assert_eq!(entry.launch, "");
    assert_eq!(entry.args, Vec::<String>::new());
    let entry = parse("title=\nlaunch=x=y z\n", &no_icons()).unwrap();
    assert_eq!(entry.title, "");
    assert_eq!(entry.launch, "x=y");
    assert_eq!(entry.args, strings(&["z"]));
}

#[test]
fn the_builder_reads_a_launch_line_with_two_spaces() {
    let icons = no_icons();
    let mut builder = EntryBuilder::new(&icons);
    assert_eq!(builder.parse_value("", "title", "T"), Ok(()));
    assert_eq!(builder.parse_value("", "launch", "a  b"), Ok(()));
    let entry = builder.build();
    assert_eq!(entry.launch, "a");
    assert_eq!(entry.args, strings(&["b"]));
}

#[test]
fn a_refused_value_leaves_the_entry_as_it_was() {
    let icons = some_icons();
    let mut builder = EntryBuilder::new(&icons);
    builder.parse_value("", "title", "T").unwrap();
    builder.parse_value("", "launch", "a b").unwrap();
    builder.parse_value("", "icon", "files").unwrap();
    assert!(builder.parse_value("", "icon", "nothing").is_err());
    assert!(builder.parse_value("", "name", "x").is_err());
    assert!(builder.parse_value("S", "title", "x").is_err());
    assert_eq!(
        builder.build(),
        MenuEntry {
            title: "T".to_owned(),
            launch: "a".to_owned(),
            args: strings(&["b"]),
            icon: Some("/usr/share/icons/hicolor/48/files.png".to_owned()),
        }
    );
}

#[test]
fn title_and_launch_are_required() {
    assert_eq!(
        parse("launch=thunar\n", &no_icons()),
        Err(Error::Parser(parser::Error::missing_key("firefox.entry", "", "title")))
    );
    assert_eq!(
        parse("title=Files\n", &no_icons()),
        Err(Error::Parser(parser::Error::missing_key("firefox.entry", "", "launch")))
    );
    assert_eq!(
        parse("icon=files\n", &some_icons()),
        Err(Error::Parser(parser::Error::missing_key("firefox.entry", "", "title")))
    );
    assert_eq!(
        parse("", &no_icons()),
        Err(Error::Parser(parser::Error::missing_section("firefox.entry", "")))
    );
}

#[test]
fn a_missing_key_is_reported_before_undeclared_keys() {
    assert_eq!(
        parse("z=1\nlaunch=thunar\ncomment=x\n", &no_icons()),
        Err(Error::Parser(parser::Error::missing_key("firefox.entry", "", "title")))
    );
    assert_eq!(
        parse("z=1\ntitle=Files\nicon=files\n", &some_icons()),
        Err(Error::Parser(parser::Error::missing_key("firefox.entry", "", "launch")))
    );
}

#[test]
fn entry_undeclared_key_is_reported() {
    assert_eq!(
        parse("title=Files\nlaunch=thunar\ncomment=x\n", &no_icons()),
        Err(Error::Parser(parser::Error::unexpected_keys(
            "firefox.entry",
            "",
            strings(&["comment"])
        )))
    );
    assert_eq!(
        parse("z=1\ntitle=Files\na=2\nlaunch=thunar\n", &no_icons()),
        Err(Error::Parser(parser::Error::unexpected_keys("firefox.entry", "", strings(&["z", "a"]))))
    );
    assert_eq!(
        parse("title=Files\nlaunch=thunar\n[More]\na=1\n", &no_icons()),
        Err(Error::Parser(parser::Error::unexpected_sections("firefox.entry", strings(&["More"]))))
    );
}

#[test]
fn an_icon_that_is_not_found_is_reported_before_left_over_keys() {
    assert_eq!(
        parse("title=Files\nlaunch=thunar\nicon=nothing\ncomment=x\n", &some_icons()),
        Err(Error::IconNotFound("nothing".to_owned()))
    );
    assert_eq!(
        parse("title=Files\nicon=nothing\n", &some_icons()),
        Err(Error::Parser(parser::Error::missing_key("firefox.entry", "", "launch")))
    );
}

#[test]
fn a_failed_icon_search_is_reported_only_for_entries_with_an_icon() {
    let failed =
        IconWalk::Failed { path: "/usr/share/pixmaps".to_owned(), reason: "gone".to_owned() };
    assert_eq!(
        parse("title=Files\nlaunch=thunar\nicon=files\n", &failed),
        Err(Error::ReadDir { path: "/usr/share/pixmaps".to_owned(), reason: "gone".to_owned() })
    );
    assert!(parse("title=Files\nlaunch=thunar\n", &failed).is_ok());
}

#[test]
fn the_largest_fitting_file_is_the_icon() {
    let icons = some_icons();
    assert_eq!(find_icon("firefox", &icons), Ok("/usr/share/icons/hicolor/48/firefox.png".to_owned()));
    assert_eq!(find_icon("Firefox", &icons), Ok("/usr/share/icons/hicolor/64/Firefox.png".to_owned()));
    assert_eq!(find_icon("files", &icons), Ok("/usr/share/icons/hicolor/48/files.png".to_owned()));
    assert_eq!(find_icon("firefox.png", &icons), Err(Error::IconNotFound("firefox.png".to_owned())));
    assert_eq!(find_icon("fire", &icons), Err(Error::IconNotFound("fire".to_owned())));
    assert_eq!(find_icon("", &icons), Err(Error::IconNotFound(String::new())));
    assert_eq!(find_icon("firefox", &no_icons()), Err(Error::IconNotFound("firefox".to_owned())));
}

#[test]
fn svg_files_and_files_without_size_are_no_icons() {
    let icons = IconWalk::Listed(vec![icon("/a/x.svg", Some(10)), icon("/b/x.png", None)]);
    assert_eq!(find_icon("x", &icons), Err(Error::IconNotFound("x".to_owned())));
    let icons = IconWalk::Listed(vec![
        icon("/a/x.svg", Some(10)),
        icon("/b/x.png", None),
        icon("/c/x", Some(0)),
        icon("/d/x.SVG", Some(0)),
    ]);
    assert_eq!(find_icon("x", &icons), Ok("/d/x.SVG".to_owned()));
}

#[test]
fn of_several_largest_files_the_last_is_the_icon() {
    let icons = IconWalk::Listed(vec![
        icon("/a/x.png", Some(5)),
        icon("/b/x.png", Some(9)),
        icon("/c/x.png", Some(9)),
        icon("/d/x.png", Some(1)),
    ]);
    assert_eq!(find_icon("x", &icons), Ok("/c/x.png".to_owned()));
}

#[test]
fn entry_builder_declares_its_schema() {
    let sections = EntryBuilder::sections();
    assert_eq!(sections.len(), 1);
    assert_eq!(sections[0].name(), "");
    assert!(!sections[0].is_optional());
    let keys = EntryBuilder::section_keys("").unwrap();
    let seen: Vec<(String, bool)> =
        keys.iter().map(|k| (k.name().to_owned(), k.is_optional())).collect();
    assert_eq!(
        seen,
        vec![
            ("title".to_owned(), false),
            ("launch".to_owned(), false),
            ("icon".to_owned(), true)
        ]
    );
    assert_eq!(
        EntryBuilder::section_keys("Entries").err(),
        Some(Error::UnknownSection("Entries".to_owned()))
    );
}

#[test]
fn the_builder_takes_values_in() {
    let icons = some_icons();
    let mut builder = EntryBuilder::new(&icons);
    assert_eq!(builder.parse_value("", " title ", "T"), Ok(()));
    assert_eq!(builder.parse_value("", "launch", "a b"), Ok(()));
    assert_eq!(builder.parse_value("", "launch", "c d"), Ok(()));
    assert_eq!(builder.parse_value("", "icon", "files"), Ok(()));
    assert_eq!(builder.parse_value("", " name ", "x"), Err(Error::UnknownKey(" name ".to_owned())));
    assert_eq!(builder.parse_value("S", "title", "x"), Err(Error::UnknownSection("S".to_owned())));
    assert_eq!(
        builder.build(),
        MenuEntry {
            title: "T".to_owned(),
            launch: "a".to_owned(),
            args: strings(&["b", "c", "d"]),
            icon: Some("/usr/share/icons/hicolor/48/files.png".to_owned()),
        }
    );
    assert_eq!(
        EntryBuilder::new(&icons).build(),
        MenuEntry { title: String::new(), launch: String::new(), args: Vec::new(), icon: None }
    );
    assert_eq!(
        EntryBuilder::from_parser(parser::Error::missing_section("p", "")),
        Error::Parser(parser::Error::missing_section("p", ""))
    );
}

fn file(path: &str, text: &str) -> Listed {
    Listed::File { path: path.to_owned(), read: Ok(text.to_owned()) }
}

fn entry(title: &str, launch: &str) -> MenuEntry {
    MenuEntry { title: title.to_owned(), launch: launch.to_owned(), args: Vec::new(), icon: None }
}

#[test]
fn a_directory_gives_its_entries_in_order() {
    let listing = Listing::Items(vec![
        file("/e/b.entry", "title=B\nlaunch=b\n"),
        file("/e/a.entry", "title=A\nlaunch=a\n"),
    ]);
    assert_eq!(
        MenuEntry::load_dir("/e", &listing, &no_icons()),
        Ok(vec![entry("B", "b"), entry("A", "a")])
    );
    assert_eq!(MenuEntry::load_dir("/e", &Listing::Items(Vec::new()), &no_icons()), Ok(Vec::new()));
}

#[test]
fn the_first_failure_in_a_directory_is_reported() {
    let failed = Listing::Failed { reason: "gone".to_owned() };
    assert_eq!(
        MenuEntry::load_dir("/e", &failed, &no_icons()),
        Err(Error::ReadDir { path: "/e".to_owned(), reason: "gone".to_owned() })
    );
    let listing = Listing::Items(vec![
        file("/e/a.entry", "title=A\nlaunch=a\n"),
        Listed::Unreadable { reason: "denied".to_owned() },
        file("/e/b.entry", "title=B\n"),
    ]);
    assert_eq!(
        MenuEntry::load_dir("/e", &listing, &no_icons()),
        Err(Error::ReadDir { path: "/e".to_owned(), reason: "denied".to_owned() })
    );
    let listing = Listing::Items(vec![
        file("/e/a.entry", "title=A\nlaunch=a\n"),
        file("/e/b.entry", "title=B\n"),
        Listed::Unreadable { reason: "denied".to_owned() },
    ]);
    assert_eq!(
        MenuEntry::load_dir("/e", &listing, &no_icons()),
        Err(Error::Parser(parser::Error::missing_key("/e/b.entry", "", "launch")))
    );
    let listing = Listing::Items(vec![Listed::File {
        path: "/e/a.entry".to_owned(),
        read: Err("denied".to_owned()),
    }]);
    assert_eq!(
        MenuEntry::load_dir("/e", &listing, &no_icons()),
        Err(Error::Parser(parser::Error::read_file("denied", "/e/a.entry")))
    );
}

#[test]
fn the_first_directory_with_entries_wins() {
    let dirs = ["~/.config/tvmenu", "./entries", "./more"];
    let good = Listing::Items(vec![file("./entries/a", "title=A\nlaunch=a\n")]);
    let other = Listing::Items(vec![file("./more/b", "title=B\nlaunch=b\n")]);
    let listings = vec![Listing::Failed { reason: "gone".to_owned() }, good, other];
    assert_eq!(
        MenuEntry::load_dirs(&dirs, Some("/home/u"), &listings, &no_icons()),
        Ok(vec![entry("A", "a")])
    );
}

#[test]
fn directories_that_fail_or_are_empty_are_passed_over() {
    let dirs = ["a", "b", "c", "d"];
    let listings = vec![
        Listing::Items(Vec::new()),
        Listing::Items(vec![file("b/x", "title=X\n")]),
        Listing::Failed { reason: "gone".to_owned() },
        Listing::Items(vec![file("d/y", "title=Y\nlaunch=y\n")]),
    ];
    assert_eq!(
        MenuEntry::load_dirs(&dirs, None, &listings, &no_icons()),
        Ok(vec![entry("Y", "y")])
    );
    assert_eq!(
        MenuEntry::load_dirs(&dirs[..3], None, &listings, &no_icons()),
        Err(Error::NoEntriesFound)
    );
    assert_eq!(
        MenuEntry::load_dirs(&dirs, None, &Vec::new(), &no_icons()),
        Err(Error::NoEntriesFound)
    );
    assert_eq!(MenuEntry::load_dirs(&[], None, &listings, &no_icons()), Err(Error::NoEntriesFound));
}

#[test]
fn a_directory_that_cannot_be_expanded_ends_the_search() {
    let dirs = ["~/.config/tvmenu", "./entries"];
    let listings = vec![
        Listing::Failed { reason: "gone".to_owned() },
        Listing::Items(vec![file("./entries/a", "title=A\nlaunch=a\n")]),
    ];
    assert_eq!(
        MenuEntry::load_dirs(&dirs, None, &listings, &no_icons()),
        Err(Error::Config(tvmenu::config::Error::HomeDir {
            path: "~/.config/tvmenu".to_owned(),
            msg: "Could not get home directory".to_owned()
        }))
    );
}

#[test]
fn entry_messages_name_what_went_wrong() {
    assert_eq!(Error::read_dir("gone", "/e").message(), "Could not read dir /e:\ngone");
    assert_eq!(
        Error::UnknownSection("S".to_owned()).message(),
        "Menu Entry cannot have section S"
    );
    assert_eq!(Error::UnknownKey("k".to_owned()).message(), "Menu Entry cannot have key k");
    assert_eq!(Error::IconNotFound("x".to_owned()).message(), "Could not find icon x");
    assert_eq!(Error::NoEntriesFound.message(), "Could not find any menu entries");
    assert_eq!(
        Error::Parser(parser::Error::missing_key("p", "", "title")).message(),
        "Missing key title in p"
    );
    assert_eq!(
        Error::Config(tvmenu::config::Error::InvalidColor("red".to_owned())).message(),
        "Not a valid color: red"
    );
}
