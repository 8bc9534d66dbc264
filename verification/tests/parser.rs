use tvmenu::parser::contents::Table;
use tvmenu::parser::{
    contents_from_file, contents_from_string, remove_comment, ConfigContents, ConfigSection,
    Error, Key, Section,
};

fn section(entries: &[(&str, &str)]) -> ConfigSection {
    let mut values: Table<String> = Table::new();
    for (key, value) in entries {
        values.insert((*key).to_owned(), (*value).to_owned());
    }
    ConfigSection::new(values)
}

fn contents(sections: &[(&str, &[(&str, &str)])], path: &str) -> ConfigContents {
    let mut table: Table<ConfigSection> = Table::new();
    for (name, entries) in sections {
        table.insert((*name).to_owned(), section(entries));
    }
    ConfigContents::new(table, path.to_owned())
}

fn uncommented(line: &str) -> String {
    let chars: Vec<char> = line.chars().collect();
    remove_comment(&chars).iter().collect()
}

#[test]
fn table_keeps_the_order_of_first_insertion() {
    let mut table: Table<String> = Table::new();
    assert!(table.is_empty());
    table.insert("b".to_owned(), "1".to_owned());
    table.insert("a".to_owned(), "2".to_owned());
    table.insert("b".to_owned(), "3".to_owned());
    assert!(!table.is_empty());
    assert_eq!(table.keys(), vec!["b", "a"]);
    assert_eq!(table.remove("c"), None);
    assert_eq!(table.remove("b"), Some("3".to_owned()));
    assert_eq!(table.remove("b"), None);
    assert_eq!(table.keys(), vec!["a"]);
    assert_eq!(table.remove("a"), Some("2".to_owned()));
    assert!(table.is_empty());
}

#[test]
fn schema_items_hold_what_they_were_made_of() {
    let key = Key::new("title", false);
    assert_eq!(key.name(), "title");
    assert!(!key.is_optional());
    let key = Key::new("icon", true);
    assert!(key.is_optional());
    let named = Section::new("Entries", true);
    assert_eq!(named.name(), "Entries");
    assert!(named.is_optional());
    let unnamed = Section::empty();
    assert_eq!(unnamed.name(), "");
    assert!(!unnamed.is_optional());
}

#[test]
fn comments_start_at_the_first_double_slash() {
    assert_eq!(uncommented("a=1 // note"), "a=1 ");
    assert_eq!(uncommented("// note"), "");
    assert_eq!(uncommented("url=http://x // y"), "url=http:");
    assert_eq!(uncommented("a=1/2"), "a=1/2");
    assert_eq!(uncommented("a=1/"), "a=1/");
    assert_eq!(uncommented("/"), "/");
    assert_eq!(uncommented("//"), "");
    assert_eq!(uncommented("a///b"), "a");
    assert_eq!(uncommented(""), "");
}

#[test]
fn entries_before_a_header_are_in_the_unnamed_section() {
    let text = "title=Files\nlaunch=thunar\n";
    assert_eq!(
        contents_from_string(text, "files.entry"),
        Ok(contents(&[("", &[("title", "Files"), ("launch", "thunar")])], "files.entry"))
    );
}

#[test]
fn sections_and_entries_are_split() {
    let text = "background=#101010\npadding = 5 // five\n\n// only a comment\n[Entries]\n  width\t=  100  \nheight=\n";
    assert_eq!(
        contents_from_string(text, "conf"),
        Ok(contents(
            &[
                ("", &[("background", "#101010"), ("padding", "5")]),
                ("Entries", &[("width", "100"), ("height", "")]),
            ],
            "conf"
        ))
    );
}

#[test]
fn an_entry_is_split_at_its_first_equals_sign() {
    assert_eq!(
        contents_from_string("a=b=c\n=x\n", "p"),
        Ok(contents(&[("", &[("a", "b=c"), ("", "x")])], "p"))
    );
}

#[test]
fn a_repeated_key_takes_the_last_value() {
    assert_eq!(
        contents_from_string("a=1\nb=2\na=3\n", "p"),
        Ok(contents(&[("", &[("a", "3"), ("b", "2")])], "p"))
    );
}

#[test]
fn a_reopened_section_replaces_the_earlier_one() {
    let text = "[S]\na=1\nb=2\n[T]\nc=3\n[S]\nd=4\n";
    assert_eq!(
        contents_from_string(text, "p"),
        Ok(contents(&[("S", &[("d", "4")]), ("T", &[("c", "3")])], "p"))
    );
}

#[test]
fn a_section_without_entries_leaves_no_trace() {
    assert_eq!(contents_from_string("[S]\n[T]\na=1\n[U]\n", "p"), Ok(contents(&[("T", &[("a", "1")])], "p")));
    assert_eq!(contents_from_string("", "p"), Ok(contents(&[], "p")));
    assert_eq!(contents_from_string("\n\n// nothing\n", "p"), Ok(contents(&[], "p")));
    let text = "[S]\na=1\n[S]\n";
    assert_eq!(contents_from_string(text, "p"), Ok(contents(&[("S", &[("a", "1")])], "p")));
}

#[test]
fn a_header_name_is_what_stands_between_the_brackets() {
    assert_eq!(
        contents_from_string("[a[b]]\nk=v\n", "p"),
        Ok(contents(&[("a[b]", &[("k", "v")])], "p"))
    );
    assert_eq!(
        contents_from_string("[ My Section ]\nk=v\n", "p"),
        Ok(contents(&[(" My Section ", &[("k", "v")])], "p"))
    );
    assert_eq!(contents_from_string("[]\nk=v\n", "p"), Ok(contents(&[("", &[("k", "v")])], "p")));
    assert_eq!(
        contents_from_string("[a]=b]\nk=v\n", "p"),
        Ok(contents(&[("a]=b", &[("k", "v")])], "p"))
    );
}

#[test]
fn carriage_returns_before_line_feeds_are_dropped() {
    assert_eq!(
        contents_from_string("[S]\r\na=1\r\n", "p"),
        Ok(contents(&[("S", &[("a", "1")])], "p"))
    );
}

fn malformed(path: &str, line_nr: usize) -> Result<ConfigContents, Error> {
    Err(Error::InvalidFormat {
        path: path.to_owned(),
        line_nr,
        reason: "Entries need to be in key=value format".to_owned(),
    })
}

#[test]
fn a_line_without_equals_sign_is_reported_by_number() {
    assert_eq!(contents_from_string("foo bar", "p"), malformed("p", 0));
    assert_eq!(contents_from_string("a=1\nfoo bar\nb=2\n", "p"), malformed("p", 1));
    assert_eq!(contents_from_string("a=1\n\n// c\n[S]\n\nfoo bar\nbaz\n", "conf"), malformed("conf", 5));
    assert_eq!(contents_from_string("a=1\nfoo // = bar\n", "p"), malformed("p", 1));
}

#[test]
fn a_header_with_anything_around_it_is_malformed() {
    assert_eq!(contents_from_string(" [S]\na=1\n", "p"), malformed("p", 0));
    assert_eq!(contents_from_string("a=1\n[S] \n", "p"), malformed("p", 1));
    assert_eq!(contents_from_string("[S] // note\n", "p"), malformed("p", 0));
    assert_eq!(contents_from_string("[\n", "p"), malformed("p", 0));
    assert_eq!(contents_from_string("]\n", "p"), malformed("p", 0));
    assert_eq!(contents_from_string("[S\n", "p"), malformed("p", 0));
}

#[test]
fn parser_file_that_could_not_be_read_is_reported() {
    assert_eq!(
        contents_from_file("conf", &Err("denied".to_owned())),
        Err(Error::ReadFile { path: "conf".to_owned(), reason: "denied".to_owned() })
    );
    assert_eq!(
        contents_from_file("conf", &Ok("a=1".to_owned())),
        Ok(contents(&[("", &[("a", "1")])], "conf"))
    );
}

#[test]
fn constructors_fill_the_variants() {
    assert_eq!(
        Error::read_file("gone", "p"),
        Error::ReadFile { path: "p".to_owned(), reason: "gone".to_owned() }
    );
    assert_eq!(
        Error::format("p", 7, "why"),
        Error::InvalidFormat { path: "p".to_owned(), line_nr: 7, reason: "why".to_owned() }
    );
    assert_eq!(
        Error::missing_key("p", "s", "k"),
        Error::MissingKey { path: "p".to_owned(), section: "s".to_owned(), key: "k".to_owned() }
    );
    assert_eq!(
        Error::missing_section("p", "s"),
        Error::MissingSection { path: "p".to_owned(), section: "s".to_owned() }
    );
    assert_eq!(
        Error::unexpected_keys("p", "s", vec!["a".to_owned()]),
        Error::UnexpectedKeys {
            path: "p".to_owned(),
            section: "s".to_owned(),
            keys: vec!["a".to_owned()]
        }
    );
    assert_eq!(
        Error::unexpected_sections("p", vec!["a".to_owned()]),
        Error::UnexpectedSections { path: "p".to_owned(), sections: vec!["a".to_owned()] }
    );
}

#[test]
fn parser_messages_name_what_went_wrong() {
    assert_eq!(Error::read_file("denied", "conf").message(), "Could not read file conf:\ndenied");
    assert_eq!(
        Error::format("conf", 12, "why").message(),
        "Could not parse line 12 of conf: why"
    );
    assert_eq!(Error::format("conf", 0, "why").message(), "Could not parse line 0 of conf: why");
    assert_eq!(Error::missing_key("conf", "", "title").message(), "Missing key title in conf");
    assert_eq!(
        Error::missing_key("conf", "Entries", "width").message(),
        "Missing key width for section Entries in conf"
    );
    assert_eq!(
        Error::missing_section("conf", "Entries").message(),
        "Missing section Entries in conf"
    );
    assert_eq!(
        Error::unexpected_keys("conf", "", vec!["a".to_owned(), "b".to_owned()]).message(),
        "Unexpected keys a, b in conf"
    );
    assert_eq!(
        Error::unexpected_keys("conf", "S", vec!["a".to_owned()]).message(),
        "Unexpected keys a for section S in conf"
    );
    assert_eq!(
        Error::unexpected_sections("conf", vec!["X".to_owned(), "Y".to_owned()]).message(),
        "Unexpected sections X, Y in conf"
    );
}

#[test]
fn section_phrase_is_empty_for_the_unnamed_section() {
    assert_eq!(tvmenu::parser::errors::format_section(""), "");
    assert_eq!(tvmenu::parser::errors::format_section("Entries"), " for section Entries");
}
