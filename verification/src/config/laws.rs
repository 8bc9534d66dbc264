//! What holds of color literals and of the search for a configuration file.

use crate::config::colors::{
    bad_hex_from, channels, color_of, hex_byte, hex_color, hex_value, rgb_color, rgba_color, Color,
};
use crate::config::errors::ErrorView;
use crate::config::parse::{setting_of, AppConfigBuilder, AppConfigBuilderView, Setting};
use crate::config::{
    begins_with_component, config_in, expanded, home_mark, loaded, probe_at, AppConfigView,
    ProbeView,
};
use crate::parser::config_builder::{
    built, drain_keys, drain_section, drain_sections, ConfigBuilder, KeyView, SectionView,
};
use crate::parser::contents::{
    has_key, lemma_position_from, lookup, position, without, ContentsView,
};
use crate::numeric::{
    is_digit, lemma_decimal_digits, lemma_unsigned_value_of_digits, unsigned_value,
};
use crate::text::{decimal_digits, lemma_split_first, lemma_split_whole, split, starts_with};
use vstd::prelude::*;

verus! {

/// The small-letter hexadecimal digit for a number below 16.
pub open spec fn hex_digit(d: nat) -> char
    recommends
        d < 16,
{
    if d < 10 {
        ('0' as u8 + d as u8) as char
    } else {
        ('a' as u8 + (d - 10) as u8) as char
    }
}

/// A byte as two small-letter hexadecimal digits.
pub open spec fn hex_pair(b: u8) -> Seq<char> {
    seq![hex_digit(b as nat / 16), hex_digit(b as nat % 16)]
}

/// The literal `#RRGGBBAA` of a color.
pub open spec fn hex_text(c: Color) -> Seq<char> {
    seq!['#'] + hex_pair(c.red) + hex_pair(c.green) + hex_pair(c.blue) + hex_pair(c.alpha)
}

/// The literal `rgb(r,g,b)` of three channels.
pub open spec fn rgb_text(r: u8, g: u8, b: u8) -> Seq<char> {
    seq!['r', 'g', 'b', '('] + (decimal_digits(r as nat).push(',') + (decimal_digits(
        g as nat,
    ).push(',') + decimal_digits(b as nat))).push(')')
}

/// The literal `rgba(r,g,b,a)` of a color.
pub open spec fn rgba_text(c: Color) -> Seq<char> {
    seq!['r', 'g', 'b', 'a', '('] + (decimal_digits(c.red as nat).push(',') + (decimal_digits(
        c.green as nat,
    ).push(',') + (decimal_digits(c.blue as nat).push(',') + decimal_digits(
        c.alpha as nat,
    )))).push(')')
}

/// From a place behind which all characters are hexadecimal digits, no bad
/// digit is found.
proof fn lemma_all_hex(s: Seq<char>, from: int)
    requires
        0 <= from <= s.len(),
        forall|i: int| from <= i < s.len() ==> hex_value(#[trigger] s[i]) is Some,
    ensures
        bad_hex_from(s, from) == s.len(),
    decreases s.len() - from,
{
    if from < s.len() {
        assert(hex_value(s[from]) is Some);
        lemma_all_hex(s, from + 1);
    }
}

/// The two digits of a byte denote that byte.
proof fn lemma_hex_pair(b: u8)
    ensures
        hex_value(hex_pair(b)[0]) == Some((b / 16) as u8),
        hex_value(hex_pair(b)[1]) == Some((b % 16) as u8),
{
}

/// Every color is what its hexadecimal literal denotes.
pub proof fn lemma_hex_round_trip(c: Color)
    ensures
        color_of(hex_text(c)) == Ok::<Color, ErrorView>(c),
{
    let s = hex_text(c);
    lemma_hex_pair(c.red);
    lemma_hex_pair(c.green);
    lemma_hex_pair(c.blue);
    lemma_hex_pair(c.alpha);
    assert(s.len() == 9);
    assert(s[0] == '#');
    assert(s[1] == hex_pair(c.red)[0] && s[2] == hex_pair(c.red)[1]);
    assert(s[3] == hex_pair(c.green)[0] && s[4] == hex_pair(c.green)[1]);
    assert(s[5] == hex_pair(c.blue)[0] && s[6] == hex_pair(c.blue)[1]);
    assert(s[7] == hex_pair(c.alpha)[0] && s[8] == hex_pair(c.alpha)[1]);
    assert forall|i: int| 1 <= i < s.len() implies hex_value(#[trigger] s[i]) is Some by {
        if i == 1 || i == 2 {
        } else if i == 3 || i == 4 {
        } else if i == 5 || i == 6 {
        } else {
            assert(i == 7 || i == 8);
        }
    }
    lemma_all_hex(s, 1);
    assert(hex_byte(s, 1) == c.red);
    assert(hex_byte(s, 3) == c.green);
    assert(hex_byte(s, 5) == c.blue);
    assert(hex_byte(s, 7) == c.alpha);
    assert(hex_color(s) == Ok::<Color, ErrorView>(c));
}

/// A channel written in base ten holds no comma and reads back as itself.
proof fn lemma_channel(n: u8)
    ensures
        forall|j: int|
            0 <= j < decimal_digits(n as nat).len() ==> decimal_digits(n as nat)[j] != ',',
        unsigned_value(decimal_digits(n as nat), 255) == Some(n as nat),
        decimal_digits(n as nat).len() >= 1,
{
    lemma_decimal_digits(n as nat);
    lemma_unsigned_value_of_digits(n as nat, 255);
    let s = decimal_digits(n as nat);
    assert forall|j: int| 0 <= j < s.len() implies s[j] != ',' by {
        assert(is_digit(s[j]));
    }
}

/// Every opaque color is what the literal `rgb(r,g,b)` of its channels denotes.
pub proof fn lemma_rgb_round_trip(r: u8, g: u8, b: u8)
    ensures
        color_of(rgb_text(r, g, b)) == Ok::<Color, ErrorView>(
            Color { red: r, green: g, blue: b, alpha: 255 },
        ),
{
    reveal_strlit("rgb");
    reveal_strlit("rgba");
    let s = rgb_text(r, g, b);
    let red = decimal_digits(r as nat);
    let green = decimal_digits(g as nat);
    let blue = decimal_digits(b as nat);
    lemma_channel(r);
    lemma_channel(g);
    lemma_channel(b);
    let inside = red.push(',') + (green.push(',') + blue);
    let open = "rgb"@.push('(');
    assert(open == seq!['r', 'g', 'b', '(']);
    assert(s == open + inside.push(')'));
    assert(s.take(4) == open);
    assert(s.take(3) == "rgb"@);
    assert(s[3] == '(');
    assert(s.take(4)[3] == '(');
    assert(!starts_with(s, "rgba"@));
    assert(s.last() == ')');
    assert(s.subrange(4, s.len() - 1) == inside);
    lemma_split_first(red, ',', green.push(',') + blue);
    lemma_split_first(green, ',', blue);
    lemma_split_whole(blue, ',');
    let fields = split(inside, ',');
    assert(fields == seq![red, green, blue]);
    assert(channels(s, "rgb"@) == Some(seq![r, g, b])) by {
        assert(Seq::new(fields.len(), |i: int| unsigned_value(fields[i], 255).unwrap() as u8)
            =~= seq![r, g, b]);
    }
    assert(rgb_color(s) == Ok::<Color, ErrorView>(Color { red: r, green: g, blue: b, alpha: 255 }));
}

/// Every color is what the literal `rgba(r,g,b,a)` of its channels denotes.
pub proof fn lemma_rgba_round_trip(c: Color)
    ensures
        color_of(rgba_text(c)) == Ok::<Color, ErrorView>(c),
{
    reveal_strlit("rgba");
    let s = rgba_text(c);
    let red = decimal_digits(c.red as nat);
    let green = decimal_digits(c.green as nat);
    let blue = decimal_digits(c.blue as nat);
    let alpha = decimal_digits(c.alpha as nat);
    lemma_channel(c.red);
    lemma_channel(c.green);
    lemma_channel(c.blue);
    lemma_channel(c.alpha);
    let inside = red.push(',') + (green.push(',') + (blue.push(',') + alpha));
    let open = "rgba"@.push('(');
    assert(open == seq!['r', 'g', 'b', 'a', '(']);
    assert(s == open + inside.push(')'));
    assert(s.take(5) == open);
    assert(s.take(4) == "rgba"@);
    assert(s.last() == ')');
    assert(s.subrange(5, s.len() - 1) == inside);
    lemma_split_first(red, ',', green.push(',') + (blue.push(',') + alpha));
    lemma_split_first(green, ',', blue.push(',') + alpha);
    lemma_split_first(blue, ',', alpha);
    lemma_split_whole(alpha, ',');
    let fields = split(inside, ',');
    assert(fields == seq![red, green, blue, alpha]);
    assert(channels(s, "rgba"@) == Some(seq![c.red, c.green, c.blue, c.alpha])) by {
        assert(Seq::new(fields.len(), |i: int| unsigned_value(fields[i], 255).unwrap() as u8)
            =~= seq![c.red, c.green, c.blue, c.alpha]);
    }
    assert(rgba_color(s) == Ok::<Color, ErrorView>(c));
}

/// A literal with a leading `#` that has neither six nor eight characters
/// behind it denotes no color, and is reported as it stands.
pub proof fn lemma_hex_length_rejected(input: Seq<char>)
    requires
        input.len() > 0,
        input[0] == '#',
        input.len() - 1 != 6,
        input.len() - 1 != 8,
    ensures
        color_of(input) == Err::<Color, ErrorView>(ErrorView::InvalidColor(input)),
{
}

/// A path that does not start with `~` is expanded to itself, whether or
/// not the home directory is known.
pub proof fn lemma_plain_path_expands_to_itself(path: Seq<char>, home: Option<Seq<char>>)
    requires
        path.len() == 0 || path[0] != '~',
    ensures
        expanded(path, home) == Ok::<Seq<char>, ErrorView>(path),
{
}

/// Whether candidate `at` is passed over: its path expands, and there is no
/// file at it or none that parses.
pub open spec fn passed_over(
    paths: Seq<Seq<char>>,
    home: Option<Seq<char>>,
    probes: Seq<ProbeView>,
    at: int,
) -> bool {
    match expanded(paths[at], home) {
        Err(_) => false,
        Ok(path) => match probe_at(probes, at) {
            ProbeView::Missing => true,
            ProbeView::Found(read) => config_in(path, read) is Err,
        },
    }
}

/// The search gives the configuration of the first candidate that is there
/// and parses, if the candidates before it are passed over.
pub proof fn lemma_first_valid_candidate_wins(
    paths: Seq<Seq<char>>,
    home: Option<Seq<char>>,
    probes: Seq<ProbeView>,
    winner: int,
    path: Seq<char>,
    read: Result<Seq<char>, Seq<char>>,
    config: AppConfigView,
)
    requires
        0 <= winner < paths.len(),
        forall|i: int| 0 <= i < winner ==> passed_over(paths, home, probes, i),
        expanded(paths[winner], home) == Ok::<Seq<char>, ErrorView>(path),
        probe_at(probes, winner) == ProbeView::Found(read),
        config_in(path, read) == Ok::<AppConfigView, ErrorView>(config),
    ensures
        loaded(paths, home, probes, 0) == Ok::<AppConfigView, ErrorView>(config),
{
    lemma_search_from(paths, home, probes, 0, winner);
}

/// Where every candidate is passed over, all of them are reported.
pub proof fn lemma_no_candidate_left(
    paths: Seq<Seq<char>>,
    home: Option<Seq<char>>,
    probes: Seq<ProbeView>,
)
    requires
        forall|i: int| 0 <= i < paths.len() ==> passed_over(paths, home, probes, i),
    ensures
        loaded(paths, home, probes, 0) == Err::<AppConfigView, ErrorView>(
            ErrorView::NoConfigFound(paths),
        ),
{
    lemma_search_from(paths, home, probes, 0, paths.len() as int);
}

/// The search from candidate `at` on comes to the search from `upto` on, if
/// the candidates between them are passed over.
proof fn lemma_search_from(
    paths: Seq<Seq<char>>,
    home: Option<Seq<char>>,
    probes: Seq<ProbeView>,
    at: int,
    upto: int,
)
    requires
        0 <= at <= upto <= paths.len(),
        forall|i: int| at <= i < upto ==> passed_over(paths, home, probes, i),
    ensures
        loaded(paths, home, probes, at) == loaded(paths, home, probes, upto),
    decreases upto - at,
{
    if at < upto {
        assert(passed_over(paths, home, probes, at));
        lemma_search_from(paths, home, probes, at + 1, upto);
    }
}

/// Whether `setting` was read.
pub open spec fn is_read(state: AppConfigBuilderView, setting: Setting) -> bool {
    match setting {
        Setting::Background => state.background is Some,
        Setting::Padding => state.padding is Some,
        Setting::TextColor => state.text_color is Some,
        Setting::Columns => state.columns is Some,
        Setting::Height => state.height is Some,
        Setting::Width => state.width is Some,
        Setting::ColumnGap => state.column_gap is Some,
        Setting::RowGap => state.row_gap is Some,
        Setting::EntryBackground => state.entry_background is Some,
        Setting::EntryTextColor => state.entry_text_color is Some,
        Setting::EntryBorderRadius => state.entry_border_radius is Some,
        Setting::EntryTextSize => state.entry_text_size is Some,
        Setting::EntryWidth => state.entry_width is Some,
        Setting::EntryHeight => state.entry_height is Some,
    }
}

/// Whether no key of `values` stands for `setting` in `section`.
pub open spec fn absent_from(
    section: Seq<char>,
    values: Seq<(Seq<char>, Seq<char>)>,
    setting: Setting,
) -> bool {
    forall|j: int|
        0 <= j < values.len() ==> setting_of(section, (#[trigger] values[j]).0) != Some(setting)
}

/// Whether no key of any section of `sections` stands for `setting`.
pub open spec fn absent(
    sections: Seq<(Seq<char>, Seq<(Seq<char>, Seq<char>)>)>,
    setting: Setting,
) -> bool {
    forall|i: int|
        0 <= i < sections.len() ==> absent_from(
            (#[trigger] sections[i]).0,
            sections[i].1,
            setting,
        )
}

/// Taking a value in for one setting reads no other.
proof fn lemma_taken_reads_one(
    state: AppConfigBuilderView,
    taken: Setting,
    value: Seq<char>,
    other: Setting,
)
    requires
        taken != other,
    ensures
        state.taken(taken, value) matches Ok(next) ==> is_read(next, other) == is_read(
            state,
            other,
        ),
{
}

/// What is taken out of values from which a setting is absent leaves it absent.
proof fn lemma_without_absent(
    section: Seq<char>,
    values: Seq<(Seq<char>, Seq<char>)>,
    key: Seq<char>,
    setting: Setting,
)
    requires
        absent_from(section, values, setting),
    ensures
        absent_from(section, without(values, key), setting),
{
    lemma_position_from(values, key, 0);
    let out = without(values, key);
    let p = position(values, key);
    assert forall|j: int| 0 <= j < out.len() implies setting_of(section, (#[trigger] out[j]).0)
        != Some(setting) by {
        if has_key(values, key) {
            if j < p {
                assert(out[j] == values[j]);
            } else {
                assert(out[j] == values[j + 1]);
            }
        }
    }
}

/// Draining keys from values from which a setting is absent does not read it.
proof fn lemma_drain_keys_frame(
    path: Seq<char>,
    section: Seq<char>,
    keys: Seq<KeyView>,
    at: int,
    values: Seq<(Seq<char>, Seq<char>)>,
    state: AppConfigBuilderView,
    setting: Setting,
)
    requires
        0 <= at,
        absent_from(section, values, setting),
        !is_read(state, setting),
    ensures
        drain_keys::<AppConfigBuilder>(path, section, keys, at, values, state) matches Ok(
            (last, _),
        ) ==> !is_read(last, setting),
    decreases keys.len() - at,
{
    if at < keys.len() {
        let key = keys[at];
        lemma_position_from(values, key.name, 0);
        match lookup(values, key.name) {
            None => {
                if key.optional {
                    lemma_drain_keys_frame(path, section, keys, at + 1, values, state, setting);
                }
            },
            Some(raw) => {
                assert(values[position(values, key.name)].0 == key.name);
                match AppConfigBuilder::step(state, section, key.name, raw) {
                    Ok(next) => {
                        let taken = setting_of(section, key.name)->0;
                        lemma_taken_reads_one(state, taken, raw, setting);
                        lemma_without_absent(section, values, key.name, setting);
                        lemma_drain_keys_frame(
                            path,
                            section,
                            keys,
                            at + 1,
                            without(values, key.name),
                            next,
                            setting,
                        );
                    },
                    Err(_) => {},
                }
            },
        }
    }
}

/// Draining sections from which a setting is absent does not read it.
proof fn lemma_drain_sections_frame(
    path: Seq<char>,
    schema: Seq<SectionView>,
    at: int,
    sections: Seq<(Seq<char>, Seq<(Seq<char>, Seq<char>)>)>,
    state: AppConfigBuilderView,
    setting: Setting,
)
    requires
        0 <= at,
        absent(sections, setting),
        !is_read(state, setting),
    ensures
        drain_sections::<AppConfigBuilder>(path, schema, at, sections, state) matches Ok(
            (last, _),
        ) ==> !is_read(last, setting),
    decreases schema.len() - at,
{
    if at < schema.len() {
        let section = schema[at];
        lemma_position_from(sections, section.name, 0);
        match lookup(sections, section.name) {
            None => {
                if section.optional {
                    lemma_drain_sections_frame(path, schema, at + 1, sections, state, setting);
                }
            },
            Some(values) => {
                let p = position(sections, section.name);
                assert(sections[p].0 == section.name);
                assert(absent_from(sections[p].0, sections[p].1, setting));
                match AppConfigBuilder::key_schema(section.name) {
                    Err(_) => {},
                    Ok(keys) => {
                        lemma_drain_keys_frame(path, section.name, keys, 0, values, state, setting);
                    },
                }
                match drain_section::<AppConfigBuilder>(path, section.name, values, state) {
                    Ok(next) => {
                        let rest = without(sections, section.name);
                        assert forall|i: int| 0 <= i < rest.len() implies absent_from(
                            (#[trigger] rest[i]).0,
                            rest[i].1,
                            setting,
                        ) by {
                            if i < p {
                                assert(rest[i] == sections[i]);
                            } else {
                                assert(rest[i] == sections[i + 1]);
                            }
                        }
                        lemma_drain_sections_frame(path, schema, at + 1, rest, next, setting);
                    },
                    Err(_) => {},
                }
            },
        }
    }
}

/// A setting that a file does not hold is not read from it: where the file
/// builds, the configuration is built from a state in which the setting is
/// unread, and so holds the setting's default.
pub proof fn lemma_absent_setting_is_unread(
    contents: ContentsView,
    setting: Setting,
    config: AppConfigView,
) -> (last: AppConfigBuilderView)
    requires
        built::<AppConfigBuilder>(contents, AppConfigBuilderView::empty()) == Ok::<
            AppConfigView,
            ErrorView,
        >(config),
        absent(contents.sections, setting),
    ensures
        !is_read(last, setting),
        config == last.built(),
{
    lemma_drain_sections_frame(
        contents.path,
        AppConfigBuilder::schema(),
        0,
        contents.sections,
        AppConfigBuilderView::empty(),
        setting,
    );
    drain_sections::<AppConfigBuilder>(
        contents.path,
        AppConfigBuilder::schema(),
        0,
        contents.sections,
        AppConfigBuilderView::empty(),
    )->Ok_0.0
}

/// A file that builds and whose section `Entries` leaves out the key
/// `border-radius` gives tiles with the default radius, 0.
pub proof fn lemma_radius_left_out_is_zero(contents: ContentsView, config: AppConfigView)
    requires
        built::<AppConfigBuilder>(contents, AppConfigBuilderView::empty()) == Ok::<
            AppConfigView,
            ErrorView,
        >(config),
        forall|i: int|
            0 <= i < contents.sections.len() && (#[trigger] contents.sections[i]).0 == "Entries"@
                ==> !has_key(contents.sections[i].1, "border-radius"@),
    ensures
        config.entries.border_radius == decimal_digits(0),
{
    let setting = Setting::EntryBorderRadius;
    assert forall|i: int| 0 <= i < contents.sections.len() implies absent_from(
        (#[trigger] contents.sections[i]).0,
        contents.sections[i].1,
        setting,
    ) by {
        let name = contents.sections[i].0;
        let values = contents.sections[i].1;
        assert forall|j: int| 0 <= j < values.len() implies setting_of(
            name,
            (#[trigger] values[j]).0,
        ) != Some(setting) by {
            if setting_of(name, values[j].0) == Some(setting) {
                assert(name == "Entries"@);
                assert(values[j].0 == "border-radius"@);
                lemma_position_from(values, "border-radius"@, 0);
                assert(has_key(values, "border-radius"@));
            }
        }
    }
    let last = lemma_absent_setting_is_unread(contents, setting, config);
}

/// A path whose first component is `~` expands where the home directory is
/// known.
pub proof fn lemma_home_path_expands(path: Seq<char>, home: Seq<char>)
    requires
        begins_with_component(path, home_mark()),
    ensures
        expanded(path, Some(home)) is Ok,
{
}

/// Of two candidates, the first in the home directory and missing, the
/// second without `~`, there and holding a configuration, the search gives
/// the configuration of the second.
pub proof fn lemma_missing_home_candidate_is_passed_over(
    first: Seq<char>,
    second: Seq<char>,
    home: Seq<char>,
    read: Result<Seq<char>, Seq<char>>,
    config: AppConfigView,
)
    requires
        begins_with_component(first, home_mark()),
        second.len() == 0 || second[0] != '~',
        config_in(second, read) == Ok::<AppConfigView, ErrorView>(config),
    ensures
        loaded(
            seq![first, second],
            Some(home),
            seq![ProbeView::Missing, ProbeView::Found(read)],
            0,
        ) == Ok::<AppConfigView, ErrorView>(config),
{
    let paths = seq![first, second];
    let probes = seq![ProbeView::Missing, ProbeView::Found(read)];
    assert(paths[0] == first && paths[1] == second);
    assert(probe_at(probes, 0) == ProbeView::Missing);
    assert(probe_at(probes, 1) == ProbeView::Found(read));
    lemma_home_path_expands(first, home);
    assert(passed_over(paths, Some(home), probes, 0));
    lemma_first_valid_candidate_wins(paths, Some(home), probes, 1, second, read, config);
}

} // verus!
