use tvmenu::config::colors;
use tvmenu::config::colors::{hex_to_digit, parse_color, parse_rgb, Color};
use tvmenu::config::Error;

#[test]
fn parse_hex() {
    let result = parse_color("#ffffff").unwrap();
    let expected = Color::rgb(255, 255, 255);
    assert_eq!(result, expected)
}

#[test]
fn parse_hex_upper() {
    let result = parse_color("#FFFFFF").unwrap();
    let expected = Color::rgb(255, 255, 255);
    assert_eq!(result, expected)
}

#[test]
fn parse_hex_alpha() {
    let result = parse_color("#aaaaaaaa").unwrap();
    let expected = Color::rgba(170, 170, 170, 170);
    assert_eq!(result, expected)
}

#[test]
fn parse_rgba() {
    let result = parse_color("rgba(255,255,255,255)").unwrap();
    let expected = Color::rgba(255, 255, 255, 255);
    assert_eq!(result, expected)
}

#[test]
fn parse_rbg() {
    let result = parse_color("rgb(255,255,255)").unwrap();
    let expected = Color::rgb(255, 255, 255);
    assert_eq!(result, expected)
}

fn invalid(text: &str) -> Result<Color, Error> {
    Err(Error::InvalidColor(text.to_owned()))
}

#[test]
fn constructors_set_channels() {
    assert_eq!(Color::rgb(1, 2, 3), Color { red: 1, green: 2, blue: 3, alpha: 255 });
    assert_eq!(Color::rgba(1, 2, 3, 4), Color { red: 1, green: 2, blue: 3, alpha: 4 });
    assert_eq!(Color::black(), Color::rgb(0, 0, 0));
    assert_eq!(Color::white(), Color::rgb(255, 255, 255));
    assert_eq!(Color::transparent(), Color::rgba(0, 0, 0, 0));
}

#[test]
fn hex_channel_order() {
    assert_eq!(parse_color("#102030"), Ok(Color::rgba(16, 32, 48, 255)));
    assert_eq!(parse_color("#10203040"), Ok(Color::rgba(16, 32, 48, 64)));
    assert_eq!(parse_color("#aBcDeF"), Ok(Color::rgb(0xab, 0xcd, 0xef)));
    assert_eq!(colors::parse_hex("#000000"), Ok(Color::rgb(0, 0, 0)));
}

#[test]
fn hex_length_is_checked() {
    for text in ["#", "#f", "#fff", "#fffff", "#fffffff", "#fffffffff", "#ffff"] {
        assert_eq!(parse_color(text), invalid(text));
    }
}

#[test]
fn hex_length_counts_characters() {
    assert_eq!(parse_color("#ééé"), invalid("#ééé"));
    assert_eq!(parse_color("#12345é"), invalid("Hex é"));
}

#[test]
fn hex_digit_is_checked() {
    assert_eq!(parse_color("#ffgfff"), invalid("Hex g"));
    assert_eq!(parse_color("#12#456"), invalid("Hex #"));
    assert_eq!(parse_color("#12 456"), invalid("Hex  "));
    assert_eq!(parse_color("#zz00yy"), invalid("Hex z"));
}

#[test]
fn hex_digit_table() {
    let digits = "0123456789abcdef";
    for (value, ch) in digits.chars().enumerate() {
        assert_eq!(hex_to_digit(ch), Ok(value as u8));
        assert_eq!(hex_to_digit(ch.to_ascii_uppercase()), Ok(value as u8));
    }
    assert_eq!(hex_to_digit('g'), invalid("Hex g").map(|_| 0));
    assert_eq!(hex_to_digit('/'), invalid("Hex /").map(|_| 0));
    assert_eq!(hex_to_digit(':'), invalid("Hex :").map(|_| 0));
    assert_eq!(hex_to_digit('`'), invalid("Hex `").map(|_| 0));
    assert_eq!(hex_to_digit('@'), invalid("Hex @").map(|_| 0));
    assert_eq!(hex_to_digit('G'), invalid("Hex G").map(|_| 0));
}

#[test]
fn hex_round_trip_on_all_bytes() {
    for n in 0..=255u8 {
        let color = Color::rgba(n, 255 - n, n / 2, n.wrapping_mul(7));
        let text = format!(
            "#{:02x}{:02x}{:02x}{:02x}",
            color.red, color.green, color.blue, color.alpha
        );
        assert_eq!(parse_color(&text), Ok(color));
        assert_eq!(parse_color(&text.to_uppercase()), Ok(color));
    }
}

#[test]
fn functional_round_trip_on_all_bytes() {
    for n in 0..=255u8 {
        let color = Color::rgba(n, 255 - n, n / 2, n.wrapping_mul(7));
        let rgba =
            format!("rgba({},{},{},{})", color.red, color.green, color.blue, color.alpha);
        assert_eq!(parse_color(&rgba), Ok(color));
        let rgb = format!("rgb({},{},{})", color.red, color.green, color.blue);
        assert_eq!(parse_color(&rgb), Ok(Color::rgb(color.red, color.green, color.blue)));
    }
}

#[test]
fn functional_fields_are_unsigned_bytes() {
    assert_eq!(parse_color("rgb(+1,007,0)"), Ok(Color::rgb(1, 7, 0)));
    for text in [
        "rgb(256,0,0)",
        "rgb(-1,0,0)",
        "rgb(1, 2,3)",
        "rgb(1,2,x)",
        "rgb(1,,3)",
        "rgb(1,2,3.0)",
        "rgba(0,0,0,1000)",
    ] {
        assert_eq!(parse_color(text), invalid(text));
    }
}

#[test]
fn functional_field_count_is_checked() {
    for text in [
        "rgb(1,2)",
        "rgb(1,2,3,4)",
        "rgb()",
        "rgb(",
        "rgb",
        "rgba(1,2,3)",
        "rgba(1,2,3,4,5)",
        "rgba(",
        "rgba",
        "rgba()",
    ] {
        assert_eq!(parse_color(text), invalid(text));
    }
}

#[test]
fn functional_brackets_are_checked() {
    for text in [
        "rgb(1,2,3",
        "rgb(1,2,3]",
        "rgb1,2,3)",
        "rgb[1,2,3)",
        "rgba(1,2,3,4",
        "rgba(1,2,3,4x",
        "rgba1,2,3,4)",
        "rgba(rgba(1,2,3,4)",
        "rgb(1,2,3))",
        "rgb(1,2,3) ",
    ] {
        assert_eq!(parse_color(text), invalid(text));
    }
}

#[test]
fn functional_parsers_check_their_own_name() {
    assert_eq!(parse_rgb("rgba(1,2,3,4)"), invalid("rgba(1,2,3,4)"));
    assert_eq!(colors::parse_rgba("rgb(1,2,3)"), invalid("rgb(1,2,3)"));
    assert_eq!(parse_rgb("rgb(9,8,7)"), Ok(Color::rgb(9, 8, 7)));
    assert_eq!(colors::parse_rgba("rgba(9,8,7,6)"), Ok(Color::rgba(9, 8, 7, 6)));
}

#[test]
fn other_prefixes_are_rejected() {
    for text in ["", "red", " #ffffff", "RGB(1,2,3)", "ffffff", "hsl(1,2,3)", "rg(1,2,3)"] {
        assert_eq!(parse_color(text), invalid(text));
    }
}

#[test]
fn nothing_is_trimmed() {
    assert_eq!(parse_color("#ffffff "), invalid("#ffffff "));
    assert_eq!(parse_color(" rgb(1,2,3)"), invalid(" rgb(1,2,3)"));
}
