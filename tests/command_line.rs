use varjokuuntelu::error::CustomError;
use varjokuuntelu::options::{parse_decimal, resolve_options, OptionsError};

fn s(v: &str) -> Option<String> {
    Some(v.to_string())
}

fn free(v: &[&str]) -> Vec<String> {
    v.iter().map(|x| x.to_string()).collect()
}

#[test]
fn decimal_numbers() {
    assert_eq!(parse_decimal("0", 10), Some(0));
    assert_eq!(parse_decimal("1920", u32::MAX as u64), Some(1920));
    assert_eq!(parse_decimal("+7", 10), Some(7));
    assert_eq!(parse_decimal("4294967295", u32::MAX as u64), Some(4294967295));
    assert_eq!(parse_decimal("007", 10), Some(7));
}

#[test]
fn decimal_rejections() {
    assert_eq!(parse_decimal("", 10), None);
    assert_eq!(parse_decimal("+", 10), None);
    assert_eq!(parse_decimal("-1", 10), None);
    assert_eq!(parse_decimal("12a", 1000), None);
    assert_eq!(parse_decimal(" 1", 10), None);
    assert_eq!(parse_decimal("11", 10), None);
    assert_eq!(parse_decimal("4294967296", u32::MAX as u64), None);
    assert_eq!(parse_decimal("99999999999999999999999", u64::MAX), None);
}

#[test]
fn all_options_given() {
    let o = resolve_options(s("800"), s("600"), s("1"), s("conf.json"), &free(&["a.frag", "b"])).ok().unwrap();
    assert_eq!(o.shader_path, "a.frag");
    assert_eq!(o.resolution, Some((800, 600)));
    assert_eq!(o.fullscreen_display, Some(1));
    assert_eq!(o.config_path, s("conf.json"));
}

#[test]
fn only_the_shader_path() {
    let o = resolve_options(None, None, None, None, &free(&["x.frag"])).ok().unwrap();
    assert_eq!(o.shader_path, "x.frag");
    assert_eq!(o.resolution, None);
    assert_eq!(o.fullscreen_display, None);
    assert_eq!(o.config_path, None);
}

#[test]
fn option_errors() {
    let e = |w, h, f, v: &[&str]| resolve_options(w, h, f, None, &free(v)).err().unwrap();
    assert_eq!(e(s("800"), None, None, &["a"]), OptionsError::MissingHeight);
    assert_eq!(e(None, s("600"), None, &["a"]), OptionsError::MissingWidth);
    assert_eq!(e(s("wide"), s("600"), None, &["a"]), OptionsError::InvalidWidth);
    assert_eq!(e(s("800"), s("5000000000"), None, &["a"]), OptionsError::InvalidHeight);
    assert_eq!(e(None, None, s("x"), &["a"]), OptionsError::InvalidFullscreen);
    assert_eq!(e(None, None, None, &[]), OptionsError::NoFile);
    assert_eq!(e(s("800"), None, None, &[]), OptionsError::MissingHeight);
}

#[test]
fn option_error_descriptions() {
    assert_eq!(OptionsError::MissingHeight.description(), "No -h/--height specified");
    assert_eq!(OptionsError::MissingWidth.description(), "No -w/--width specified");
    assert_eq!(OptionsError::NoFile.description(), "No file specified");
}

#[test]
fn custom_error_keeps_message() {
    let e = CustomError::new("Unable to get monitor 3");
    assert_eq!(e.message, "Unable to get monitor 3");
    assert_eq!(e.description(), "Unable to get monitor 3");
}
