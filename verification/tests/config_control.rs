use ultimate64_manager::config_tree::ConfigValue;
use ultimate64_manager::profile_manager::{config_control, parse_i64, ConfigControl};

fn text(s: &str) -> ConfigValue {
    ConfigValue::Text(s.to_string())
}

#[test]
fn integers_parse_like_str_parse() {
    assert_eq!(parse_i64("42"), Some(42));
    assert_eq!(parse_i64("+7"), Some(7));
    assert_eq!(parse_i64("-9223372036854775808"), Some(i64::MIN));
    assert_eq!(parse_i64("9223372036854775808"), None);
    assert_eq!(parse_i64("-"), None);
    assert_eq!(parse_i64("12a"), None);
    assert_eq!(parse_i64(""), None);
}

#[test]
fn controls_follow_the_schema() {
    let opts = Some(vec!["PAL".to_string(), "NTSC".to_string()]);
    match config_control(opts, None, None, None, None, &text("PAL")) {
        ConfigControl::Choice { options, current } => {
            assert_eq!(options.len(), 2);
            assert_eq!(current.as_deref(), Some("PAL"));
        }
        _ => panic!("expected a choice"),
    }
    match config_control(Some(Vec::new()), Some(-12), Some(6), Some("%d dB".to_string()), None, &text(" -3 ")) {
        ConfigControl::Slider { min, max, current, unit } => {
            assert_eq!((min, max, current), (-12, 6, -3));
            assert_eq!(unit, " dB");
        }
        _ => panic!("expected a slider"),
    }
    match config_control(None, Some(0), Some(100), Some("%d%".to_string()), None, &ConfigValue::Flag(true)) {
        ConfigControl::Slider { current, unit, .. } => {
            assert_eq!(current, 0);
            assert_eq!(unit, "%");
        }
        _ => panic!("expected a slider"),
    }
    match config_control(None, None, Some(5), None, Some(vec!["a.reu".to_string()]), &text("/x.reu")) {
        ConfigControl::Presets { presets, current_text } => {
            assert_eq!(presets, vec!["a.reu".to_string()]);
            assert_eq!(current_text.as_deref(), Some("/x.reu"));
        }
        _ => panic!("expected presets"),
    }
    match config_control(None, None, None, None, None, &ConfigValue::Integer(-4)) {
        ConfigControl::Plain => {}
        _ => panic!("expected the plain editor"),
    }
    match config_control(Some(vec!["1".to_string()]), None, None, None, None, &ConfigValue::Integer(-4)) {
        ConfigControl::Choice { current, .. } => assert_eq!(current.as_deref(), Some("-4")),
        _ => panic!("expected a choice"),
    }
}
