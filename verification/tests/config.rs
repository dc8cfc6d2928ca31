use logging::components::ComponentLevels;
use logging::config::{parse_component_levels, try_parse_component_levels, LoggerConfig};
use logging::level::LevelFilter;
use logging::text::{chars_of, fold_ascii, same_ignoring_ascii_case, split};

fn levels(pairs: &[(&str, LevelFilter)]) -> ComponentLevels {
    let mut map = ComponentLevels::new();
    for (key, level) in pairs {
        map.insert(key.to_string(), *level);
    }
    map
}

#[test]
fn log_config_parsing() {
    let config = LoggerConfig::from_spec("stdout=Info;is_colored;fileout=Debug;RiskEngine=Error");
    assert_eq!(
        config,
        LoggerConfig {
            stdout_level: LevelFilter::Info,
            fileout_level: LevelFilter::Debug,
            component_level: levels(&[("RiskEngine", LevelFilter::Error)]),
            is_colored: true,
            print_config: false,
        }
    )
}

#[test]
fn log_config_parsing2() {
    let config = LoggerConfig::from_spec("stdout=Warn;print_config;fileout=Error;");
    assert_eq!(
        config,
        LoggerConfig {
            stdout_level: LevelFilter::Warn,
            fileout_level: LevelFilter::Error,
            component_level: ComponentLevels::new(),
            is_colored: false,
            print_config: true,
        }
    )
}

#[test]
fn default_config_values() {
    let config = LoggerConfig::default();
    assert_eq!(config.stdout_level, LevelFilter::Info);
    assert_eq!(config.fileout_level, LevelFilter::Off);
    assert_eq!(config.component_level.len(), 0);
    assert!(!config.is_colored);
    assert!(!config.print_config);
    assert_eq!(LoggerConfig::from_spec(""), LoggerConfig::default());
}

#[test]
fn new_config_keeps_its_arguments() {
    let config = LoggerConfig::new(
        LevelFilter::Debug,
        LevelFilter::Warn,
        levels(&[("Portfolio", LevelFilter::Info)]),
        true,
        true,
    );
    assert_eq!(config.stdout_level, LevelFilter::Debug);
    assert_eq!(config.fileout_level, LevelFilter::Warn);
    assert_eq!(config.component_level.get("Portfolio"), Some(LevelFilter::Info));
    assert!(config.is_colored);
    assert!(config.print_config);
    assert_eq!(config.clone(), config);
}

#[test]
fn from_spec_ignores_what_it_cannot_read() {
    let config = LoggerConfig::from_spec("stdout=loud;colored;fileout;=;;Risk=;stdout");
    assert_eq!(config, LoggerConfig::default());
}

#[test]
fn from_spec_reads_levels_in_any_case() {
    let config = LoggerConfig::from_spec("stdout=wArN;fileout=DEBUG;Risk=off");
    assert_eq!(config.stdout_level, LevelFilter::Warn);
    assert_eq!(config.fileout_level, LevelFilter::Debug);
    assert_eq!(config.component_level.get("Risk"), Some(LevelFilter::Off));
}

#[test]
fn from_spec_reads_warning_as_warn() {
    let config = LoggerConfig::from_spec("stdout=WARNING");
    assert_eq!(config.stdout_level, LevelFilter::Warn);
    let config = LoggerConfig::from_spec("stdout=Error;fileout=warning;A=Warning;B=WARN");
    assert_eq!(config.stdout_level, LevelFilter::Error);
    assert_eq!(config.fileout_level, LevelFilter::Warn);
    assert_eq!(config.component_level.get("A"), Some(LevelFilter::Warn));
    assert_eq!(config.component_level.get("B"), Some(LevelFilter::Warn));
    assert_eq!(config.component_level.len(), 2);
}

#[test]
fn from_spec_ignores_trace() {
    let config = LoggerConfig::from_spec("stdout=TRACE;fileout=trace;A=Trace");
    assert_eq!(config, LoggerConfig::default());
}

#[test]
fn from_spec_component_keys_are_those_with_a_severity() {
    let config = LoggerConfig::from_spec(
        "A=info;B=loud;C;D=;stdout=debug;fileout=off;E=OFF;A=error;is_colored=info;F=warning=x",
    );
    assert_eq!(config.component_level.len(), 4);
    assert_eq!(config.component_level.get("A"), Some(LevelFilter::Error));
    assert_eq!(config.component_level.get("E"), Some(LevelFilter::Off));
    assert_eq!(config.component_level.get("is_colored"), Some(LevelFilter::Info));
    assert_eq!(config.component_level.get("F"), Some(LevelFilter::Warn));
    assert_eq!(config.component_level.get("B"), None);
    assert_eq!(config.component_level.get("C"), None);
    assert_eq!(config.component_level.get("D"), None);
    assert_eq!(config.component_level.get("stdout"), None);
    assert_eq!(config.component_level.get("fileout"), None);
    assert_eq!(config.stdout_level, LevelFilter::Debug);
    assert_eq!(config.fileout_level, LevelFilter::Off);
    assert!(!config.is_colored);
}

#[test]
fn from_spec_keys_and_flags_are_exact() {
    let config = LoggerConfig::from_spec("Stdout=Error;IS_COLORED; print_config");
    assert_eq!(config.stdout_level, LevelFilter::Info);
    assert!(!config.is_colored);
    assert!(!config.print_config);
    assert_eq!(config.component_level.get("Stdout"), Some(LevelFilter::Error));
    assert_eq!(config.component_level.len(), 1);
}

#[test]
fn from_spec_reads_no_further_than_the_second_part() {
    let config = LoggerConfig::from_spec("Risk=debug=error;=info");
    assert_eq!(config.component_level.get("Risk"), Some(LevelFilter::Debug));
    assert_eq!(config.component_level.get(""), Some(LevelFilter::Info));
    assert_eq!(config.component_level.len(), 2);
}

#[test]
fn from_spec_later_tokens_win() {
    let config = LoggerConfig::from_spec("stdout=Error;Risk=Info;stdout=Debug;Risk=Warn");
    assert_eq!(config.stdout_level, LevelFilter::Debug);
    assert_eq!(config.component_level.get("Risk"), Some(LevelFilter::Warn));
    assert_eq!(config.component_level.len(), 1);
}

#[test]
fn apply_token_sets_one_thing() {
    let config = LoggerConfig::default().apply_token("fileout=Info");
    assert_eq!(config.fileout_level, LevelFilter::Info);
    assert_eq!(config.stdout_level, LevelFilter::Info);
    let config = config.apply_token("is_colored");
    assert!(config.is_colored);
    assert_eq!(config.fileout_level, LevelFilter::Info);
}

#[test]
fn split_keeps_empty_pieces() {
    assert_eq!(split("", ';'), vec!["".to_string()]);
    assert_eq!(split("a", ';'), vec!["a".to_string()]);
    assert_eq!(split("a;;b", ';'), vec!["a".to_string(), "".to_string(), "b".to_string()]);
    assert_eq!(split(";a;", ';'), vec!["".to_string(), "a".to_string(), "".to_string()]);
    assert_eq!(split("k=v", '='), vec!["k".to_string(), "v".to_string()]);
    assert_eq!(split("\u{e9}=\u{1f600}", '='), vec!["\u{e9}".to_string(), "\u{1f600}".to_string()]);
}

#[test]
fn component_levels_insert_and_get() {
    let mut map = ComponentLevels::new();
    assert_eq!(map.len(), 0);
    assert_eq!(map.get("Risk"), None);
    map.insert("Risk".to_string(), LevelFilter::Error);
    map.insert("Data".to_string(), LevelFilter::Debug);
    assert_eq!(map.len(), 2);
    assert_eq!(map.get("Risk"), Some(LevelFilter::Error));
    assert_eq!(map.get("Data"), Some(LevelFilter::Debug));
    assert_eq!(map.get("risk"), None);
    map.insert("Risk".to_string(), LevelFilter::Off);
    assert_eq!(map.len(), 2);
    assert_eq!(map.get("Risk"), Some(LevelFilter::Off));
    assert_eq!(map.get("Data"), Some(LevelFilter::Debug));
}

#[test]
fn component_levels_equality_ignores_order() {
    let a = levels(&[("Risk", LevelFilter::Error), ("Data", LevelFilter::Debug)]);
    let b = levels(&[("Data", LevelFilter::Debug), ("Risk", LevelFilter::Error)]);
    let c = levels(&[("Data", LevelFilter::Debug), ("Risk", LevelFilter::Warn)]);
    let d = levels(&[("Data", LevelFilter::Debug)]);
    let e = levels(&[("Data", LevelFilter::Debug), ("Exec", LevelFilter::Error)]);
    assert!(a == b);
    assert!(a != c);
    assert!(a != d);
    assert!(d != a);
    assert!(a != e);
    assert!(a.clone() == a);
    assert_eq!(a.to_vec().len(), 2);
}

#[test]
fn parse_component_levels_reads_each_pair() {
    let pairs = vec![
        ("RiskEngine".to_string(), "ERROR".to_string()),
        ("Portfolio".to_string(), "warning".to_string()),
        ("DataEngine".to_string(), "debug".to_string()),
    ];
    let map = parse_component_levels(Some(pairs));
    assert_eq!(map.len(), 3);
    assert_eq!(map.get("RiskEngine"), Some(LevelFilter::Error));
    assert_eq!(map.get("Portfolio"), Some(LevelFilter::Warn));
    assert_eq!(map.get("DataEngine"), Some(LevelFilter::Debug));
    assert_eq!(parse_component_levels(None).len(), 0);
    assert_eq!(parse_component_levels(Some(vec![])).len(), 0);
}

#[test]
fn try_parse_component_levels_fails_on_a_bad_level() {
    let good = vec![("A".to_string(), "info".to_string()), ("A".to_string(), "off".to_string())];
    let map = try_parse_component_levels(Some(good)).unwrap();
    assert_eq!(map.len(), 1);
    assert_eq!(map.get("A"), Some(LevelFilter::Off));
    let bad = vec![("A".to_string(), "info".to_string()), ("B".to_string(), "high".to_string())];
    assert!(try_parse_component_levels(Some(bad)).is_none());
    assert_eq!(try_parse_component_levels(None).unwrap().len(), 0);
}

#[test]
fn same_ignoring_ascii_case_folds_ascii_letters_only() {
    assert!(same_ignoring_ascii_case("", ""));
    assert!(same_ignoring_ascii_case("Warning", "wARNING"));
    assert!(same_ignoring_ascii_case("a1_\u{e9}", "A1_\u{e9}"));
    assert!(!same_ignoring_ascii_case("\u{e9}", "\u{c9}"));
    assert!(!same_ignoring_ascii_case("warn", "warning"));
    assert!(!same_ignoring_ascii_case("warn", "warm"));
    assert!(!same_ignoring_ascii_case("k", "\u{212a}"));
    assert!(!same_ignoring_ascii_case("@", "`"));
    assert!(!same_ignoring_ascii_case("[", "{"));
    assert_eq!(fold_ascii('A'), 'a');
    assert_eq!(fold_ascii('Z'), 'z');
    assert_eq!(fold_ascii('a'), 'a');
    assert_eq!(fold_ascii('@'), '@');
    assert_eq!(fold_ascii('['), '[');
    assert_eq!(fold_ascii('\u{c9}'), '\u{c9}');
    assert_eq!(chars_of("a\u{e9}\u{1f600}"), vec!['a', '\u{e9}', '\u{1f600}']);
}
