use harletty::bridge::fold_config::{default_true, DtsFoldConfig, FoldRoute, FoldSource};
use harletty::bridge::logging::{
    bridge_diag_log, bridge_external_log, drc_diag_log_enabled, host_log_level, is_bridge_target,
    is_forwarded, panic_message, trim, LevelFilter, PanicPayload,
};
use harletty::level::Level;
use harletty::text::{decimal, hex, parse_byte, same_text, same_text_ignoring_case};

#[test]
fn the_bridges_own_records_reach_the_host_sink_and_a_decoders_do_not() {
    let record = bridge_external_log(Level::Warn, "harletty_bridge", "host sink probe 42\n\n");
    assert_eq!(record.level, Level::Warn);
    assert_eq!(record.target, "harletty_bridge");
    assert_eq!(record.message, "host sink probe 42");
    assert!(is_forwarded(Level::Warn, LevelFilter::Info, "harletty_bridge"));
    assert!(!is_forwarded(
        Level::Error,
        LevelFilter::Info,
        "starmine_ad::eac3dec::aux"
    ));
}

#[test]
fn only_the_bridges_own_targets_count() {
    assert!(is_bridge_target("harletty_bridge"));
    assert!(is_bridge_target("harletty_bridge::dts_pipeline"));
    assert!(!is_bridge_target("harletty_bridge_tools"));
    assert!(!is_bridge_target("harletty"));
    assert!(!is_forwarded(Level::Debug, LevelFilter::Info, "harletty_bridge"));
    assert!(!is_forwarded(Level::Error, LevelFilter::Off, "harletty_bridge"));
    assert!(is_forwarded(Level::Trace, LevelFilter::Trace, "harletty_bridge::a"));
}

#[test]
fn diagnostics_have_their_own_target() {
    let record = bridge_diag_log(Level::Info, "\n");
    assert_eq!(record.target, "harletty-bridge::diag");
    assert_eq!(record.message, "");
}

#[test]
fn the_host_level_is_a_bare_level_or_info() {
    assert_eq!(host_log_level(None), LevelFilter::Info);
    assert_eq!(host_log_level(Some(" debug\n")), LevelFilter::Debug);
    assert_eq!(host_log_level(Some("ERROR")), LevelFilter::Error);
    assert_eq!(host_log_level(Some("Warn")), LevelFilter::Warn);
    assert_eq!(host_log_level(Some("trace")), LevelFilter::Trace);
    assert_eq!(host_log_level(Some("off")), LevelFilter::Off);
    assert_eq!(host_log_level(Some("harletty=debug")), LevelFilter::Info);
    assert_eq!(host_log_level(Some("")), LevelFilter::Info);
}

#[test]
fn drc_diagnostics_are_on_unless_zero() {
    assert!(!drc_diag_log_enabled(None));
    assert!(!drc_diag_log_enabled(Some("0")));
    assert!(drc_diag_log_enabled(Some("1")));
    assert!(drc_diag_log_enabled(Some("")));
}

#[test]
fn panics_are_named() {
    assert_eq!(panic_message(PanicPayload::Text("boom")), "boom");
    assert_eq!(panic_message(PanicPayload::Owned("bang".to_string())), "bang");
    assert_eq!(
        panic_message(PanicPayload::Other),
        "Unknown panic during frame processing"
    );
}

#[test]
fn texts_are_trimmed_compared_and_written() {
    for text in ["", " ", " a b ", "\u{3000}x\u{85}", "x\u{200b}", "\t\r\n"] {
        assert_eq!(trim(text), text.trim());
    }
    assert!(same_text("dts:x", "dts:x"));
    assert!(!same_text("dts", "dtsx"));
    assert!(same_text_ignoring_case("tFl", "TfL"));
    assert!(!same_text_ignoring_case("\u{e9}", "\u{c9}"));
    assert_eq!(decimal(0), "0");
    assert_eq!(decimal(1309), "1309");
    assert_eq!(hex(0x0A), "0A");
    assert_eq!(hex(0xF9), "F9");
    for text in ["0", "7", "+8", "255", "256", "00012", "-1", "", "+", "9a", "99999999999"] {
        assert_eq!(parse_byte(text), text.parse::<u8>().ok(), "{}", text);
    }
}

#[test]
fn fold_gains_are_found_in_any_case() {
    let config = DtsFoldConfig {
        sources: vec![FoldSource {
            source: "TFL".to_string(),
            routes: vec![
                FoldRoute {
                    target: "C".to_string(),
                    gain_db: -6.0,
                },
                FoldRoute {
                    target: "l".to_string(),
                    gain_db: -3.01,
                },
            ],
        }],
        estimate_unknown: default_true(),
    };
    assert_eq!(config.gain_db("L", "tfl"), Some(&-3.01));
    assert_eq!(config.gain_db("R", "TFL"), None);
    assert_eq!(config.gain_db("L", "TFR"), None);
    assert!(config.estimate_unknown);
}
