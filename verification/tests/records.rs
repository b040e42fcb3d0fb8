use fwon_rs::digits::{money_decimal, ts_decimal, u64_to_decimal};
use fwon_rs::generator::FwonRecordGenerator;
use fwon_rs::random::{RandomSource, SplitMix64};

fn record_lines(bytes: &[u8]) -> Vec<String> {
    let text = String::from_utf8(bytes.to_vec()).unwrap();
    assert!(text.ends_with('\n'));
    text.split('\n').map(|s| s.to_string()).collect()
}

fn count_prefixed(lines: &[String], key: &str) -> usize {
    lines.iter().filter(|l| l.starts_with(key)).count()
}

const FIXED_NOW: u64 = 1_700_000_123_456_789;

fn sample_record(seed: u64) -> Vec<u8> {
    let mut rng = SplitMix64::new(seed);
    FwonRecordGenerator::generate_record_bytes_at(7, FIXED_NOW, &mut rng)
}

#[test]
fn record_is_framed_by_blank_lines() {
    let lines = record_lines(&sample_record(1));
    // split on '\n' leaves one empty string after the final newline
    assert_eq!(lines[0], "");
    assert_eq!(lines[lines.len() - 1], "");
    assert_eq!(lines[lines.len() - 2], "");
    assert!(lines[1].starts_with("# --- Record 7 ---"));
}

#[test]
fn record_has_exactly_one_of_each_field() {
    for seed in 0..20u64 {
        let lines = record_lines(&sample_record(seed));
        assert_eq!(count_prefixed(&lines, "UserID="), 1);
        assert_eq!(count_prefixed(&lines, "Username="), 1);
        assert_eq!(count_prefixed(&lines, "Email="), 1);
        assert_eq!(count_prefixed(&lines, "IsActive="), 1);
        assert_eq!(count_prefixed(&lines, "Balance="), 1);
        assert_eq!(count_prefixed(&lines, "JoinedTimestamp="), 1);
        assert_eq!(count_prefixed(&lines, "FavoriteProjects="), 1);
        assert_eq!(count_prefixed(&lines, "Settings="), 1);
        assert_eq!(count_prefixed(&lines, "History="), 2);
        let sessions = count_prefixed(&lines, "Sessions=");
        assert!(sessions <= 2);
    }
}

#[test]
fn record_field_values_are_well_formed() {
    let lines = record_lines(&sample_record(3));
    let uid = lines.iter().find(|l| l.starts_with("UserID=")).unwrap();
    assert_eq!(uid, "UserID=7");
    let username = lines.iter().find(|l| l.starts_with("Username=")).unwrap();
    let uname_val = &username["Username=".len()..];
    assert!(uname_val.ends_with("_7"));
    let stem = &uname_val[..uname_val.len() - 2];
    assert_eq!(stem.len(), 8);
    assert!(stem.chars().all(|c| c.is_ascii_lowercase()));
    let email = lines.iter().find(|l| l.starts_with("Email=")).unwrap();
    let email_val = &email["Email=".len()..];
    assert!(email_val.ends_with("@teaserverse.com"));
    assert_eq!(email_val.len(), 5 + "@teaserverse.com".len());
    let active = lines.iter().find(|l| l.starts_with("IsActive=")).unwrap();
    let active_val = &active["IsActive=".len()..];
    assert!(active_val == "true" || active_val == "false");
    assert_eq!(
        lines.iter().find(|l| l.starts_with("FavoriteProjects=")).unwrap(),
        "FavoriteProjects=TeaserWorkspace,TeaserPaste,EmmieryAI"
    );
    let settings = lines.iter().find(|l| l.starts_with("Settings=")).unwrap();
    assert!(
        settings == "Settings={{Theme=dark;Language=vi;Notifications=true;BetaUser=false}}"
            || settings == "Settings={{Theme=light;Language=vi;Notifications=true;BetaUser=false}}"
    );
}

#[test]
fn balance_has_exactly_two_decimals() {
    for seed in 0..50u64 {
        let lines = record_lines(&sample_record(seed));
        let bal = lines.iter().find(|l| l.starts_with("Balance=")).unwrap();
        let val = &bal["Balance=".len()..];
        let b = val.as_bytes();
        assert!(b.len() >= 4);
        assert_eq!(b[b.len() - 3], b'.');
        assert!(b[b.len() - 2].is_ascii_digit());
        assert!(b[b.len() - 1].is_ascii_digit());
        assert_eq!(val.matches('.').count(), 1);
        let parsed: f64 = val.parse().unwrap();
        assert!((0.0..10000.50).contains(&parsed));
    }
}

#[test]
fn timestamps_round_trip_with_minimal_digits() {
    for seed in 0..50u64 {
        let lines = record_lines(&sample_record(seed));
        let mut values: Vec<String> = Vec::new();
        for l in &lines {
            if let Some(v) = l.strip_prefix("JoinedTimestamp=") {
                values.push(v.to_string());
            }
            if let Some(p) = l.find(";Timestamp=") {
                let after = &l[p + ";Timestamp=".len()..];
                let v = after.trim_end_matches(']');
                values.push(v.to_string());
            }
        }
        assert!(values.len() >= 3);
        for v in values {
            let parsed: f64 = v.parse().unwrap();
            let mut buf = ryu::Buffer::new();
            assert_eq!(buf.format(parsed), v.as_str());
        }
    }
}

#[test]
fn deterministic_source_reproduces_bytes() {
    let a = sample_record(42);
    let b = sample_record(42);
    assert_eq!(a, b);
    let c = {
        let mut rng = SplitMix64::new(42);
        FwonRecordGenerator::generate_record_bytes_at(0, FIXED_NOW, &mut rng)
    };
    let d = {
        let mut rng = SplitMix64::new(42);
        FwonRecordGenerator::generate_record_bytes_at(0, FIXED_NOW, &mut rng)
    };
    assert_eq!(c, d);
}

#[test]
fn decimal_renderers_match_expected_text() {
    assert_eq!(u64_to_decimal(0), "0");
    assert_eq!(u64_to_decimal(90210), "90210");
    assert_eq!(money_decimal(0), "0.00");
    assert_eq!(money_decimal(5), "0.05");
    assert_eq!(money_decimal(123456), "1234.56");
    assert_eq!(money_decimal(1000049), "10000.49");
    assert_eq!(ts_decimal(0), "0.0");
    assert_eq!(ts_decimal(2_000_000), "2.0");
    assert_eq!(ts_decimal(1_500_000), "1.5");
    assert_eq!(ts_decimal(1_234_567), "1.234567");
    assert_eq!(ts_decimal(1_200_000), "1.2");
    assert_eq!(ts_decimal(FIXED_NOW), "1700000123.456789");
}

#[test]
fn splitmix_draws_stay_below_bound() {
    let mut rng = SplitMix64::new(9);
    for _ in 0..200 {
        let v = rng.next_below(26);
        assert!(v < 26);
    }
    let mut any_true = false;
    let mut any_false = false;
    for _ in 0..200 {
        if rng.next_bool() {
            any_true = true;
        } else {
            any_false = true;
        }
    }
    assert!(any_true && any_false);
}
