use fwon_rs::bench::{BenchmarkResult, Stopwatch};
use fwon_rs::generator::{generate_one, generate_records_parallel, random_string};
use fwon_rs::random::{RandomSource, SplitMix64, ThreadRandom};

#[test]
fn zero_records_yield_empty_sequence() {
    let records = generate_records_parallel(0);
    assert!(records.is_empty());
}

#[test]
fn one_record_yields_one_block() {
    let records = generate_records_parallel(1);
    assert_eq!(records.len(), 1);
    let text = String::from_utf8(records[0].clone()).unwrap();
    assert_eq!(text.matches("# --- Record ").count(), 1);
    assert!(text.starts_with("\n# --- Record 0 ---\n"));
    assert!(text.ends_with("\n\n"));
}

#[test]
fn records_come_back_in_identifier_order() {
    let records = generate_records_parallel(25);
    assert_eq!(records.len(), 25);
    for (i, record) in records.iter().enumerate() {
        let text = String::from_utf8(record.clone()).unwrap();
        assert!(text.starts_with(&format!("\n# --- Record {} ---\n", i)));
        assert!(text.contains(&format!("\nUserID={}\n", i)));
    }
}

#[test]
fn thousand_records_have_distinct_identifiers() {
    let records = generate_records_parallel(1000);
    assert_eq!(records.len(), 1000);
    let mut all: Vec<u8> = Vec::new();
    for r in &records {
        all.extend_from_slice(r);
    }
    assert!(!all.is_empty());
    let text = String::from_utf8(all).unwrap();
    assert_eq!(text.matches("# --- Record ").count(), 1000);
    let mut seen = vec![false; 1000];
    for line in text.split('\n') {
        if let Some(v) = line.strip_prefix("UserID=") {
            let id: usize = v.parse().unwrap();
            assert!(id < 1000);
            assert!(!seen[id]);
            seen[id] = true;
        }
    }
    assert!(seen.iter().all(|&s| s));
}

#[test]
fn session_counts_and_usernames_vary_across_records() {
    let records = generate_records_parallel(300);
    let mut session_counts = [false; 3];
    let mut usernames: Vec<String> = Vec::new();
    for record in &records {
        let text = String::from_utf8(record.clone()).unwrap();
        let sessions = text.split('\n').filter(|l| l.starts_with("Sessions=")).count();
        assert!(sessions <= 2);
        session_counts[sessions] = true;
        for line in text.split('\n') {
            if let Some(v) = line.strip_prefix("Username=") {
                usernames.push(v.split('_').next().unwrap().to_string());
            }
        }
    }
    assert!(session_counts[0] && session_counts[1] && session_counts[2]);
    usernames.sort();
    usernames.dedup();
    assert!(usernames.len() > 1);
}

#[test]
fn generate_one_produces_a_single_well_formed_block() {
    let record = generate_one(17);
    let text = String::from_utf8(record).unwrap();
    assert!(text.starts_with("\n# --- Record 17 ---\n"));
    assert!(text.contains("\nUserID=17\n"));
    assert!(text.ends_with("\n\n"));
}

#[test]
fn thread_random_draws_stay_below_bound() {
    let mut rng = ThreadRandom::new();
    for _ in 0..200 {
        assert!(rng.next_below(7) < 7);
    }
}

#[test]
fn random_string_is_lowercase_of_requested_length() {
    let mut rng = SplitMix64::new(5);
    let s = random_string(&mut rng, 15);
    assert_eq!(s.len(), 15);
    assert!(s.chars().all(|c| c.is_ascii_lowercase()));
    let t = random_string(&mut rng, 0);
    assert!(t.is_empty());
}

#[test]
fn benchmark_result_total_covers_both_phases() {
    let r = BenchmarkResult::from_measurements(5, 7, 10);
    assert_eq!(r.gen_time_micros, 5);
    assert_eq!(r.write_time_micros, 7);
    assert_eq!(r.total_time_micros, 10);
    let clamped = BenchmarkResult::from_measurements(5, 7, 3);
    assert_eq!(clamped.total_time_micros, 7);
    let clamped_gen = BenchmarkResult::from_measurements(9, 2, 1);
    assert_eq!(clamped_gen.total_time_micros, 9);
    assert!(clamped.total_time_micros >= clamped.gen_time_micros);
    assert!(clamped.total_time_micros >= clamped.write_time_micros);
}

#[test]
fn stopwatch_readings_never_decrease() {
    let mut sw = Stopwatch::begin();
    let a = sw.elapsed_micros();
    let records = generate_records_parallel(10);
    assert_eq!(records.len(), 10);
    let b = sw.elapsed_micros();
    assert!(b >= a);
    let c = sw.elapsed_micros();
    assert!(c >= b);
}
