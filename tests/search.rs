use vanity_keys::config::{parse_args, Command, Config};
use vanity_keys::keygen::public_key;
use vanity_keys::pattern::compile_pattern;
use vanity_keys::search::{check_candidate, check_private, reached_target, Reporter, Worker, BATCH};

const ALICE_PRIVATE: [u8; 32] = [
    0x77, 0x07, 0x6d, 0x0a, 0x73, 0x18, 0xa5, 0x7d, 0x3c, 0x16, 0xc1, 0x72, 0x51, 0xb2, 0x66, 0x45,
    0xdf, 0x4c, 0x2f, 0x87, 0xeb, 0xc0, 0x99, 0x2a, 0xb1, 0x77, 0xfb, 0xa5, 0x1d, 0xb9, 0x2c, 0x2a,
];

#[test]
fn candidate_hit_gives_both_texts() {
    let pk = public_key(&ALICE_PRIVATE);
    let pats = vec![compile_pattern("hSDw").unwrap()];
    let f = check_candidate(&ALICE_PRIVATE, &pk, &pats).unwrap();
    assert_eq!(f.public_text, b"hSDwCYkwp1R0i33ctD73Wg2/Og0mOBr066SpjqqbTmo=".to_vec());
    assert_eq!(f.private_text, b"dwdtCnMYpX08FsFyUbJmRd9ML4frwJkqsXf7pR25LCo=".to_vec());
    assert_eq!(f.private, ALICE_PRIVATE);
}

#[test]
fn candidate_miss() {
    let pk = public_key(&ALICE_PRIVATE);
    let pats = vec![compile_pattern("AAAA").unwrap(), compile_pattern("ZZ").unwrap()];
    assert!(check_candidate(&ALICE_PRIVATE, &pk, &pats).is_none());
}

#[test]
fn private_key_derives_public() {
    let pats = vec![compile_pattern("Tmo").unwrap()];
    let f = check_private(&ALICE_PRIVATE, &pats).unwrap();
    assert!(f.public_text.starts_with(b"hSDw"));
    assert!(f.public_text.ends_with(b"Tmo="));
}

#[test]
fn worker_flushes_full_batches() {
    let pats = vec![compile_pattern("AAAAAAAAAAAA").unwrap()];
    let mut w = Worker::new().unwrap();
    let mut flushed = 0u64;
    for _ in 0..(BATCH + 10) {
        let a = w.attempt(&pats);
        assert!(a.flush == 0 || a.flush == BATCH);
        assert_eq!(a.private[0] & 7, 0);
        assert_eq!(a.found.is_some(), check_private(&a.private, &pats).is_some());
        flushed += a.flush;
    }
    assert_eq!(flushed, BATCH);
    assert_eq!(w.finish(), 10);
    assert_eq!(w.finish(), 0);
}

#[test]
fn stop_decision() {
    assert!(!reached_target(1, 2));
    assert!(reached_target(2, 2));
    assert!(reached_target(3, 2));
}

#[test]
fn reporter_rate() {
    let mut r = Reporter::new();
    assert_eq!(r.sample(5000), 1000);
    assert_eq!(r.sample(5004), 0);
    assert_eq!(r.sample(5014), 2);
}

/// Runs the workers in turn on one thread, each step as a worker thread of
/// the program makes it, and returns the found public texts, the final
/// total of attempts and the match count.
fn run_search(cfg: &Config) -> (Vec<Vec<u8>>, u64, u64) {
    let mut stop = false;
    let mut total = 0u64;
    let mut found = 0u64;
    let mut hits = Vec::new();
    let mut workers: Vec<Option<Worker>> = (0..cfg.threads).map(|_| Some(Worker::new().unwrap())).collect();
    while workers.iter().any(|w| w.is_some()) {
        for slot in workers.iter_mut() {
            let Some(w) = slot.as_mut() else { continue };
            let mut exit = stop;
            if !exit {
                let a = w.attempt(&cfg.patterns);
                total += a.flush;
                if let Some(f) = a.found {
                    hits.push(f.public_text);
                    found += 1;
                    if reached_target(found, cfg.count) {
                        stop = true;
                        exit = true;
                    }
                }
            }
            if exit {
                total += w.finish();
                *slot = None;
            }
        }
    }
    (hits, total, found)
}

fn config_of(words: &[&str]) -> Config {
    let mut v = vec!["vanity".to_string()];
    v.extend(words.iter().map(|w| w.to_string()));
    match parse_args(&v) {
        Ok(Command::Run(c)) => c,
        _ => panic!("expected a run"),
    }
}

#[test]
fn single_thread_finds_one_key() {
    let cfg = config_of(&["-t", "1", "-c", "1", "-s", "A"]);
    let (hits, total, found) = run_search(&cfg);
    assert_eq!(found, 1);
    assert_eq!(hits.len(), 1);
    assert!(hits[0].starts_with(b"A") || hits[0].ends_with(b"A="));
    assert!(total >= 1);
}

#[test]
fn two_patterns_four_threads() {
    let cfg = config_of(&["-s", "AA", "-s", "ZZ", "-c", "2", "-t", "4"]);
    let (hits, total, found) = run_search(&cfg);
    assert!(found >= 2 && found <= 5);
    assert_eq!(hits.len() as u64, found);
    assert!(total >= found);
    for h in &hits {
        let by_aa = h.starts_with(b"AA") || h.ends_with(b"AA=");
        let by_zz = h.starts_with(b"ZZ") || h.ends_with(b"ZZ=");
        assert!(by_aa || by_zz);
    }
}
