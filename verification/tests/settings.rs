use foundry_judge::job::{job_to_json, read_job, JobMessage, PathWithContent};
use foundry_judge::json::Json;
use foundry_judge::palette::{slot_colour, Rgb, MAX_SLOTS};
use foundry_judge::settings::{parse_timeout, plan_slots, plan_slots_from, require, resolve};
use foundry_judge::text::{is_whitespace, trim};
use foundry_judge::workspace::{child_path, create_files_as_job_message};

#[test]
fn command_line_wins_over_environment_and_default() {
    assert_eq!(resolve(Some("c".to_string()), Some("e".to_string()), "d"), "c");
    assert_eq!(resolve(None, Some("e".to_string()), "d"), "e");
    assert_eq!(resolve(None, None, "d"), "d");
    assert_eq!(resolve(Some(String::new()), Some("e".to_string()), "d"), "");
}

#[test]
fn settings_without_default_are_required() {
    assert_eq!(require("q1".to_string(), "Question no", "QUESTION_NO", "question-no").unwrap(), "q1");
    assert_eq!(
        require(String::new(), "Question no", "QUESTION_NO", "question-no").unwrap_err(),
        "Question no should not be empty, please set it via env QUESTION_NO or pass it by --question-no <question-no>"
    );
    assert_eq!(
        require(String::new(), "Job id no", "JOB_ID", "job-id").unwrap_err(),
        "Job id no should not be empty, please set it via env JOB_ID or pass it by --job-id <job-id>"
    );
}

#[test]
fn timeout_is_a_number_of_seconds() {
    assert_eq!(parse_timeout("5"), Some(5));
    assert_eq!(parse_timeout("0"), Some(0));
    assert_eq!(parse_timeout("+7"), Some(7));
    assert_eq!(parse_timeout("-1"), None);
    assert_eq!(parse_timeout("-0"), None);
    assert_eq!(parse_timeout("18446744073709551615"), Some(u64::MAX));
    assert_eq!(parse_timeout("18446744073709551616"), None);
    for text in ["0", "+0", "-0", "007", "+", "-", "", " 5", "5 ", "9223372036854775808", "1e3"] {
        assert_eq!(parse_timeout(text), text.parse::<u64>().ok(), "{:?}", text);
    }
    assert_eq!(parse_timeout("5s"), None);
    assert_eq!(parse_timeout(""), None);
}

#[test]
fn slots_are_numbered_from_zero() {
    let slots = plan_slots(5, "tmp/worker");
    assert_eq!(slots.len(), 5);
    for (i, slot) in slots.iter().enumerate() {
        assert_eq!(slot.slot_index as usize, i);
        assert_eq!(slot.worker_dir, "tmp/worker");
    }
    assert!(plan_slots(0, "w").is_empty());
    assert!(plan_slots(-3, "w").is_empty());
    assert_eq!(plan_slots(20, "w").len(), 20);
    assert_eq!(plan_slots(1000, "w").len(), 20);
    assert_eq!(plan_slots_from("3", "w").unwrap().len(), 3);
    assert!(plan_slots_from("three", "w").is_none());
}

#[test]
fn every_slot_has_its_colour() {
    assert_eq!(MAX_SLOTS, 20);
    assert_eq!(slot_colour(0), Some(Rgb { red: 238, green: 63, blue: 77 }));
    assert_eq!(slot_colour(9), Some(Rgb { red: 249, green: 211, blue: 103 }));
    assert_eq!(slot_colour(19), Some(Rgb { red: 91, green: 174, blue: 35 }));
    assert_eq!(slot_colour(20), None);
    assert_eq!(slot_colour(255), None);
    for a in 0..MAX_SLOTS {
        for b in 0..a {
            assert_ne!(slot_colour(a), slot_colour(b));
        }
    }
}

#[test]
fn white_space_is_what_std_says() {
    for code in 0u32..=0x10ffff {
        if let Some(c) = char::from_u32(code) {
            assert_eq!(is_whitespace(c), c.is_whitespace(), "U+{:04X}", code);
            if code < 0x3100 {
                assert_eq!(trim(&c.to_string()).is_empty(), c.is_whitespace(), "U+{:04X}", code);
            }
        }
    }
}

#[test]
fn entries_of_a_walk_get_relative_paths() {
    assert_eq!(child_path("", "A.sol"), "A.sol");
    assert_eq!(child_path("test", "A.t.sol"), "test/A.t.sol");
    assert_eq!(child_path("a/b", "c"), "a/b/c");
}

#[test]
fn slots_plan_different_paths() {
    let job = |q: &str, path: &str| JobMessage {
        question_no: q.to_string(),
        solc_version: "0.8.20".to_string(),
        judge_job_id: "j".to_string(),
        job_key: "k".to_string(),
        path_with_content: vec![PathWithContent { path: path.to_string(), content: String::new() }],
    };
    let mut seen = std::collections::HashSet::new();
    for slot in [0u8, 1, 9, 10, 11, 19, 99, 100, 101, 110, 255] {
        for (q, path) in [("q", "a"), ("0/q", "a"), ("q", "0/a"), ("/q", "/a"), ("q", "./a")] {
            let plan = create_files_as_job_message(&job(q, path), slot, "w").unwrap();
            seen.insert((slot, plan[0].path.clone()));
        }
    }
    let paths: std::collections::HashSet<_> = seen.iter().map(|(_, p)| p.clone()).collect();
    for path in &paths {
        assert_eq!(seen.iter().filter(|(_, p)| p == path).map(|(s, _)| *s).collect::<std::collections::HashSet<_>>().len(), 1);
    }
}

#[test]
fn job_with_odd_texts_survives_encoding() {
    let job = JobMessage {
        question_no: "q \"1\"".to_string(),
        solc_version: String::new(),
        judge_job_id: "ü\n".to_string(),
        job_key: "k:1".to_string(),
        path_with_content: Vec::new(),
    };
    let back = read_job(&Json::from_text(&job_to_json(&job).to_text()).unwrap()).unwrap();
    assert_eq!(back.question_no, job.question_no);
    assert_eq!(back.solc_version, job.solc_version);
    assert_eq!(back.judge_job_id, job.judge_job_id);
    assert_eq!(back.job_key, job.job_key);
    assert!(back.path_with_content.is_empty());
}
