use foundry_judge::client::{read_files_to_json, ErrorCode as ClientError};
use foundry_judge::job::{derive_job_key, job_to_json, read_job, JobMessage, PathWithContent};
use foundry_judge::json::Json;
use foundry_judge::server::{
    get_job_message_by_payload, get_job_message_by_redis_value, get_value_str, BrokerItem,
    BrokerValue, ErrorCode,
};

fn sample_job() -> JobMessage {
    JobMessage {
        question_no: "q1".to_string(),
        solc_version: "0.8.20".to_string(),
        judge_job_id: "job-7".to_string(),
        job_key: "smc-open-foundry-judge:q1".to_string(),
        path_with_content: vec![
            PathWithContent { path: "test/A.t.sol".to_string(), content: "contract A {}".to_string() },
            PathWithContent { path: "contracts/B.sol".to_string(), content: "contract B {}".to_string() },
        ],
    }
}

const PAYLOAD: &str = "{\"questionNo\":\"q1\",\"solcVersion\":\"0.8.20\",\"judgeJobId\":\"job-7\",\"jobKey\":\"smc-open-foundry-judge:q1\",\"pathWithContent\":[{\"path\":\"test/A.t.sol\",\"content\":\"contract A {}\"}]}";

#[test]
fn job_key_is_namespace_and_question_set() {
    assert_eq!(derive_job_key("q1"), "smc-open-foundry-judge:q1");
    assert_eq!(derive_job_key(""), "smc-open-foundry-judge:");
}

#[test]
fn job_survives_encoding_and_decoding() {
    let job = sample_job();
    let text = job_to_json(&job).to_text();
    let back = read_job(&Json::from_text(&text).unwrap()).unwrap();
    assert_eq!(back.question_no, job.question_no);
    assert_eq!(back.solc_version, job.solc_version);
    assert_eq!(back.judge_job_id, job.judge_job_id);
    assert_eq!(back.job_key, job.job_key);
    assert_eq!(back.path_with_content.len(), 2);
    assert_eq!(back.path_with_content[0].path, "test/A.t.sol");
    assert_eq!(back.path_with_content[1].content, "contract B {}");
}

#[test]
fn job_is_read_from_payload() {
    let job = get_job_message_by_payload(PAYLOAD).unwrap();
    assert_eq!(job.question_no, "q1");
    assert_eq!(job.job_key, "smc-open-foundry-judge:q1");
    assert_eq!(job.path_with_content.len(), 1);
}

#[test]
fn payload_that_is_no_job_is_refused() {
    match get_job_message_by_payload("{oops") {
        Err(ErrorCode::DataNotJson(m)) => {
            assert_eq!(m, "Data err(key must be a string at line 1 column 2)")
        }
        other => panic!("{:?}", other),
    }
    match get_job_message_by_payload("{\"questionNo\":\"q1\"}") {
        Err(ErrorCode::DataNotJson(m)) => assert_eq!(m, "Data err(not a job message)"),
        other => panic!("{:?}", other),
    }
    let wrong_file = "{\"questionNo\":\"q\",\"solcVersion\":\"v\",\"judgeJobId\":\"j\",\"jobKey\":\"k\",\"pathWithContent\":[{\"path\":1,\"content\":\"c\"}]}";
    assert!(matches!(get_job_message_by_payload(wrong_file), Err(ErrorCode::DataNotJson(_))));
}

#[test]
fn job_is_claimed_from_popped_value() {
    let rv = BrokerValue::Bulk(vec![
        BrokerItem::Data(b"test".to_vec()),
        BrokerItem::Data(PAYLOAD.as_bytes().to_vec()),
    ]);
    let job = get_job_message_by_redis_value(&rv).unwrap();
    assert_eq!(job.judge_job_id, "job-7");
}

#[test]
fn empty_list_gives_no_new_message() {
    match get_job_message_by_redis_value(&BrokerValue::Nil) {
        Err(e) => {
            assert!(matches!(e, ErrorCode::NoNewMessage));
            assert_eq!(e.get_err_msg(), "No new message.");
        }
        Ok(_) => panic!("a job from nothing"),
    }
}

#[test]
fn unexpected_values_give_data_errors() {
    for rv in [
        BrokerValue::Other("int(5)".to_string()),
        BrokerValue::Data(b"x".to_vec()),
        BrokerValue::Bulk(Vec::new()),
        BrokerValue::Bulk(vec![BrokerItem::Data(b"test".to_vec())]),
    ] {
        match get_job_message_by_redis_value(&rv) {
            Err(ErrorCode::DataError(m)) => assert_eq!(m, "Data err(Unknown)"),
            other => panic!("{:?}", other),
        }
    }
    let rv = BrokerValue::Bulk(vec![
        BrokerItem::Data(b"test".to_vec()),
        BrokerItem::Other("int(5)".to_string()),
    ]);
    match get_job_message_by_redis_value(&rv) {
        Err(ErrorCode::DataError(m)) => assert_eq!(m, "Data err(Data not string type, int(5))"),
        other => panic!("{:?}", other),
    }
}

#[test]
fn value_text_is_lossy_utf8() {
    assert_eq!(get_value_str(&BrokerItem::Data("héllo".as_bytes().to_vec())).unwrap(), "héllo");
    assert_eq!(get_value_str(&BrokerItem::Data(vec![0x61, 0xff, 0x62])).unwrap(), "a\u{fffd}b");
    match get_value_str(&BrokerItem::Other("nil".to_string())) {
        Err(ErrorCode::DataNotString(d)) => assert_eq!(d, "nil"),
        other => panic!("{:?}", other),
    }
}

#[test]
fn error_messages() {
    assert_eq!(ErrorCode::RedisConnectErr("x".to_string()).get_err_msg(), "Redis connect exception: x");
    assert_eq!(ErrorCode::DataError("x".to_string()).get_err_msg(), "Data err x");
    assert_eq!(ErrorCode::DataNotJson("x".to_string()).get_err_msg(), "Data not json x");
    assert_eq!(ErrorCode::DataNotString("x".to_string()).get_err_msg(), "Data not string type, x");
    assert_eq!(ErrorCode::ReadDirErr("x".to_string()).get_err_msg(), "Data not string type, x");
    assert_eq!(ErrorCode::ForgeBuildFailure("x".to_string()).get_err_msg(), "x");
    assert_eq!(ErrorCode::ForgeCompileFailure("x".to_string()).get_err_msg(), "x");
    assert_eq!(ErrorCode::ForgeTestFailure("x".to_string()).get_err_msg(), "x");
    assert_eq!(ErrorCode::ResultJsonReadFailure("x".to_string()).get_err_msg(), "x");
    assert_eq!(ErrorCode::EmptyFile.get_err_msg(), "Empty file");
}

#[test]
fn submitted_message_names_the_handshake_key() {
    let files = vec![PathWithContent { path: "test/A.t.sol".to_string(), content: "c".to_string() }];
    let text = read_files_to_json("usercode", Some(files), "0.8.20", "q1", "job-7").unwrap();
    let job = get_job_message_by_payload(&text).unwrap();
    assert_eq!(job.question_no, "q1");
    assert_eq!(job.solc_version, "0.8.20");
    assert_eq!(job.judge_job_id, "job-7");
    assert_eq!(job.job_key, "smc-open-foundry-judge:q1");
    assert_eq!(job.path_with_content.len(), 1);
    assert_eq!(
        text,
        "{\"jobKey\":\"smc-open-foundry-judge:q1\",\"judgeJobId\":\"job-7\",\"pathWithContent\":[{\"content\":\"c\",\"path\":\"test/A.t.sol\"}],\"questionNo\":\"q1\",\"solcVersion\":\"0.8.20\"}"
    );
}

#[test]
fn missing_directory_is_an_error() {
    match read_files_to_json("nowhere", None, "0.8.20", "q1", "job-7") {
        Err(ClientError::DirectoryNotFound(p)) => assert_eq!(p, "nowhere"),
        other => panic!("{:?}", other),
    }
}
