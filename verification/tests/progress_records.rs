use rclone_gui::extractor::{parse_rclone_progress, progress_from};
use rclone_gui::json::{parse_json, Json};
use rclone_gui::progress::{Percent, ProgressInfo};
use rclone_gui::stats::{
    completion_progress_of, ratio_of, record_progress_of, stats_percent_of, stats_progress_of,
};

fn info(thousandths: u64, transferred: u64, total: u64) -> ProgressInfo {
    ProgressInfo { percent: Percent { thousandths }, transferred, total }
}

fn chars(s: &str) -> Vec<char> {
    s.chars().collect()
}

fn object(members: Vec<(&str, &str)>) -> Json {
    Json::Object(members.into_iter().map(|(k, v)| (k.to_string(), v.to_string())).collect())
}

#[test]
fn record_with_all_bytes_and_settled_transfers_is_complete() {
    let line = r#"{"stats":{"bytes":500,"totalBytes":500,"transfers":1,"transferring":[]}}"#;
    assert_eq!(parse_rclone_progress(line), Some(info(100_000, 500, 500)));
    let p = parse_rclone_progress(line).unwrap();
    assert_eq!((p.percent.thousandths as f64) / 1000.0, 100.0);
}

#[test]
fn record_with_zero_total_is_zero_percent() {
    let line = r#"{"stats":{"bytes":0,"totalBytes":0}}"#;
    assert_eq!(parse_rclone_progress(line), Some(info(0, 0, 0)));
    let line = r#"{"stats":{"bytes":10,"totalBytes":0,"transfers":3,"transferring":[]}}"#;
    assert_eq!(parse_rclone_progress(line), Some(info(0, 10, 0)));
    let line = r#"{"stats":{"bytes":0,"totalBytes":0,"transfers":0,"transferring":[]}}"#;
    assert_eq!(parse_rclone_progress(line), Some(info(0, 0, 0)));
}

#[test]
fn record_with_nothing_to_move_and_settled_transfers_is_complete() {
    let line = r#"{"stats":{"bytes":0,"totalBytes":0,"transfers":1,"transferring":[]}}"#;
    assert_eq!(parse_rclone_progress(line), Some(info(100_000, 0, 0)));
    let line = r#"{"stats":{"bytes":0,"totalBytes":0,"transfers":1}}"#;
    assert_eq!(parse_rclone_progress(line), Some(info(100_000, 0, 0)));
}

#[test]
fn record_with_a_transfer_under_way_is_not_forced_complete() {
    let line =
        r#"{"stats":{"bytes":0,"totalBytes":0,"transfers":1,"transferring":[{"name":"a"}]}}"#;
    assert_eq!(parse_rclone_progress(line), Some(info(0, 0, 0)));
}

#[test]
fn record_percentage_is_the_ratio_rounded_down() {
    let line = r#"{"stats":{"bytes":250,"totalBytes":1000,"transfers":0,"transferring":[{}]}}"#;
    assert_eq!(parse_rclone_progress(line), Some(info(25_000, 250, 1000)));
    let line = r#"{"stats":{"bytes":1,"totalBytes":3}}"#;
    assert_eq!(parse_rclone_progress(line), Some(info(33_333, 1, 3)));
    let line = r#"{"stats":{"bytes":2,"totalBytes":3}}"#;
    assert_eq!(parse_rclone_progress(line), Some(info(66_666, 2, 3)));
}

#[test]
fn record_counters_at_the_top_level() {
    let line = r#"{"bytes":10,"totalBytes":40}"#;
    assert_eq!(parse_rclone_progress(line), Some(info(25_000, 10, 40)));
}

#[test]
fn record_counters_under_other_names() {
    let line = r#"{"stats":{"transferred":10,"total":40}}"#;
    assert_eq!(parse_rclone_progress(line), Some(info(25_000, 10, 40)));
    let line = r#"{"transferred":30,"total":40}"#;
    assert_eq!(parse_rclone_progress(line), Some(info(75_000, 30, 40)));
}

#[test]
fn record_places_are_tried_in_order() {
    let line = r#"{"bytes":1,"totalBytes":2,"stats":{"bytes":3,"totalBytes":4}}"#;
    assert_eq!(parse_rclone_progress(line), Some(info(75_000, 3, 4)));
    let line = r#"{"bytes":1,"totalBytes":2,"stats":{"transferred":3,"total":4}}"#;
    assert_eq!(parse_rclone_progress(line), Some(info(50_000, 1, 2)));
    let line = r#"{"transferred":1,"total":2,"stats":{"transferred":3,"total":4}}"#;
    assert_eq!(parse_rclone_progress(line), Some(info(75_000, 3, 4)));
    let line = r#"{"bytes":1,"totalBytes":2,"stats":{"bytes":3}}"#;
    assert_eq!(parse_rclone_progress(line), Some(info(50_000, 1, 2)));
}

#[test]
fn record_counters_must_be_whole_and_not_negative() {
    assert_eq!(parse_rclone_progress(r#"{"stats":{"bytes":-1,"totalBytes":4}}"#), None);
    assert_eq!(parse_rclone_progress(r#"{"stats":{"bytes":1.5,"totalBytes":4}}"#), None);
    assert_eq!(parse_rclone_progress(r#"{"stats":{"bytes":"1","totalBytes":4}}"#), None);
    assert_eq!(parse_rclone_progress(r#"{"stats":[1,4]}"#), None);
}

#[test]
fn record_of_one_copied_file() {
    let line = r#"{"level":"info","msg":"Copied (new)","object":"a.txt","size":1234}"#;
    assert_eq!(parse_rclone_progress(line), Some(info(100_000, 1234, 1234)));
    let line = r#"{"level":"info","msg":"a.txt: Copied (replaced existing)","size":0}"#;
    assert_eq!(parse_rclone_progress(line), Some(info(100_000, 0, 0)));
}

#[test]
fn record_of_another_message_says_nothing() {
    assert_eq!(parse_rclone_progress(r#"{"level":"error","msg":"Copied (new)","size":5}"#), None);
    assert_eq!(parse_rclone_progress(r#"{"level":"info","msg":"Deleted","size":5}"#), None);
    assert_eq!(parse_rclone_progress(r#"{"level":"info","msg":"Copied (new)"}"#), None);
    assert_eq!(parse_rclone_progress(r#"{"level":"info","size":5}"#), None);
    assert_eq!(parse_rclone_progress(r#"{"msg":"Copied (new)","size":5}"#), None);
}

#[test]
fn record_counters_come_before_the_copied_file() {
    let line = r#"{"level":"info","msg":"Copied (new)","size":9,"stats":{"bytes":1,"totalBytes":4}}"#;
    assert_eq!(parse_rclone_progress(line), Some(info(25_000, 1, 4)));
}

#[test]
fn record_that_says_nothing_is_read_as_text() {
    let line = r#"{"msg":"Transferred: 1 / 2, 50%"}"#;
    assert_eq!(parse_rclone_progress(line), Some(info(50_000, 1, 2)));
    assert_eq!(parse_rclone_progress(r#"{"msg":"nothing"}"#), None);
    assert_eq!(parse_rclone_progress("[1, 2, 3]"), None);
    assert_eq!(parse_rclone_progress("12"), None);
    assert_eq!(parse_rclone_progress("{ broken"), None);
}

#[test]
fn record_comes_before_text() {
    let line = r#"{"msg":"Transferred: 1 / 2, 50%","stats":{"bytes":3,"totalBytes":4}}"#;
    assert_eq!(parse_rclone_progress(line), Some(info(75_000, 3, 4)));
}

#[test]
fn progress_from_a_given_value() {
    let record = object(vec![("stats", r#"{"bytes":5,"totalBytes":10}"#)]);
    assert_eq!(
        progress_from(&Some(record), &chars("Transferred: 1 / 2, 9%")),
        Some(info(50_000, 5, 10))
    );
    assert_eq!(
        progress_from(&Some(Json::Null), &chars("Transferred: 1 / 2, 9%")),
        Some(info(9_000, 1, 2))
    );
    assert_eq!(progress_from(&None, &chars("Transferred: 1 / 2, 9%")), Some(info(9_000, 1, 2)));
    assert_eq!(progress_from(&None, &chars("no progress")), None);
}

#[test]
fn stats_of_a_built_value() {
    let scope =
        object(vec![("bytes", "7"), ("totalBytes", "7"), ("transfers", "2"), ("transferring", "[]")]);
    assert_eq!(stats_progress_of(&scope), Some(info(100_000, 7, 7)));
    assert_eq!(record_progress_of(&scope), Some(info(100_000, 7, 7)));
    assert_eq!(completion_progress_of(&scope), None);
    let first_wins = object(vec![("bytes", "1"), ("bytes", "2"), ("totalBytes", "4")]);
    assert_eq!(stats_progress_of(&first_wins), Some(info(25_000, 1, 4)));
    let unreadable = object(vec![("bytes", "one"), ("totalBytes", "4")]);
    assert_eq!(stats_progress_of(&unreadable), None);
    assert_eq!(stats_progress_of(&Json::Bool(true)), None);
    assert_eq!(stats_progress_of(&Json::Text("bytes".to_string())), None);
}

#[test]
fn json_lookups() {
    let value = object(vec![("a", "1"), ("b", "\"x\""), ("c", "[null,false]"), ("d", "-1")]);
    assert_eq!(value.get_text("a"), Some("1"));
    assert_eq!(value.get("a").and_then(|v| v.as_natural()), Some(1));
    assert_eq!(value.get("b").and_then(|v| v.as_str().map(|s| s.to_string())).as_deref(), Some("x"));
    assert_eq!(value.get("c").and_then(|v| v.len_of_array()), Some(2));
    assert_eq!(value.get("c").and_then(|v| v.to_items()).map(|v| v.len()), Some(2));
    assert_eq!(value.get("d").and_then(|v| v.as_natural()), None);
    assert!(value.get("e").is_none());
    assert!(value.get("A").is_none());
    assert!(value.get_text("e").is_none());
    assert!(Json::Null.get("a").is_none());
    assert_eq!(Json::Number(Some(3)).as_str(), None);
    assert_eq!(Json::Number(Some(3)).len_of_array(), None);
    assert!(Json::Number(Some(3)).to_items().is_none());
    assert_eq!(Json::Text("t".to_string()).as_natural(), None);
    assert_eq!(Json::Bool(true).as_bool(), Some(true));
    assert_eq!(Json::Null.as_bool(), None);
    let items = Json::Array(vec!["1".to_string(), "broken".to_string(), "true".to_string()]);
    let read = items.to_items().unwrap();
    assert_eq!(read[0].as_natural(), Some(1));
    assert!(matches!(read[1], Json::Null));
    assert_eq!(read[2].as_bool(), Some(true));
}

#[test]
fn ratio_and_forced_completion() {
    assert_eq!(ratio_of(0, 0), Percent { thousandths: 0 });
    assert_eq!(ratio_of(5, 0), Percent { thousandths: 0 });
    assert_eq!(ratio_of(1, 8), Percent { thousandths: 12_500 });
    assert_eq!(ratio_of(8, 8), Percent { thousandths: 100_000 });
    assert_eq!(ratio_of(16, 8), Percent { thousandths: 200_000 });
    assert_eq!(ratio_of(u64::MAX, 1), Percent { thousandths: u64::MAX });
    assert_eq!(ratio_of(u64::MAX, u64::MAX), Percent { thousandths: 100_000 });
    assert_eq!(stats_percent_of(0, 0, true), Percent { thousandths: 100_000 });
    assert_eq!(stats_percent_of(0, 0, false), Percent { thousandths: 0 });
    assert_eq!(stats_percent_of(1, 2, true), Percent { thousandths: 50_000 });
}

fn shape(value: &Json) -> String {
    match value {
        Json::Null => "null".to_string(),
        Json::Bool(b) => format!("bool:{}", b),
        Json::Number(n) => format!("number:{:?}", n),
        Json::Text(s) => format!("text:{}", s),
        Json::Array(_) => format!(
            "[{}]",
            value.to_items().unwrap().iter().map(shape).collect::<Vec<String>>().join(",")
        ),
        Json::Object(members) => format!(
            "{{{}}}",
            members
                .iter()
                .map(|(k, _)| format!("{}={}", k, shape(&value.get(k).unwrap())))
                .collect::<Vec<String>>()
                .join(",")
        ),
    }
}

#[test]
fn json_text_is_read_into_a_tree() {
    let value = parse_json(r#"{"a":[1,-2,3.5,"x",true,null],"b":{"c":18446744073709551615}}"#).unwrap();
    assert_eq!(
        shape(&value),
        "{a=[number:Some(1),number:None,number:None,text:x,bool:true,null],b={c=number:Some(18446744073709551615)}}"
    );
    assert_eq!(shape(&parse_json("  7 ").unwrap()), "number:Some(7)");
    assert_eq!(shape(&parse_json(r#""\u00fc""#).unwrap()), "text:ü");
    assert_eq!(shape(&parse_json("[]").unwrap()), "[]");
    assert_eq!(shape(&parse_json("{}").unwrap()), "{}");
    assert_eq!(shape(&parse_json(r#"{"a b":"c \"d\"","e":["f,g"]}"#).unwrap()), "{a b=text:c \"d\",e=[text:f,g]}");
}

#[test]
fn text_that_is_no_json_is_not_read() {
    assert!(parse_json("").is_none());
    assert!(parse_json("{").is_none());
    assert!(parse_json("{\"a\":1} trailing").is_none());
    assert!(parse_json("Transferred: 1 / 2, 50%").is_none());
    assert!(parse_json("nul").is_none());
}

#[test]
fn repeated_member_is_read_once() {
    let value = parse_json(r#"{"a":1,"a":2}"#).unwrap();
    assert_eq!(value.get("a").and_then(|v| v.as_natural()), Some(2));
    match &value {
        Json::Object(members) => assert_eq!(members.len(), 1),
        _ => panic!("no object"),
    }
}
