use sandbox_manager::json::Json;
use sandbox_manager::metrics::{
    disk_usage, is_session_file, latest_session_file, line_metrics, line_tally, network_traffic,
    parse_claude_metrics, session_dir_name, ClaudeMetrics, DiskSpace, DiskUsage, SessionFile,
    Traffic,
};
use sandbox_manager::record::Timestamp;

fn zero() -> ClaudeMetrics {
    ClaudeMetrics::default()
}

fn text(s: &str) -> Json {
    Json::Text(s.to_string())
}

fn object(members: Vec<(&str, Json)>) -> Json {
    Json::Object(members.into_iter().map(|(k, v)| (k.to_string(), v)).collect())
}

#[test]
fn default_metrics_are_zero() {
    let m = ClaudeMetrics::default();
    assert_eq!(
        m,
        ClaudeMetrics {
            input_tokens: 0,
            output_tokens: 0,
            cache_creation_tokens: 0,
            cache_read_tokens: 0,
            message_count: 0,
            tool_use_count: 0,
        }
    );
}

#[test]
fn assistant_line_adds_usage_and_tool_uses() {
    let line = br#"{"type":"assistant","message":{"usage":{"input_tokens":10,"output_tokens":20,"cache_creation_input_tokens":3,"cache_read_input_tokens":4},"content":[{"type":"text","text":"hi"},{"type":"tool_use","name":"x"},{"type":"tool_use"},{"kind":"tool_use"},7]}}"#;
    let m = line_metrics(line);
    assert_eq!(
        m,
        ClaudeMetrics {
            input_tokens: 10,
            output_tokens: 20,
            cache_creation_tokens: 3,
            cache_read_tokens: 4,
            message_count: 0,
            tool_use_count: 2,
        }
    );
}

#[test]
fn user_line_adds_one_message() {
    let m = line_metrics(br#"{"type":"user","message":{"usage":{"input_tokens":10}}}"#);
    assert_eq!(m, ClaudeMetrics { message_count: 1, ..zero() });
}

#[test]
fn other_lines_add_nothing() {
    assert_eq!(line_metrics(br#"{"type":"summary"}"#), zero());
    assert_eq!(line_metrics(br#"{"type":7}"#), zero());
    assert_eq!(line_metrics(br#"{"message":{}}"#), zero());
    assert_eq!(line_metrics(br#"["type","user"]"#), zero());
    assert_eq!(line_metrics(b"not json"), zero());
    assert_eq!(line_metrics(b""), zero());
    assert_eq!(line_metrics(br#"{"type":"user"} trailing"#), zero());
}

#[test]
fn figures_that_are_no_whole_numbers_count_as_zero() {
    let line = br#"{"type":"assistant","message":{"usage":{"input_tokens":-5,"output_tokens":1.5,"cache_creation_input_tokens":"9","cache_read_input_tokens":18446744073709551615},"content":"none"}}"#;
    let m = line_metrics(line);
    assert_eq!(m, ClaudeMetrics { cache_read_tokens: u64::MAX, ..zero() });
}

#[test]
fn usage_under_an_array_message_is_not_found() {
    let line = br#"{"type":"assistant","message":[{"usage":{"input_tokens":5}}]}"#;
    assert_eq!(line_metrics(line), zero());
}

#[test]
fn line_tally_reads_a_tree() {
    let record = object(vec![
        ("type", text("assistant")),
        (
            "message",
            object(vec![
                (
                    "usage",
                    object(vec![
                        ("input_tokens", Json::Number(Some(7))),
                        ("output_tokens", Json::Number(None)),
                        ("cache_read_input_tokens", Json::Bool(true)),
                    ]),
                ),
                (
                    "content",
                    Json::Array(vec![
                        object(vec![("type", text("tool_use"))]),
                        object(vec![("type", text("tool_result"))]),
                        Json::Null,
                    ]),
                ),
            ]),
        ),
    ]);
    assert_eq!(line_tally(&record), ClaudeMetrics { input_tokens: 7, tool_use_count: 1, ..zero() });
    assert_eq!(
        line_tally(&object(vec![("type", text("user"))])),
        ClaudeMetrics { message_count: 1, ..zero() }
    );
    assert_eq!(line_tally(&Json::Null), zero());
}

#[test]
fn tree_accessors() {
    let doc = object(vec![("a", Json::Number(Some(1))), ("b", text("x")), ("a", Json::Null)]);
    assert!(matches!(doc.get("a"), Some(Json::Number(Some(1)))));
    assert_eq!(doc.get("b").and_then(|v| v.as_str()), Some("x"));
    assert!(doc.get("c").is_none());
    assert!(Json::Null.get("a").is_none());
    assert_eq!(Json::Number(Some(4)).as_u64(), Some(4));
    assert_eq!(Json::Number(None).as_u64(), None);
    assert_eq!(text("4").as_u64(), None);
    assert_eq!(Json::Array(vec![Json::Null]).as_array().map(|v| v.len()), Some(1));
    assert!(doc.as_array().is_none());
    assert!(doc.as_str().is_none());
}

#[test]
fn session_file_is_summed_line_by_line() {
    let lines = vec![
        r#"{"type":"user"}"#,
        "\n",
        r#"{"type":"assistant","message":{"usage":{"input_tokens":100,"output_tokens":50},"content":[{"type":"tool_use"}]}}"#,
        "\r\n",
        "garbage\n",
        "\n",
        r#"{"type":"user"}"#,
        "\n",
        r#"{"type":"assistant","message":{"usage":{"input_tokens":1,"output_tokens":2,"cache_creation_input_tokens":3,"cache_read_input_tokens":4}}}"#,
    ];
    let contents = lines.concat();
    let m = parse_claude_metrics(contents.as_bytes()).expect("fits");
    assert_eq!(
        m,
        ClaudeMetrics {
            input_tokens: 101,
            output_tokens: 52,
            cache_creation_tokens: 3,
            cache_read_tokens: 4,
            message_count: 2,
            tool_use_count: 1,
        }
    );
}

#[test]
fn empty_session_file_counts_nothing() {
    assert_eq!(parse_claude_metrics(b""), Some(zero()));
    assert_eq!(parse_claude_metrics(b"\n\n\n"), Some(zero()));
}

#[test]
fn session_file_whose_figures_outgrow_the_range_gives_none() {
    let line = r#"{"type":"assistant","message":{"usage":{"input_tokens":18446744073709551615}}}"#;
    let once = format!("{}\n", line);
    assert_eq!(
        parse_claude_metrics(once.as_bytes()),
        Some(ClaudeMetrics { input_tokens: u64::MAX, ..zero() })
    );
    let twice = format!("{}\n{}\n", line, line);
    assert_eq!(parse_claude_metrics(twice.as_bytes()), None);
}

#[test]
fn checked_add_sums_field_by_field() {
    let a = ClaudeMetrics {
        input_tokens: 1,
        output_tokens: 2,
        cache_creation_tokens: 3,
        cache_read_tokens: 4,
        message_count: 5,
        tool_use_count: 6,
    };
    let b = ClaudeMetrics {
        input_tokens: 10,
        output_tokens: 20,
        cache_creation_tokens: 30,
        cache_read_tokens: 40,
        message_count: 50,
        tool_use_count: 60,
    };
    assert_eq!(
        a.checked_add(&b),
        Some(ClaudeMetrics {
            input_tokens: 11,
            output_tokens: 22,
            cache_creation_tokens: 33,
            cache_read_tokens: 44,
            message_count: 55,
            tool_use_count: 66,
        })
    );
    let top = ClaudeMetrics { tool_use_count: u64::MAX, ..zero() };
    assert_eq!(top.checked_add(&a), None);
    assert_eq!(top.checked_add(&zero()), Some(top));
}

#[test]
fn session_directory_name_replaces_slashes() {
    assert_eq!(session_dir_name("/path/to/project"), "-path-to-project");
    assert_eq!(session_dir_name("plain"), "plain");
    assert_eq!(session_dir_name(""), "");
    assert_eq!(session_dir_name("//a-b/"), "--a-b-");
    assert_eq!(session_dir_name("/h\u{e9}/x"), "-h\u{e9}-x");
}

#[test]
fn session_files_end_in_jsonl() {
    assert!(is_session_file("a.jsonl"));
    assert!(is_session_file("3f2a9c1e-0b7d.jsonl"));
    assert!(is_session_file("..jsonl"));
    assert!(!is_session_file(".jsonl"));
    assert!(!is_session_file("jsonl"));
    assert!(!is_session_file("a.json"));
    assert!(!is_session_file("a.jsonl.bak"));
    assert!(!is_session_file("a.JSONL"));
    assert!(!is_session_file(""));
}

fn file(name: &str, modified: Option<(i64, u32)>) -> SessionFile {
    SessionFile {
        name: name.to_string(),
        modified: modified.map(|(secs, nanos)| Timestamp { secs, nanos }),
    }
}

#[test]
fn latest_session_file_is_the_one_last_modified() {
    let files = vec![
        file("a.jsonl", Some((10, 0))),
        file("notes.txt", Some((99, 0))),
        file("b.jsonl", Some((30, 5))),
        file("c.jsonl", None),
        file("d.jsonl", Some((30, 5))),
        file("e.jsonl", Some((30, 4))),
    ];
    assert_eq!(latest_session_file(&files), Some(2));
    assert_eq!(latest_session_file(&files[..2].into_iter().map(|f| file(&f.name, f.modified.map(|t| (t.secs, t.nanos)))).collect()), Some(0));
}

#[test]
fn latest_session_file_of_none_is_none() {
    assert_eq!(latest_session_file(&Vec::new()), None);
    assert_eq!(
        latest_session_file(&vec![file("notes.txt", Some((1, 0))), file("a.jsonl", None)]),
        None
    );
}

#[test]
fn disk_usage_adds_sizes_and_takes_off_what_is_free() {
    let disks = vec![
        DiskSpace { total: 100, available: 40 },
        DiskSpace { total: 1000, available: 1000 },
        DiskSpace { total: 50, available: 0 },
    ];
    assert_eq!(disk_usage(&disks), Some(DiskUsage { used: 110, total: 1150 }));
    assert_eq!(disk_usage(&Vec::new()), Some(DiskUsage { used: 0, total: 0 }));
}

#[test]
fn disk_usage_gives_none_when_a_figure_leaves_the_range() {
    assert_eq!(disk_usage(&vec![DiskSpace { total: 10, available: 11 }]), None);
    assert_eq!(
        disk_usage(&vec![
            DiskSpace { total: 10, available: 0 },
            DiskSpace { total: 5, available: 12 },
        ]),
        Some(DiskUsage { used: 3, total: 15 })
    );
    assert_eq!(
        disk_usage(&vec![
            DiskSpace { total: u64::MAX, available: u64::MAX },
            DiskSpace { total: 1, available: 1 },
        ]),
        None
    );
    assert_eq!(
        disk_usage(&vec![
            DiskSpace { total: u64::MAX, available: 0 },
            DiskSpace { total: 1, available: 1 },
            DiskSpace { total: 0, available: 0 },
        ]),
        None
    );
}

#[test]
fn network_traffic_adds_both_directions() {
    let interfaces = vec![
        Traffic { received: 5, transmitted: 7 },
        Traffic { received: 50, transmitted: 70 },
    ];
    assert_eq!(network_traffic(&interfaces), Some(Traffic { received: 55, transmitted: 77 }));
    assert_eq!(network_traffic(&Vec::new()), Some(Traffic { received: 0, transmitted: 0 }));
    assert_eq!(
        network_traffic(&vec![
            Traffic { received: u64::MAX, transmitted: 0 },
            Traffic { received: 1, transmitted: 0 },
        ]),
        None
    );
}
