use sshscan::model::{Response, SshInfo, Target};
use sshscan::record::encode;

fn target(ip: &str, port: u16) -> Target {
    Target { ip: ip.to_string(), port }
}

fn failure(ip: &str, port: u16, error: &str) -> Response {
    Response::failure(target(ip, port), error.to_string())
}

fn success(ip: &str, port: u16, banner: Option<&str>, auth_methods: &str) -> Response {
    Response::success(
        target(ip, port),
        SshInfo { banner: banner.map(|b| b.to_string()), auth_methods: auth_methods.to_string() },
    )
}

#[test]
fn a_failure_as_a_record() {
    assert_eq!(
        encode(&failure("127.0.0.1", 1, "Connection refused (os error 111)")),
        "{\"target\":{\"ip\":\"127.0.0.1\",\"port\":1},\"error\":\"Connection refused (os error 111)\",\"ssh_info\":null}"
    );
}

#[test]
fn a_success_as_a_record() {
    assert_eq!(
        encode(&success("203.0.113.5", 22, Some("SSH-2.0-OpenSSH_9.6"), "publickey,password")),
        "{\"target\":{\"ip\":\"203.0.113.5\",\"port\":22},\"error\":null,\"ssh_info\":{\"banner\":\"SSH-2.0-OpenSSH_9.6\",\"auth_methods\":\"publickey,password\"}}"
    );
}

#[test]
fn a_success_without_banner_as_a_record() {
    assert_eq!(
        encode(&success("h", 65535, None, "")),
        "{\"target\":{\"ip\":\"h\",\"port\":65535},\"error\":null,\"ssh_info\":{\"banner\":null,\"auth_methods\":\"\"}}"
    );
}

#[test]
fn special_characters_are_escaped() {
    assert_eq!(
        encode(&failure("a\"b\\c", 0, "\u{0}\u{1}\u{7}\u{8}\t\n\u{b}\u{c}\r\u{e}\u{1f} \u{7f}/é\u{2028}😀")),
        "{\"target\":{\"ip\":\"a\\\"b\\\\c\",\"port\":0},\"error\":\"\\u0000\\u0001\\u0007\\b\\t\\n\\u000b\\f\\r\\u000e\\u001f \u{7f}/é\u{2028}😀\",\"ssh_info\":null}"
    );
}

#[test]
fn a_record_is_one_line() {
    let r = success("multi\nline\r\n", 1, Some("SSH-2.0-x\r\n"), "a\nb");
    let line = encode(&r);
    assert!(!line.contains('\n'));
    assert!(!line.contains('\r'));
}

#[test]
fn a_record_is_json_with_the_three_members() {
    let r = success("203.0.113.5", 22, Some("SSH-2.0-\"odd\"\\\u{1}"), "publickey,password");
    let v: serde_json::Value = serde_json::from_str(&encode(&r)).unwrap();
    let o = v.as_object().unwrap();
    assert_eq!(o.len(), 3);
    assert_eq!(v["target"]["ip"].as_str(), Some("203.0.113.5"));
    assert_eq!(v["target"]["port"].as_u64(), Some(22));
    assert!(v["error"].is_null());
    assert_eq!(v["ssh_info"]["banner"].as_str(), Some("SSH-2.0-\"odd\"\\\u{1}"));
    assert_eq!(v["ssh_info"]["auth_methods"].as_str(), Some("publickey,password"));

    let r = failure("127.0.0.1", 1, "connection refused");
    let v: serde_json::Value = serde_json::from_str(&encode(&r)).unwrap();
    assert_eq!(v.as_object().unwrap().len(), 3);
    assert_eq!(v["error"].as_str(), Some("connection refused"));
    assert!(v["ssh_info"].is_null());
}

#[test]
fn every_character_survives_a_json_reader() {
    let mut all = String::new();
    for code in 0u32..0x300 {
        all.push(char::from_u32(code).unwrap());
    }
    all.push('\u{d7ff}');
    all.push('\u{e000}');
    all.push('\u{10ffff}');
    let line = encode(&failure(&all, 7, &all));
    let v: serde_json::Value = serde_json::from_str(&line).unwrap();
    assert_eq!(v["target"]["ip"].as_str(), Some(all.as_str()));
    assert_eq!(v["error"].as_str(), Some(all.as_str()));
}

#[test]
fn a_record_reads_back_as_the_response() {
    let made = vec![
        failure("127.0.0.1", 1, "Connection refused (os error 111)"),
        failure("", 0, ""),
        failure("a\"b\\c", 65535, "\u{0}\u{1}\u{7}\u{8}\t\n\u{b}\u{c}\r\u{e}\u{1f} \u{7f}/é\u{2028}😀"),
        failure("null", 10, "null"),
        failure("{\"target\":{}}", 100, "\\u0041"),
        success("203.0.113.5", 22, Some("SSH-2.0-OpenSSH_9.6"), "publickey,password"),
        success("h", 1000, None, ""),
        success("h", 9, Some(""), "\"},\"auth_methods\":\""),
        success("::1", 2222, Some("SSH-2.0-x\r\n"), "a\nb"),
    ];
    for r in made {
        let line = sshscan::record::encode(&r);
        assert_eq!(sshscan::record::decode(&line), Some(r), "{}", line);
    }
}

#[test]
fn every_character_reads_back() {
    let mut all = String::new();
    for code in 0u32..0x300 {
        all.push(char::from_u32(code).unwrap());
    }
    all.push('\u{d7ff}');
    all.push('\u{e000}');
    all.push('\u{10ffff}');
    let r = success(&all, 7, Some(&all), &all);
    assert_eq!(sshscan::record::decode(&encode(&r)), Some(r));
    let r = failure(&all, 7, &all);
    assert_eq!(sshscan::record::decode(&encode(&r)), Some(r));
}

#[test]
fn every_port_reads_back() {
    for port in 0u16..=65535 {
        if port < 1200 || port % 251 == 0 || port > 65000 {
            let r = failure("h", port, "e");
            assert_eq!(sshscan::record::decode(&encode(&r)), Some(r));
        }
    }
}

#[test]
fn a_line_that_is_no_record_reads_as_nothing() {
    let good = "{\"target\":{\"ip\":\"h\",\"port\":22},\"error\":\"e\",\"ssh_info\":null}";
    assert_eq!(sshscan::record::decode(good), Some(failure("h", 22, "e")));
    for line in [
        "",
        "{}",
        "null",
        "{\"target\":{\"ip\":\"h\",\"port\":22},\"error\":\"e\",\"ssh_info\":null",
        "{\"target\":{\"ip\":\"h\",\"port\":22},\"error\":\"e\",\"ssh_info\":null}\n",
        "{\"target\":{\"ip\":\"h\",\"port\":22},\"error\":\"e\",\"ssh_info\":null} ",
        " {\"target\":{\"ip\":\"h\",\"port\":22},\"error\":\"e\",\"ssh_info\":null}",
        "{\"target\": {\"ip\":\"h\",\"port\":22},\"error\":\"e\",\"ssh_info\":null}",
        "{\"target\":{\"port\":22,\"ip\":\"h\"},\"error\":\"e\",\"ssh_info\":null}",
        "{\"error\":\"e\",\"target\":{\"ip\":\"h\",\"port\":22},\"ssh_info\":null}",
        "{\"target\":{\"ip\":\"h\",\"port\":022},\"error\":\"e\",\"ssh_info\":null}",
        "{\"target\":{\"ip\":\"h\",\"port\":+22},\"error\":\"e\",\"ssh_info\":null}",
        "{\"target\":{\"ip\":\"h\",\"port\":0x16},\"error\":\"e\",\"ssh_info\":null}",
        "{\"target\":{\"ip\":\"h\",\"port\":65536},\"error\":\"e\",\"ssh_info\":null}",
        "{\"target\":{\"ip\":\"h\",\"port\":},\"error\":\"e\",\"ssh_info\":null}",
        "{\"target\":{\"ip\":\"h\",\"port\":\"22\"},\"error\":\"e\",\"ssh_info\":null}",
        "{\"target\":{\"ip\":h,\"port\":22},\"error\":\"e\",\"ssh_info\":null}",
        "{\"target\":{\"ip\":null,\"port\":22},\"error\":\"e\",\"ssh_info\":null}",
        "{\"target\":{\"ip\":\"h\",\"port\":22},\"error\":\"\\u0065\",\"ssh_info\":null}",
        "{\"target\":{\"ip\":\"h\",\"port\":22},\"error\":\"\\u000A\",\"ssh_info\":null}",
        "{\"target\":{\"ip\":\"h\",\"port\":22},\"error\":\"\\u000a\",\"ssh_info\":null}",
        "{\"target\":{\"ip\":\"h\",\"port\":22},\"error\":\"\\/\",\"ssh_info\":null}",
        "{\"target\":{\"ip\":\"h\",\"port\":22},\"error\":\"\\x\",\"ssh_info\":null}",
        "{\"target\":{\"ip\":\"h\",\"port\":22},\"error\":\"\\\",\"ssh_info\":null}",
        "{\"target\":{\"ip\":\"h\",\"port\":22},\"error\":\"\\u00\",\"ssh_info\":null}",
        "{\"target\":{\"ip\":\"h\",\"port\":22},\"error\":\"\\u00zz\",\"ssh_info\":null}",
        "{\"target\":{\"ip\":\"h\",\"port\":22},\"error\":\"\\ud83d\\ude00\",\"ssh_info\":null}",
        "{\"target\":{\"ip\":\"h\",\"port\":22},\"error\":\"a\nb\",\"ssh_info\":null}",
        "{\"target\":{\"ip\":\"h\",\"port\":22},\"error\":\"e,\"ssh_info\":null}",
        "{\"target\":{\"ip\":\"h\",\"port\":22},\"error\":e,\"ssh_info\":null}",
        "{\"target\":{\"ip\":\"h\",\"port\":22},\"error\":nul,\"ssh_info\":null}",
        "{\"target\":{\"ip\":\"h\",\"port\":22},\"error\":\"e\",\"ssh_info\":{}}",
        "{\"target\":{\"ip\":\"h\",\"port\":22},\"error\":null,\"ssh_info\":{\"auth_methods\":\"a\",\"banner\":null}}",
        "{\"target\":{\"ip\":\"h\",\"port\":22},\"error\":null,\"ssh_info\":{\"banner\":null,\"auth_methods\":null}}",
        "{\"target\":{\"ip\":\"h\",\"port\":22},\"error\":null,\"ssh_info\":{\"banner\":null,\"auth_methods\":\"a\"}",
        "{\"target\":{\"ip\":\"h\",\"port\":22},\"error\":null,\"ssh_info\":{\"banner\":null,\"auth_methods\":\"a\"}}}",
        "{\"target\":{\"ip\":\"h\",\"port\":22},\"error\":\"e\"}",
        "{\"target\":{\"ip\":\"h\",\"port\":22},\"ssh_info\":null}",
    ] {
        assert_eq!(sshscan::record::decode(line), None, "{}", line);
    }
}

#[test]
fn a_line_with_both_or_neither_is_no_record() {
    let neither = "{\"target\":{\"ip\":\"h\",\"port\":22},\"error\":null,\"ssh_info\":null}";
    let both = "{\"target\":{\"ip\":\"h\",\"port\":22},\"error\":\"e\",\"ssh_info\":{\"banner\":null,\"auth_methods\":\"a\"}}";
    let one = "{\"target\":{\"ip\":\"h\",\"port\":22},\"error\":null,\"ssh_info\":{\"banner\":null,\"auth_methods\":\"a\"}}";
    assert_eq!(sshscan::record::decode(neither), None);
    assert_eq!(sshscan::record::decode(both), None);
    assert_eq!(sshscan::record::decode(one), Some(success("h", 22, None, "a")));
    for line in [neither, both, one] {
        assert!(serde_json::from_str::<serde_json::Value>(line).is_ok());
    }
}

#[test]
fn different_responses_have_different_records() {
    let made = vec![
        failure("h", 22, "e"),
        failure("h", 22, ""),
        failure("h", 23, "e"),
        failure("i", 22, "e"),
        failure("h", 22, "null"),
        success("h", 22, None, "e"),
        success("h", 22, Some("e"), ""),
        success("h", 22, Some(""), "e"),
        success("h", 22, None, ""),
        success("h", 22, Some("null"), ""),
    ];
    for (i, a) in made.iter().enumerate() {
        for (j, b) in made.iter().enumerate() {
            assert_eq!(i == j, encode(a) == encode(b));
        }
    }
}
