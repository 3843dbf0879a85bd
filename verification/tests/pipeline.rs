use crossbeam::channel::{unbounded, Receiver, Sender};
use sshscan::model::{Response, SshInfo, Target};
use sshscan::probe::Connecting;
use sshscan::record::{decode, encode};
use sshscan::source::{read_targets, Fault, SourceError};

fn target(ip: &str, port: u16) -> Target {
    Target { ip: ip.to_string(), port }
}

/// A stand-in for the network: port 1 refuses, port 2 connects and then
/// breaks off, every other port answers.
fn probe(target: Target) -> Response {
    let probe = Connecting::new(target.clone());
    assert_eq!(probe.host(), format!("{}:{}", target.ip, target.port));
    if target.port == 1 {
        return probe.failed("connection refused".to_string());
    }
    let probe = probe.connected();
    if target.port == 2 {
        return probe.failed("handshake failed".to_string());
    }
    probe.answered(SshInfo {
        banner: Some("SSH-2.0-OpenSSH_9.6".to_string()),
        auth_methods: "publickey,password".to_string(),
    })
}

fn source(input: &[u8], work: Sender<Target>) -> Option<SourceError> {
    let ingest = read_targets(input);
    for target in ingest.targets {
        work.send(target).unwrap();
    }
    ingest.failure
}

fn worker(work: &Receiver<Target>, results: &Sender<Response>, at_most: usize) -> usize {
    let mut done = 0;
    while done < at_most {
        match work.try_recv() {
            Ok(target) => {
                results.send(probe(target)).unwrap();
                done += 1;
            }
            Err(_) => break,
        }
    }
    done
}

fn sink(results: Receiver<Response>) -> Vec<String> {
    let mut lines = Vec::new();
    for response in results {
        lines.push(encode(&response));
    }
    lines
}

/// Runs the three stages over the two queues, the workers taking turns of
/// differing length, and gives the lines written and the source's fault.
fn run(input: &[u8], workers: usize) -> (Vec<String>, Option<SourceError>) {
    let (tx_targets, rx_targets) = unbounded();
    let (tx_responses, rx_responses) = unbounded();
    let failure = source(input, tx_targets);
    let senders: Vec<Sender<Response>> = (0..workers).map(|_| tx_responses.clone()).collect();
    drop(tx_responses);
    loop {
        let mut moved = 0;
        for (i, sender) in senders.iter().enumerate().rev() {
            moved += worker(&rx_targets, sender, i % 3 + 1);
        }
        if moved == 0 {
            break;
        }
    }
    drop(senders);
    (sink(rx_responses), failure)
}

fn sorted(mut targets: Vec<Target>) -> Vec<Target> {
    targets.sort_by(|a, b| (a.ip.as_str(), a.port).cmp(&(b.ip.as_str(), b.port)));
    targets
}

#[test]
fn every_target_gets_exactly_one_record() {
    let mut input = String::new();
    let mut expected = Vec::new();
    for i in 0..200u16 {
        input.push_str(&format!("10.0.0.{},{}\n", i % 50, i % 7));
        expected.push(target(&format!("10.0.0.{}", i % 50), i % 7));
    }
    for workers in [1usize, 2, 5, 32] {
        let (lines, failure) = run(input.as_bytes(), workers);
        assert_eq!(failure, None);
        assert_eq!(lines.len(), 200);
        let mut answered = Vec::new();
        for line in &lines {
            assert!(!line.contains('\n'));
            let response = decode(line).unwrap();
            assert_ne!(response.error().is_some(), response.ssh_info().is_some());
            assert_eq!(response.is_failure(), response.target().port == 1 || response.target().port == 2);
            answered.push(response.target().clone());
        }
        assert_eq!(sorted(answered), sorted(expected.clone()));
    }
}

#[test]
fn failed_probes_are_records_like_any_other() {
    let (lines, failure) = run(b"a,1\nb,1\nc,2\nd,1\n", 3);
    assert_eq!(failure, None);
    assert_eq!(lines.len(), 4);
    for line in lines {
        assert!(decode(&line).unwrap().is_failure());
    }
}

#[test]
fn a_duplicate_target_gets_a_duplicate_record() {
    let (lines, failure) = run(b"h,22\nh,22\nh,22\n", 2);
    assert_eq!(failure, None);
    assert_eq!(lines.len(), 3);
    assert_eq!(lines[0], lines[1]);
    assert_eq!(lines[1], lines[2]);
}

#[test]
fn no_input_gives_no_record() {
    let (lines, failure) = run(b"", 4);
    assert_eq!(failure, None);
    assert_eq!(lines.len(), 0);
}

#[test]
fn one_refused_and_one_reached() {
    let (lines, failure) = run(b"127.0.0.1,1\n203.0.113.5,22\n", 32);
    assert_eq!(failure, None);
    assert_eq!(lines.len(), 2);
    let refused = "{\"target\":{\"ip\":\"127.0.0.1\",\"port\":1},\"error\":\"connection refused\",\"ssh_info\":null}";
    let reached = "{\"target\":{\"ip\":\"203.0.113.5\",\"port\":22},\"error\":null,\"ssh_info\":{\"banner\":\"SSH-2.0-OpenSSH_9.6\",\"auth_methods\":\"publickey,password\"}}";
    assert!(lines.iter().any(|l| l == refused));
    assert!(lines.iter().any(|l| l == reached));
    for line in &lines {
        let v: serde_json::Value = serde_json::from_str(line).unwrap();
        if v["target"]["port"].as_u64() == Some(1) {
            assert_eq!(v["error"].as_str(), Some("connection refused"));
            assert!(v["ssh_info"].is_null());
        } else {
            assert!(v["error"].is_null());
            assert!(v["ssh_info"]["banner"].as_str().unwrap().starts_with("SSH-2.0-"));
            assert_eq!(v["ssh_info"]["auth_methods"].as_str(), Some("publickey,password"));
        }
    }
}

#[test]
fn nothing_behind_a_malformed_line_is_answered() {
    let (lines, failure) = run(b"127.0.0.1,22\n127.0.0.2,not-a-port\n127.0.0.3,22\n127.0.0.4,22\n", 4);
    assert_eq!(failure, Some(SourceError { record: 1, fault: Fault::Port }));
    assert_eq!(lines.len(), 1);
    assert_eq!(decode(&lines[0]).unwrap().target(), &target("127.0.0.1", 22));

    let (lines, failure) = run(b"127.0.0.2,not-a-port\n127.0.0.3,22\n", 4);
    assert_eq!(failure, Some(SourceError { record: 0, fault: Fault::Port }));
    assert_eq!(lines.len(), 0);
}
