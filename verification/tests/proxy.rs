use std::io::{self, Write};

use xtrans::proxy::destination::parse_ssh_destination;
use xtrans::proxy::forward::{forward_input_with, ForwardStep, InputForwarder};

fn args(a: &[&str]) -> Vec<String> {
    a.iter().map(|s| s.to_string()).collect()
}

/// Performs the steps that `InputForwarder` hands out on a writer, calling
/// `on_paste` for each paste, as the program does on the ssh session.
fn forward(
    input: &[u8],
    ssh_stdin: &mut dyn Write,
    mut on_paste: impl FnMut(&mut dyn Write),
) -> io::Result<()> {
    let mut forwarder = InputForwarder::new(input);
    let mut failure: Option<io::Error> = None;
    loop {
        let result = match forwarder.next_step(failure.is_none()) {
            None => break,
            Some(ForwardStep::Write(bytes)) => ssh_stdin.write_all(&bytes),
            Some(ForwardStep::Paste) => {
                on_paste(ssh_stdin);
                Ok(())
            }
            Some(ForwardStep::Flush) => ssh_stdin.flush(),
        };
        if let Err(e) = result {
            failure = Some(e);
        }
    }
    match failure {
        Some(e) => Err(e),
        None => Ok(()),
    }
}

// -- parse_ssh_destination -------------------------------------------

#[test]
fn simple_destination() {
    assert_eq!(
        parse_ssh_destination(&args(&["ubuntu@10.0.0.1"])),
        Some("ubuntu@10.0.0.1".into())
    );
}

#[test]
fn destination_with_flags() {
    assert_eq!(
        parse_ssh_destination(&args(&["-t", "-v", "root@host"])),
        Some("root@host".into())
    );
}

#[test]
fn destination_with_option_value() {
    assert_eq!(
        parse_ssh_destination(&args(&["-p", "2222", "-i", "key.pem", "deploy@srv"])),
        Some("deploy@srv".into())
    );
}

#[test]
fn destination_with_combined_option() {
    assert_eq!(
        parse_ssh_destination(&args(&["-p2222", "user@host"])),
        Some("user@host".into())
    );
}

#[test]
fn destination_after_double_dash() {
    assert_eq!(
        parse_ssh_destination(&args(&["-v", "--", "user@host"])),
        Some("user@host".into())
    );
}

#[test]
fn no_destination() {
    assert_eq!(parse_ssh_destination(&args(&["-v", "-t"])), None);
}

#[test]
fn no_arguments_no_destination() {
    assert_eq!(parse_ssh_destination(&args(&[])), None);
}

#[test]
fn double_dash_at_end_gives_none() {
    assert_eq!(parse_ssh_destination(&args(&["-v", "--"])), None);
}

#[test]
fn double_dash_takes_next_even_if_option_like() {
    assert_eq!(
        parse_ssh_destination(&args(&["--", "-host"])),
        Some("-host".into())
    );
}

#[test]
fn value_flag_at_end_gives_none() {
    assert_eq!(parse_ssh_destination(&args(&["-v", "-p"])), None);
}

#[test]
fn value_of_option_is_not_destination() {
    assert_eq!(
        parse_ssh_destination(&args(&["-o", "ControlMaster=no", "-J", "jump", "target"])),
        Some("target".into())
    );
}

#[test]
fn lone_dash_is_destination() {
    assert_eq!(parse_ssh_destination(&args(&["-", "x"])), Some("-".into()));
}

#[test]
fn non_ascii_flag_is_skipped() {
    assert_eq!(
        parse_ssh_destination(&args(&["-é", "host"])),
        Some("host".into())
    );
}

#[test]
fn prepended_flags_do_not_change_destination() {
    let rest = args(&["-p", "22", "me@box", "ls"]);
    let mut with_flags = args(&["-v", "-i", "id_rsa"]);
    with_flags.extend(rest.iter().cloned());
    assert_eq!(parse_ssh_destination(&rest), parse_ssh_destination(&with_flags));
    assert_eq!(parse_ssh_destination(&rest), Some("me@box".into()));
}

// -- forward_input (Ctrl+V interception) -----------------------------

fn noop_paste(_out: &mut dyn Write) {}

fn marker_paste(out: &mut dyn Write) {
    let _ = out.write_all(b"<IMG>");
}

#[test]
fn passthrough_normal_bytes() {
    let mut out = Vec::new();
    forward(b"hello", &mut out, noop_paste).unwrap();
    assert_eq!(out, b"hello");
}

#[test]
fn ctrl_v_triggers_paste_handler() {
    let mut out = Vec::new();
    forward(&[0x16], &mut out, marker_paste).unwrap();
    assert_eq!(out, b"<IMG>");
}

#[test]
fn bytes_around_ctrl_v() {
    let mut out = Vec::new();
    forward(&[0x41, 0x16, 0x42], &mut out, marker_paste).unwrap();
    assert_eq!(out, b"A<IMG>B");
}

#[test]
fn multiple_ctrl_v() {
    let mut out = Vec::new();
    forward(&[0x16, 0x16], &mut out, marker_paste).unwrap();
    assert_eq!(out, b"<IMG><IMG>");
}

#[test]
fn no_ctrl_v_no_paste() {
    let mut count = 0u32;
    let mut out = Vec::new();
    forward(b"normal text", &mut out, |_| count += 1).unwrap();
    assert_eq!(count, 0);
    assert_eq!(out, b"normal text");
}

#[test]
fn plan_for_plain_input_is_one_write_then_flush() {
    assert_eq!(
        forward_input_with(b"abc"),
        vec![ForwardStep::Write(b"abc".to_vec()), ForwardStep::Flush]
    );
}

#[test]
fn plan_for_empty_input_is_only_flush() {
    assert_eq!(forward_input_with(&[]), vec![ForwardStep::Flush]);
}

#[test]
fn plan_splits_at_each_ctrl_v() {
    assert_eq!(
        forward_input_with(&[0x41, 0x16, 0x16, 0x42, 0x43, 0x16]),
        vec![
            ForwardStep::Write(vec![0x41]),
            ForwardStep::Paste,
            ForwardStep::Paste,
            ForwardStep::Write(vec![0x42, 0x43]),
            ForwardStep::Paste,
            ForwardStep::Flush,
        ]
    );
}

#[test]
fn one_paste_per_ctrl_v() {
    let input = [0x16, 1, 2, 0x16, 0x16, 3, 0x16];
    let plan = forward_input_with(&input);
    let pastes = plan.iter().filter(|s| **s == ForwardStep::Paste).count();
    let ctrl_vs = input.iter().filter(|b| **b == 0x16).count();
    assert_eq!(pastes, ctrl_vs);
}

#[test]
fn writes_and_pastes_rebuild_the_input() {
    let input = [9, 0x16, 8, 7, 0x16, 0x16, 6];
    let mut rebuilt = Vec::new();
    for step in forward_input_with(&input) {
        match step {
            ForwardStep::Write(bytes) => {
                assert!(!bytes.is_empty() && !bytes.contains(&0x16));
                rebuilt.extend(bytes);
            }
            ForwardStep::Paste => rebuilt.push(0x16),
            ForwardStep::Flush => {}
        }
    }
    assert_eq!(rebuilt, input);
}

struct FailingWriter;

impl Write for FailingWriter {
    fn write(&mut self, _buf: &[u8]) -> io::Result<usize> {
        Err(io::Error::new(io::ErrorKind::BrokenPipe, "closed"))
    }
    fn flush(&mut self) -> io::Result<()> {
        Ok(())
    }
}

#[test]
fn failed_write_stops_before_paste() {
    let mut pastes = 0u32;
    let result = forward(&[0x41, 0x16], &mut FailingWriter, |_| pastes += 1);
    assert!(result.is_err());
    assert_eq!(pastes, 0);
}

struct FlushFails(Vec<u8>);

impl Write for FlushFails {
    fn write(&mut self, buf: &[u8]) -> io::Result<usize> {
        self.0.extend_from_slice(buf);
        Ok(buf.len())
    }
    fn flush(&mut self) -> io::Result<()> {
        Err(io::Error::new(io::ErrorKind::BrokenPipe, "flush failed"))
    }
}

#[test]
fn failed_flush_is_reported_after_all_writes() {
    let mut out = FlushFails(Vec::new());
    let result = forward(&[0x41, 0x16, 0x42], &mut out, marker_paste);
    assert_eq!(result.unwrap_err().kind(), io::ErrorKind::BrokenPipe);
    assert_eq!(out.0, b"A<IMG>B");
}

#[test]
fn forwarder_stops_after_failure() {
    let mut forwarder = InputForwarder::new(&[0x41, 0x16, 0x42]);
    assert_eq!(forwarder.next_step(true), Some(ForwardStep::Write(vec![0x41])));
    assert_eq!(forwarder.next_step(false), None);
    assert_eq!(forwarder.next_step(true), None);
    assert!(!forwarder.succeeded());
}

#[test]
fn forwarder_hands_out_the_whole_plan() {
    let input = [0x16, 0x41];
    let mut forwarder = InputForwarder::new(&input);
    let mut handed = Vec::new();
    while let Some(step) = forwarder.next_step(true) {
        handed.push(step);
    }
    assert_eq!(handed, forward_input_with(&input));
    assert!(forwarder.succeeded());
}
