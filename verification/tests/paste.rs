use xtrans::clipboard::Content;
use xtrans::proxy::command::{
    control_path_name, remote_image_path, ssh_session_args, upload_command_args,
};
use xtrans::proxy::decimal::decimal_string;
use xtrans::proxy::destination::parse_ssh_destination;
use xtrans::proxy::paste::{finish_image_paste, handle_paste, plan_image_upload, PasteAction};

fn strings(a: &[&str]) -> Vec<String> {
    a.iter().map(|s| s.to_string()).collect()
}

#[test]
fn text_is_sent_as_bracketed_paste() {
    let action = handle_paste(Content::Text("ls -l".to_string()));
    assert_eq!(
        action,
        PasteAction::Type(vec![
            b"\x1b[200~".to_vec(),
            b"ls -l".to_vec(),
            b"\x1b[201~".to_vec(),
        ])
    );
}

#[test]
fn unicode_text_is_sent_as_utf8() {
    let action = handle_paste(Content::Text("héllo".to_string()));
    match action {
        PasteAction::Type(chunks) => {
            assert_eq!(chunks.len(), 3);
            assert_eq!(chunks[1], "héllo".as_bytes().to_vec());
        }
        PasteAction::Upload(_) => panic!("text must not be uploaded"),
    }
}

#[test]
fn empty_clipboard_sends_ctrl_v() {
    assert_eq!(handle_paste(Content::Empty), PasteAction::Type(vec![vec![0x16]]));
}

#[test]
fn image_is_uploaded() {
    let png = vec![137, 80, 78, 71];
    assert_eq!(handle_paste(Content::Image(png.clone())), PasteAction::Upload(png));
}

#[test]
fn image_upload_plan_ties_path_and_arguments() {
    let upload = plan_image_upload(vec![1, 2, 3], 5, Some("/tmp/c"), "user@host");
    assert_eq!(upload.remote_path, "/tmp/xtrans-5.png");
    assert_eq!(
        upload.args,
        strings(&[
            "-o",
            "ControlPath=/tmp/c",
            "-o",
            "ControlMaster=no",
            "-o",
            "BatchMode=yes",
            "user@host",
            "cat > '/tmp/xtrans-5.png'",
        ])
    );
    assert_eq!(upload.data, vec![1, 2, 3]);
}

#[test]
fn uploaded_image_types_its_path() {
    let upload = plan_image_upload(vec![9], 5, None, "host");
    let typed = finish_image_paste(&upload, true).expect("a successful upload types the path");
    assert_eq!(typed, b"/tmp/xtrans-5.png".to_vec());
    assert!(!typed.contains(&0x16) && !typed.contains(&b'\n'));
}

#[test]
fn failed_upload_types_nothing() {
    let upload = plan_image_upload(vec![9], 5, None, "host");
    assert_eq!(finish_image_paste(&upload, false), None);
}

#[test]
fn decimal_notation() {
    assert_eq!(decimal_string(0), "0");
    assert_eq!(decimal_string(7), "7");
    assert_eq!(decimal_string(10), "10");
    assert_eq!(decimal_string(1_700_000_000), "1700000000");
    assert_eq!(decimal_string(u64::MAX), u64::MAX.to_string());
}

#[test]
fn remote_path_of_image() {
    assert_eq!(remote_image_path(1_700_000_000), "/tmp/xtrans-1700000000.png");
    assert_eq!(remote_image_path(0), "/tmp/xtrans-0.png");
}

#[test]
fn remote_paths_differ_for_different_seconds() {
    assert_ne!(remote_image_path(12), remote_image_path(120));
    assert!(!remote_image_path(u64::MAX).contains('\''));
}

#[test]
fn control_path_name_holds_pid() {
    assert_eq!(control_path_name(4242), "xtrans-ctrl-4242");
    assert_eq!(control_path_name(0), "xtrans-ctrl-0");
}

#[test]
fn session_args_with_control_path() {
    let user = strings(&["-p", "2222", "user@host"]);
    assert_eq!(
        ssh_session_args(Some("/tmp/xtrans-ctrl-1"), &user),
        strings(&[
            "-tt",
            "-o",
            "ControlMaster=auto",
            "-o",
            "ControlPath=/tmp/xtrans-ctrl-1",
            "-p",
            "2222",
            "user@host",
        ])
    );
}

#[test]
fn session_args_without_control_path() {
    let user = strings(&["myserver"]);
    assert_eq!(ssh_session_args(None, &user), strings(&["-tt", "myserver"]));
}

#[test]
fn session_args_keep_destination() {
    let user = strings(&["-v", "-i", "k", "me@h"]);
    let session = ssh_session_args(Some("/tmp/c"), &user);
    assert_eq!(parse_ssh_destination(&session), parse_ssh_destination(&user));
}

#[test]
fn upload_args_with_control_path() {
    assert_eq!(
        upload_command_args(Some("/tmp/c"), "user@host", "/tmp/xtrans-9.png"),
        strings(&[
            "-o",
            "ControlPath=/tmp/c",
            "-o",
            "ControlMaster=no",
            "-o",
            "BatchMode=yes",
            "user@host",
            "cat > '/tmp/xtrans-9.png'",
        ])
    );
}

#[test]
fn upload_args_without_control_path() {
    let upload = upload_command_args(None, "host", "/tmp/xtrans-1.png");
    assert_eq!(
        upload,
        strings(&["-o", "BatchMode=yes", "host", "cat > '/tmp/xtrans-1.png'"])
    );
    assert_eq!(parse_ssh_destination(&upload), Some("host".to_string()));
}
