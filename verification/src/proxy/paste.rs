//! What a Ctrl+V types into the remote session.
//!
//! Text is sent as a bracketed paste; an image is first uploaded to the
//! remote host and then its remote path is typed; with nothing on the
//! clipboard the Ctrl+V itself is sent on.
use vstd::prelude::*;
use vstd::slice::slice_to_vec;
use vstd::utf8::encode_utf8;

use crate::clipboard::Content;
use super::command::{opt_view, remote_image_path, remote_image_path_spec, upload_args_spec, upload_command_args};
use super::decimal::{decimal, is_digit, lemma_decimal_digits};
use super::destination::arg_views;
use super::forward::CTRL_V;

verus! {

/// What to do for a paste.
#[derive(PartialEq, Eq, Debug, Clone)]
pub enum PasteAction {
    /// Write each chunk to the session (a failed write does not stop the
    /// next one), then flush.
    Type(Vec<Vec<u8>>),
    /// Upload this PNG to the remote host (prepared by
    /// [`plan_image_upload`]), then finish with [`finish_image_paste`].
    Upload(Vec<u8>),
}

/// The bytes of each chunk.
pub open spec fn chunk_views(chunks: Seq<Vec<u8>>) -> Seq<Seq<u8>> {
    chunks.map_values(|c: Vec<u8>| c@)
}

/// The terminal sequence that opens a bracketed paste: `ESC [ 2 0 0 ~`.
pub open spec fn paste_start() -> Seq<u8> {
    seq![0x1bu8, 0x5bu8, 0x32u8, 0x30u8, 0x30u8, 0x7eu8]
}

/// The terminal sequence that closes a bracketed paste: `ESC [ 2 0 1 ~`.
pub open spec fn paste_end() -> Seq<u8> {
    seq![0x1bu8, 0x5bu8, 0x32u8, 0x30u8, 0x31u8, 0x7eu8]
}

/// The chunks typed for a paste of `content`, where it is typed at once.
pub open spec fn typed_chunks(content: Content) -> Seq<Seq<u8>> {
    match content {
        Content::Text(t) => seq![paste_start(), encode_utf8(t@), paste_end()],
        Content::Empty => seq![seq![CTRL_V]],
        Content::Image(_) => seq![],
    }
}

/// Decides what a paste does with the clipboard content: text is typed as
/// a bracketed paste (its UTF-8 bytes between the opening and closing
/// sequences), an image is uploaded, and with nothing on the clipboard the
/// Ctrl+V byte itself is typed.
pub fn handle_paste(content: Content) -> (action: PasteAction)
    ensures
        match content {
            Content::Image(png) => action matches PasteAction::Upload(p) && p@ == png@,
            _ => action matches PasteAction::Type(chunks) && chunk_views(chunks@) == typed_chunks(content),
        },
{
    let ghost given = content;
    match content {
        Content::Image(png) => PasteAction::Upload(png),
        Content::Text(text) => {
            let bytes = slice_to_vec(text.as_str().as_bytes());
            let mut chunks: Vec<Vec<u8>> = Vec::new();
            chunks.push(vec![0x1bu8, 0x5bu8, 0x32u8, 0x30u8, 0x30u8, 0x7eu8]);
            chunks.push(bytes);
            chunks.push(vec![0x1bu8, 0x5bu8, 0x32u8, 0x30u8, 0x31u8, 0x7eu8]);
            assert(chunk_views(chunks@) =~= typed_chunks(given));
            PasteAction::Type(chunks)
        },
        Content::Empty => {
            let mut chunks: Vec<Vec<u8>> = Vec::new();
            let mut ctrl_v: Vec<u8> = Vec::new();
            ctrl_v.push(CTRL_V);
            assert(ctrl_v@ =~= seq![CTRL_V]);
            chunks.push(ctrl_v);
            assert(chunk_views(chunks@) =~= typed_chunks(given));
            PasteAction::Type(chunks)
        },
    }
}

/// The upload of a pasted image: where it is stored remotely, the ssh
/// arguments that store it there, and the bytes piped to that command.
pub struct ImageUpload {
    pub remote_path: String,
    pub args: Vec<String>,
    pub data: Vec<u8>,
}

/// Prepares the upload of an image pasted at `secs` seconds after the
/// epoch: the PNG goes to `/tmp/xtrans-<secs>.png` on `remote_dest`,
/// through the session's shared connection when there is a control path.
pub fn plan_image_upload(png: Vec<u8>, secs: u64, control_path: Option<&str>, remote_dest: &str) -> (upload: ImageUpload)
    ensures
        upload.remote_path@ == remote_image_path_spec(secs as nat),
        arg_views(upload.args@) == upload_args_spec(opt_view(control_path), remote_dest@, upload.remote_path@),
        upload.data@ == png@,
{
    let remote_path = remote_image_path(secs);
    let args = upload_command_args(control_path, remote_dest, remote_path.as_str());
    ImageUpload { remote_path, args, data: png }
}

/// Finishes an image paste after the upload: when the upload succeeded the
/// path it stored the image at is typed (then flushed); when it failed
/// nothing is typed and nothing is flushed.
pub fn finish_image_paste(upload: &ImageUpload, uploaded: bool) -> (typed: Option<Vec<u8>>)
    ensures
        uploaded ==> (typed matches Some(bytes) && bytes@ == encode_utf8(upload.remote_path@)),
        !uploaded ==> typed is None,
{
    if uploaded {
        Some(slice_to_vec(upload.remote_path.as_str().as_bytes()))
    } else {
        None
    }
}

/// The typed remote path is plain ASCII, one byte per character, with
/// neither a Ctrl+V nor a line break: typing it cannot trigger another
/// paste or submit the line.
pub proof fn lemma_typed_path_is_plain(secs: nat)
    ensures
        ({
            let path = remote_image_path_spec(secs);
            let bytes = encode_utf8(path);
            &&& bytes.len() == path.len()
            &&& forall|i: int| 0 <= i < bytes.len() ==> bytes[i] == path[i] as u8
            &&& !bytes.contains(CTRL_V)
            &&& !bytes.contains(0x0au8)
        }),
{
    reveal_strlit("/tmp/xtrans-");
    reveal_strlit(".png");
    lemma_decimal_digits(secs);
    let path = remote_image_path_spec(secs);
    let n = "/tmp/xtrans-"@.len();
    let d = decimal(secs);
    assert forall|i: int| 0 <= i < path.len() implies ' ' <= #[trigger] path[i] <= '~' by {
        if n <= i < n + d.len() {
            assert(path[i] == d[i - n]);
            assert(is_digit(d[i - n]));
        }
    }
    assert(vstd::utf8::is_ascii_chars(path));
    vstd::utf8::is_ascii_chars_encode_utf8(path);
    let bytes = encode_utf8(path);
    assert forall|i: int| 0 <= i < bytes.len() implies bytes[i] != CTRL_V && bytes[i] != 0x0au8 by {
        assert(path[i] as u8 == bytes[i]);
        assert(' ' <= path[i] <= '~');
    }
}

/// What a paste types, for every clipboard text: the bracketed-paste
/// opening `ESC [ 2 0 0 ~`, the text's UTF-8 bytes, and the closing
/// `ESC [ 2 0 1 ~`, as three chunks; for an empty clipboard the single
/// Ctrl+V byte; for an image nothing is typed before its upload.
pub proof fn lemma_paste_typing(content: Content)
    ensures
        content matches Content::Text(t) ==> typed_chunks(content) == seq![
            seq![0x1bu8, 0x5bu8, 0x32u8, 0x30u8, 0x30u8, 0x7eu8],
            encode_utf8(t@),
            seq![0x1bu8, 0x5bu8, 0x32u8, 0x30u8, 0x31u8, 0x7eu8],
        ],
        content is Empty ==> typed_chunks(content) == seq![seq![0x16u8]],
        content is Image ==> typed_chunks(content).len() == 0,
{
    assert(paste_start() =~= seq![0x1bu8, 0x5bu8, 0x32u8, 0x30u8, 0x30u8, 0x7eu8]);
    assert(paste_end() =~= seq![0x1bu8, 0x5bu8, 0x32u8, 0x30u8, 0x31u8, 0x7eu8]);
}

} // verus!
