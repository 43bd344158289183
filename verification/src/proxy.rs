//! The decisions of the ssh proxy: forwarding input, pasting, and the
//! ssh command lines.
pub mod command;
pub mod decimal;
pub mod destination;
pub mod forward;
pub mod paste;

pub use command::{control_path_name, remote_image_path, ssh_session_args, upload_command_args};
pub use destination::parse_ssh_destination;
pub use forward::{forward_input_with, ForwardStep, InputForwarder};
pub use paste::{finish_image_paste, handle_paste, plan_image_upload, ImageUpload, PasteAction};
