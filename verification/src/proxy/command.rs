//! The argument lists of the two ssh invocations: the interactive session,
//! and the upload of a pasted image through the session's connection.
use vstd::prelude::*;

use super::decimal::{decimal, decimal_string, is_digit, lemma_decimal_digits, lemma_decimal_injective};
use super::destination::{
    arg_views, is_end_of_options, is_option, lemma_option_with_value_is_skipped,
    lemma_plain_first_argument_is_destination, lemma_single_option_is_skipped, option_width,
    ssh_destination, takes_value,
};

verus! {

/// The characters of an optional string.
pub open spec fn opt_view(s: Option<&str>) -> Option<Seq<char>> {
    match s {
        Some(s) => Some(s@),
        None => None,
    }
}

/// The file name of the connection-sharing socket of the process `pid`.
pub open spec fn control_path_spec(pid: nat) -> Seq<char> {
    "xtrans-ctrl-"@ + decimal(pid)
}

/// Where a pasted image taken at `secs` seconds after the epoch is stored
/// on the remote host.
pub open spec fn remote_image_path_spec(secs: nat) -> Seq<char> {
    "/tmp/xtrans-"@ + decimal(secs) + ".png"@
}

/// Options that make the session the master of a shared connection.
pub open spec fn session_sharing_options(control_path: Option<Seq<char>>) -> Seq<Seq<char>> {
    match control_path {
        Some(cp) => seq!["-o"@, "ControlMaster=auto"@, "-o"@, "ControlPath="@ + cp],
        None => seq![],
    }
}

/// The arguments of the interactive ssh session: a forced terminal, the
/// connection-sharing options, then the user's arguments unchanged.
pub open spec fn session_args_spec(control_path: Option<Seq<char>>, ssh_args: Seq<Seq<char>>) -> Seq<Seq<char>> {
    seq!["-tt"@] + session_sharing_options(control_path) + ssh_args
}

/// Options that make the upload use the session's shared connection.
pub open spec fn upload_sharing_options(control_path: Option<Seq<char>>) -> Seq<Seq<char>> {
    match control_path {
        Some(cp) => seq!["-o"@, "ControlPath="@ + cp, "-o"@, "ControlMaster=no"@],
        None => seq![],
    }
}

/// The remote command that stores its input at `remote_path`.
pub open spec fn store_command(remote_path: Seq<char>) -> Seq<char> {
    "cat > '"@ + remote_path + "'"@
}

/// The arguments of the upload: shared connection, no prompts, the
/// destination, and the command that stores the piped data.
pub open spec fn upload_args_spec(
    control_path: Option<Seq<char>>,
    remote_dest: Seq<char>,
    remote_path: Seq<char>,
) -> Seq<Seq<char>> {
    upload_sharing_options(control_path) + seq!["-o"@, "BatchMode=yes"@, remote_dest, store_command(remote_path)]
}

/// The file name (in the temporary directory) of the connection-sharing
/// socket of the process `pid`: `xtrans-ctrl-<pid>`.
pub fn control_path_name(pid: u32) -> (name: String)
    ensures
        name@ == control_path_spec(pid as nat),
{
    let digits = decimal_string(pid as u64);
    String::from_str("xtrans-ctrl-").concat(digits.as_str())
}

/// The remote path of an image pasted at `secs` seconds after the epoch:
/// `/tmp/xtrans-<secs>.png`.
pub fn remote_image_path(secs: u64) -> (path: String)
    ensures
        path@ == remote_image_path_spec(secs as nat),
{
    let digits = decimal_string(secs);
    String::from_str("/tmp/xtrans-").concat(digits.as_str()).concat(".png")
}

fn push_str(args: &mut Vec<String>, s: &str)
    ensures
        arg_views(final(args)@) == arg_views(old(args)@).push(s@),
{
    args.push(String::from_str(s));
    assert(arg_views(args@) =~= arg_views(old(args)@).push(s@));
}

fn push_string(args: &mut Vec<String>, s: String)
    ensures
        arg_views(final(args)@) == arg_views(old(args)@).push(s@),
{
    let ghost v = s@;
    args.push(s);
    assert(arg_views(args@) =~= arg_views(old(args)@).push(v));
}

/// The arguments of the interactive ssh session: `-tt`, then (with a
/// control path) `-o ControlMaster=auto -o ControlPath=<path>`, then the
/// user's ssh arguments in their order.
pub fn ssh_session_args(control_path: Option<&str>, ssh_args: &[String]) -> (args: Vec<String>)
    ensures
        arg_views(args@) == session_args_spec(opt_view(control_path), arg_views(ssh_args@)),
{
    let mut args: Vec<String> = Vec::new();
    assert(arg_views(args@) =~= Seq::<Seq<char>>::empty());
    push_str(&mut args, "-tt");
    match control_path {
        Some(cp) => {
            push_str(&mut args, "-o");
            push_str(&mut args, "ControlMaster=auto");
            push_str(&mut args, "-o");
            push_string(&mut args, String::from_str("ControlPath=").concat(cp));
        },
        None => {},
    }
    let ghost prefix = arg_views(args@);
    assert(prefix =~= seq!["-tt"@] + session_sharing_options(opt_view(control_path)));
    let mut i: usize = 0;
    while i < ssh_args.len()
        invariant
            i <= ssh_args.len(),
            arg_views(args@) == prefix + arg_views(ssh_args@).subrange(0, i as int),
        decreases ssh_args.len() - i,
    {
        push_string(&mut args, ssh_args[i].clone());
        assert(prefix + arg_views(ssh_args@).subrange(0, i + 1) =~= (prefix + arg_views(
            ssh_args@,
        ).subrange(0, i as int)).push(ssh_args@[i as int]@));
        i = i + 1;
    }
    assert(arg_views(ssh_args@).subrange(0, i as int) =~= arg_views(ssh_args@));
    args
}

/// The arguments of the ssh command that uploads a pasted image: (with a
/// control path) `-o ControlPath=<path> -o ControlMaster=no`, then
/// `-o BatchMode=yes <destination> "cat > '<remote path>'"`.
pub fn upload_command_args(control_path: Option<&str>, remote_dest: &str, remote_path: &str) -> (args: Vec<String>)
    ensures
        arg_views(args@) == upload_args_spec(opt_view(control_path), remote_dest@, remote_path@),
{
    let mut args: Vec<String> = Vec::new();
    assert(arg_views(args@) =~= Seq::<Seq<char>>::empty());
    match control_path {
        Some(cp) => {
            push_str(&mut args, "-o");
            push_string(&mut args, String::from_str("ControlPath=").concat(cp));
            push_str(&mut args, "-o");
            push_str(&mut args, "ControlMaster=no");
        },
        None => {},
    }
    push_str(&mut args, "-o");
    push_str(&mut args, "BatchMode=yes");
    push_str(&mut args, remote_dest);
    push_string(&mut args, String::from_str("cat > '").concat(remote_path).concat("'"));
    assert(arg_views(args@) =~= upload_args_spec(opt_view(control_path), remote_dest@, remote_path@));
    args
}

/// Images pasted at different seconds are stored at different remote paths.
pub proof fn lemma_remote_paths_distinct(a: nat, b: nat)
    requires
        a != b,
    ensures
        remote_image_path_spec(a) != remote_image_path_spec(b),
{
    if remote_image_path_spec(a) == remote_image_path_spec(b) {
        let p = "/tmp/xtrans-"@;
        let s = ".png"@;
        reveal_strlit("/tmp/xtrans-");
        reveal_strlit(".png");
        let da = decimal(a);
        let db = decimal(b);
        let pa = remote_image_path_spec(a);
        assert(da =~= pa.subrange(p.len() as int, pa.len() - s.len()));
        assert(db =~= remote_image_path_spec(b).subrange(p.len() as int, remote_image_path_spec(b).len() - s.len()));
        lemma_decimal_injective(a, b);
    }
}

/// The remote path holds no single quote, so the store command quotes it
/// as one shell word.
pub proof fn lemma_remote_path_has_no_quote(secs: nat)
    ensures
        !remote_image_path_spec(secs).contains('\''),
{
    reveal_strlit("/tmp/xtrans-");
    reveal_strlit(".png");
    lemma_decimal_digits(secs);
    let p = remote_image_path_spec(secs);
    let n = "/tmp/xtrans-"@.len();
    let d = decimal(secs);
    assert forall|i: int| 0 <= i < p.len() implies p[i] != '\'' by {
        if n <= i < n + d.len() {
            assert(p[i] == d[i - n]);
            assert(is_digit(d[i - n]));
        }
    }
}

/// The options put in front of the user's arguments do not change the host
/// that ssh connects to.
pub proof fn lemma_session_keeps_destination(control_path: Option<Seq<char>>, ssh_args: Seq<Seq<char>>)
    ensures
        ssh_destination(session_args_spec(control_path, ssh_args)) == ssh_destination(ssh_args),
{
    reveal_strlit("-tt");
    reveal_strlit("-o");
    let tt = "-tt"@;
    assert(tt =~= seq!['-', 't', 't']);
    assert(!is_end_of_options(tt)) by {
        if is_end_of_options(tt) {
            assert(tt.len() == 2);
        }
    }
    assert(option_width(tt) == 1);
    match control_path {
        Some(cp) => {
            assert("-o"@ =~= seq!['-', 'o']);
            let v1 = "ControlMaster=auto"@;
            let v2 = "ControlPath="@ + cp;
            let inner = seq![v2] + ssh_args;
            assert(takes_value('o'));
            lemma_option_with_value_is_skipped('o', v2, ssh_args);
            assert(seq![seq!['-', 'o'], v2] + ssh_args =~= seq![seq!['-', 'o']] + inner);
            lemma_option_with_value_is_skipped('o', v1, seq![seq!['-', 'o'], v2] + ssh_args);
            lemma_single_option_is_skipped(tt, seq![seq!['-', 'o'], v1] + (seq![seq!['-', 'o'], v2] + ssh_args));
            assert(session_args_spec(control_path, ssh_args) =~= seq![tt] + (seq![seq!['-', 'o'], v1] + (
            seq![seq!['-', 'o'], v2] + ssh_args)));
        },
        None => {
            lemma_single_option_is_skipped(tt, ssh_args);
            assert(session_args_spec(control_path, ssh_args) =~= seq![tt] + ssh_args);
        },
    }
}

/// The upload goes to the destination it is given, when that destination
/// does not look like an option (ssh would read such an argument as one).
pub proof fn lemma_upload_reaches_destination(
    control_path: Option<Seq<char>>,
    remote_dest: Seq<char>,
    remote_path: Seq<char>,
)
    requires
        !is_option(remote_dest),
    ensures
        ssh_destination(upload_args_spec(control_path, remote_dest, remote_path)) == Some(remote_dest),
{
    reveal_strlit("-o");
    let o = seq!['-', 'o'];
    assert("-o"@ =~= o);
    assert(takes_value('o'));
    let tail = seq![remote_dest, store_command(remote_path)];
    lemma_plain_first_argument_is_destination(tail);
    let batch = "BatchMode=yes"@;
    lemma_option_with_value_is_skipped('o', batch, tail);
    let after_sharing = seq![o, batch] + tail;
    match control_path {
        Some(cp) => {
            let v1 = "ControlPath="@ + cp;
            let v2 = "ControlMaster=no"@;
            lemma_option_with_value_is_skipped('o', v2, after_sharing);
            lemma_option_with_value_is_skipped('o', v1, seq![o, v2] + after_sharing);
            assert(upload_args_spec(control_path, remote_dest, remote_path) =~= seq![o, v1] + (seq![o, v2]
                + after_sharing));
        },
        None => {
            assert(upload_args_spec(control_path, remote_dest, remote_path) =~= after_sharing);
        },
    }
}

/// The interactive session's arguments, whatever the user's arguments are:
/// `-tt`, then (with a control path `cp`) `-o ControlMaster=auto -o
/// ControlPath=<cp>`, then the user's arguments unchanged.
pub proof fn lemma_session_args_layout(control_path: Option<Seq<char>>, ssh_args: Seq<Seq<char>>)
    ensures
        control_path matches Some(cp) ==> session_args_spec(control_path, ssh_args) == seq![
            seq!['-', 't', 't'],
            seq!['-', 'o'],
            seq!['C', 'o', 'n', 't', 'r', 'o', 'l', 'M', 'a', 's', 't', 'e', 'r', '=', 'a', 'u', 't', 'o'],
            seq!['-', 'o'],
            seq!['C', 'o', 'n', 't', 'r', 'o', 'l', 'P', 'a', 't', 'h', '='] + cp,
        ] + ssh_args,
        control_path is None ==> session_args_spec(control_path, ssh_args) == seq![seq!['-', 't', 't']] + ssh_args,
{
    reveal_strlit("-tt");
    reveal_strlit("-o");
    reveal_strlit("ControlMaster=auto");
    reveal_strlit("ControlPath=");
    assert("-tt"@ =~= seq!['-', 't', 't']);
    assert("-o"@ =~= seq!['-', 'o']);
    assert("ControlMaster=auto"@ =~= seq!['C', 'o', 'n', 't', 'r', 'o', 'l', 'M', 'a', 's', 't', 'e', 'r', '=', 'a', 'u', 't', 'o']);
    assert("ControlPath="@ =~= seq!['C', 'o', 'n', 't', 'r', 'o', 'l', 'P', 'a', 't', 'h', '=']);
    match control_path {
        Some(cp) => {
            assert(session_args_spec(control_path, ssh_args) =~= seq![
                seq!['-', 't', 't'],
                seq!['-', 'o'],
                seq!['C', 'o', 'n', 't', 'r', 'o', 'l', 'M', 'a', 's', 't', 'e', 'r', '=', 'a', 'u', 't', 'o'],
                seq!['-', 'o'],
                seq!['C', 'o', 'n', 't', 'r', 'o', 'l', 'P', 'a', 't', 'h', '='] + cp,
            ] + ssh_args);
        },
        None => {
            assert(session_args_spec(control_path, ssh_args) =~= seq![seq!['-', 't', 't']] + ssh_args);
        },
    }
}

/// The upload's arguments, for every control path, destination and remote
/// path `p`: (with a control path `cp`) `-o ControlPath=<cp> -o
/// ControlMaster=no`, then `-o BatchMode=yes <destination>` and the remote
/// command `cat > '<p>'`, which stores the piped data at exactly `p`: the
/// path between its quotes is `p`.
pub proof fn lemma_upload_args_layout(control_path: Option<Seq<char>>, remote_dest: Seq<char>, remote_path: Seq<char>)
    ensures
        ({
            let args = upload_args_spec(control_path, remote_dest, remote_path);
            let tail = seq![
                seq!['-', 'o'],
                seq!['B', 'a', 't', 'c', 'h', 'M', 'o', 'd', 'e', '=', 'y', 'e', 's'],
                remote_dest,
                seq!['c', 'a', 't', ' ', '>', ' ', '\''] + remote_path + seq!['\''],
            ];
            &&& control_path matches Some(cp) ==> args == seq![
                seq!['-', 'o'],
                seq!['C', 'o', 'n', 't', 'r', 'o', 'l', 'P', 'a', 't', 'h', '='] + cp,
                seq!['-', 'o'],
                seq!['C', 'o', 'n', 't', 'r', 'o', 'l', 'M', 'a', 's', 't', 'e', 'r', '=', 'n', 'o'],
            ] + tail
            &&& control_path is None ==> args == tail
            &&& args.last().subrange(7, args.last().len() - 1) == remote_path
        }),
{
    reveal_strlit("-o");
    reveal_strlit("ControlPath=");
    reveal_strlit("ControlMaster=no");
    reveal_strlit("BatchMode=yes");
    reveal_strlit("cat > '");
    reveal_strlit("'");
    assert("-o"@ =~= seq!['-', 'o']);
    assert("ControlPath="@ =~= seq!['C', 'o', 'n', 't', 'r', 'o', 'l', 'P', 'a', 't', 'h', '=']);
    assert("ControlMaster=no"@ =~= seq!['C', 'o', 'n', 't', 'r', 'o', 'l', 'M', 'a', 's', 't', 'e', 'r', '=', 'n', 'o']);
    assert("BatchMode=yes"@ =~= seq!['B', 'a', 't', 'c', 'h', 'M', 'o', 'd', 'e', '=', 'y', 'e', 's']);
    assert("cat > '"@ =~= seq!['c', 'a', 't', ' ', '>', ' ', '\'']);
    assert("'"@ =~= seq!['\'']);
    let args = upload_args_spec(control_path, remote_dest, remote_path);
    let store = seq!['c', 'a', 't', ' ', '>', ' ', '\''] + remote_path + seq!['\''];
    assert(store_command(remote_path) =~= store);
    let tail = seq![
        seq!['-', 'o'],
        seq!['B', 'a', 't', 'c', 'h', 'M', 'o', 'd', 'e', '=', 'y', 'e', 's'],
        remote_dest,
        store,
    ];
    match control_path {
        Some(cp) => {
            assert(args =~= seq![
                seq!['-', 'o'],
                seq!['C', 'o', 'n', 't', 'r', 'o', 'l', 'P', 'a', 't', 'h', '='] + cp,
                seq!['-', 'o'],
                seq!['C', 'o', 'n', 't', 'r', 'o', 'l', 'M', 'a', 's', 't', 'e', 'r', '=', 'n', 'o'],
            ] + tail);
        },
        None => {
            assert(args =~= tail);
        },
    }
    assert(args.last() == store);
    assert(store.subrange(7, store.len() - 1) =~= remote_path);
}

/// The remote path of an image pasted at `secs` is `/tmp/xtrans-`, the
/// decimal digits of `secs`, and `.png`; the socket name of process `pid`
/// is `xtrans-ctrl-` and the digits of `pid`.
pub proof fn lemma_path_names_layout(secs: nat, pid: nat)
    ensures
        remote_image_path_spec(secs) == seq!['/', 't', 'm', 'p', '/', 'x', 't', 'r', 'a', 'n', 's', '-']
            + decimal(secs) + seq!['.', 'p', 'n', 'g'],
        control_path_spec(pid) == seq!['x', 't', 'r', 'a', 'n', 's', '-', 'c', 't', 'r', 'l', '-'] + decimal(pid),
{
    reveal_strlit("/tmp/xtrans-");
    reveal_strlit(".png");
    reveal_strlit("xtrans-ctrl-");
    assert("/tmp/xtrans-"@ =~= seq!['/', 't', 'm', 'p', '/', 'x', 't', 'r', 'a', 'n', 's', '-']);
    assert(".png"@ =~= seq!['.', 'p', 'n', 'g']);
    assert("xtrans-ctrl-"@ =~= seq!['x', 't', 'r', 'a', 'n', 's', '-', 'c', 't', 'r', 'l', '-']);
}

} // verus!
