//! Finding the destination (`user@host` or a host alias) among the
//! arguments that are handed to ssh.
use vstd::prelude::*;

verus! {

/// The ssh options that take a value, either glued to the flag (`-p2222`)
/// or as the next argument (`-p 2222`).
pub open spec fn takes_value(c: char) -> bool {
    ||| c == 'b' ||| c == 'c' ||| c == 'D' ||| c == 'E' ||| c == 'e'
    ||| c == 'F' ||| c == 'I' ||| c == 'i' ||| c == 'J' ||| c == 'L'
    ||| c == 'l' ||| c == 'm' ||| c == 'O' ||| c == 'o' ||| c == 'p'
    ||| c == 'Q' ||| c == 'R' ||| c == 'S' ||| c == 'W' ||| c == 'w'
}

/// The argument `--`, after which ssh reads no more options.
pub open spec fn is_end_of_options(a: Seq<char>) -> bool {
    a == seq!['-', '-']
}

/// An argument that ssh reads as an option: a `-` followed by at least one
/// more character.
pub open spec fn is_option(a: Seq<char>) -> bool {
    a.len() >= 2 && a[0] == '-'
}

/// How many arguments an option occupies: two for a value-taking flag whose
/// value is the next argument, one otherwise.
pub open spec fn option_width(a: Seq<char>) -> nat {
    if takes_value(a[1]) && a.len() == 2 {
        2
    } else {
        1
    }
}

/// The destination found by scanning `args` from position `i`.
pub open spec fn destination_from(args: Seq<Seq<char>>, i: nat) -> Option<Seq<char>>
    decreases args.len() + 2 - i,
{
    if i >= args.len() {
        None
    } else if is_end_of_options(args[i as int]) {
        if i + 1 < args.len() {
            Some(args[i + 1 as int])
        } else {
            None
        }
    } else if is_option(args[i as int]) {
        destination_from(args, i + option_width(args[i as int]))
    } else {
        Some(args[i as int])
    }
}

/// The destination of an ssh command line: the first argument that is
/// neither an option nor an option's value, or the argument after `--`.
pub open spec fn ssh_destination(args: Seq<Seq<char>>) -> Option<Seq<char>> {
    destination_from(args, 0)
}

/// The characters of each argument.
pub open spec fn arg_views(args: Seq<String>) -> Seq<Seq<char>> {
    args.map_values(|a: String| a@)
}

fn flag_takes_value(c: char) -> (r: bool)
    ensures
        r == takes_value(c),
{
    c == 'b' || c == 'c' || c == 'D' || c == 'E' || c == 'e' || c == 'F' || c == 'I' || c == 'i'
        || c == 'J' || c == 'L' || c == 'l' || c == 'm' || c == 'O' || c == 'o' || c == 'p'
        || c == 'Q' || c == 'R' || c == 'S' || c == 'W' || c == 'w'
}

/// Extracts the ssh destination from the arguments given to ssh.
///
/// Options are skipped (with their value where the value is a separate
/// argument); the first other argument is the destination. After `--` the
/// next argument is the destination. `None` when no argument qualifies.
///
/// Lengths are counted in characters: an argument that starts with `-` has
/// two bytes exactly when it has two characters and the second is ASCII,
/// and every value-taking flag is ASCII, so this agrees with counting bytes.
pub fn parse_ssh_destination(args: &[String]) -> (dest: Option<String>)
    ensures
        match dest {
            Some(d) => ssh_destination(arg_views(args@)) == Some(d@),
            None => ssh_destination(arg_views(args@)) is None,
        },
{
    let ghost views = arg_views(args@);
    let mut i: usize = 0;
    while i < args.len()
        invariant
            views == arg_views(args@),
            i <= args.len(),
            destination_from(views, i as nat) == ssh_destination(views),
        decreases args.len() - i,
    {
        let arg = args[i].as_str();
        let n = arg.unicode_len();
        assert(views[i as int] == arg@);
        if n == 2 && arg.get_char(0) == '-' && arg.get_char(1) == '-' {
            assert(arg@ =~= seq!['-', '-']);
            if i + 1 < args.len() {
                return Some(args[i + 1].clone());
            } else {
                return None;
            }
        }
        assert(!is_end_of_options(views[i as int])) by {
            if is_end_of_options(views[i as int]) {
                assert(arg@[0] == '-' && arg@[1] == '-');
            }
        }
        if n >= 2 && arg.get_char(0) == '-' {
            let flag = arg.get_char(1);
            if flag_takes_value(flag) && n == 2 {
                if i + 1 < args.len() {
                    i = i + 2;
                } else {
                    // the flag's value would be past the end
                    assert(option_width(views[i as int]) == 2);
                    assert(destination_from(views, (i + 2) as nat) is None);
                    return None;
                }
            } else {
                i = i + 1;
            }
        } else {
            return Some(args[i].clone());
        }
    }
    None
}

/// A destination that is found is one of the arguments.
pub proof fn lemma_destination_is_an_argument(args: Seq<Seq<char>>)
    ensures
        ssh_destination(args) matches Some(d) ==> args.contains(d),
{
    lemma_destination_from_is_an_argument(args, 0);
}

proof fn lemma_destination_from_is_an_argument(args: Seq<Seq<char>>, i: nat)
    ensures
        destination_from(args, i) matches Some(d) ==> args.contains(d),
    decreases args.len() + 2 - i,
{
    if i >= args.len() {
    } else if is_end_of_options(args[i as int]) {
        if i + 1 < args.len() {
            assert(args[i + 1 as int] == args[i + 1 as int]);
        }
    } else if is_option(args[i as int]) {
        lemma_destination_from_is_an_argument(args, i + option_width(args[i as int]));
    } else {
        assert(args[i as int] == args[i as int]);
    }
}

/// Scanning `prefix + rest` from inside `rest` gives the same result as
/// scanning `rest` alone.
proof fn lemma_destination_from_shift(prefix: Seq<Seq<char>>, rest: Seq<Seq<char>>, k: nat)
    ensures
        destination_from(prefix + rest, prefix.len() + k) == destination_from(rest, k),
    decreases rest.len() + 2 - k,
{
    let all = prefix + rest;
    let j = prefix.len() + k;
    if k >= rest.len() {
    } else {
        assert(all[j as int] == rest[k as int]);
        if is_end_of_options(rest[k as int]) {
            if k + 1 < rest.len() {
                assert(all[j + 1 as int] == rest[k + 1 as int]);
            }
        } else if is_option(rest[k as int]) {
            lemma_destination_from_shift(prefix, rest, k + option_width(rest[k as int]));
        }
    }
}

/// An option that takes no separate value (such as `-v`, `-t` or `-p2222`)
/// placed in front of the arguments does not change the destination: ssh
/// options are passed through without being mistaken for the destination.
pub proof fn lemma_single_option_is_skipped(opt: Seq<char>, rest: Seq<Seq<char>>)
    requires
        is_option(opt),
        !is_end_of_options(opt),
        option_width(opt) == 1,
    ensures
        ssh_destination(seq![opt] + rest) == ssh_destination(rest),
{
    let all = seq![opt] + rest;
    assert(all[0] == opt);
    lemma_destination_from_shift(seq![opt], rest, 0);
}

/// A value-taking flag followed by its value (such as `-p 2222` or
/// `-i key.pem`) placed in front of the arguments does not change the
/// destination: the value is never taken for the destination.
pub proof fn lemma_option_with_value_is_skipped(flag: char, value: Seq<char>, rest: Seq<Seq<char>>)
    requires
        takes_value(flag),
    ensures
        ssh_destination(seq![seq!['-', flag], value] + rest) == ssh_destination(rest),
{
    let opt = seq!['-', flag];
    let all = seq![opt, value] + rest;
    assert(all[0] == opt);
    assert(!is_end_of_options(opt)) by {
        if is_end_of_options(opt) {
            assert(opt[1] == '-');
        }
    }
    assert(option_width(opt) == 2);
    lemma_destination_from_shift(seq![opt, value], rest, 0);
}

/// The first argument is the destination when it is not an option.
pub proof fn lemma_plain_first_argument_is_destination(args: Seq<Seq<char>>)
    requires
        args.len() > 0,
        !is_option(args[0]),
    ensures
        ssh_destination(args) == Some(args[0]),
{
    assert(!is_end_of_options(args[0])) by {
        if is_end_of_options(args[0]) {
            assert(args[0].len() == 2 && args[0][0] == '-');
        }
    }
}

/// The options that take a value are exactly `-b -c -D -E -e -F -I -i -J
/// -L -l -m -O -o -p -Q -R -S -W -w`: written alone, such a flag makes the
/// next argument its value, so that argument is never the destination;
/// after any other flag the next argument is read as usual.
pub proof fn lemma_value_taking_flags(c: char, v: Seq<char>, rest: Seq<Seq<char>>)
    requires
        c != '-',
    ensures
        (c == 'b' || c == 'c' || c == 'D' || c == 'E' || c == 'e' || c == 'F' || c == 'I' || c == 'i' || c == 'J' || c == 'L' || c == 'l' || c == 'm' || c == 'O' || c == 'o' || c == 'p' || c == 'Q' || c == 'R' || c == 'S' || c == 'W' || c == 'w') ==> ssh_destination(seq![seq!['-', c], v] + rest) == ssh_destination(rest),
        !(c == 'b' || c == 'c' || c == 'D' || c == 'E' || c == 'e' || c == 'F' || c == 'I' || c == 'i' || c == 'J' || c == 'L' || c == 'l' || c == 'm' || c == 'O' || c == 'o' || c == 'p' || c == 'Q' || c == 'R' || c == 'S' || c == 'W' || c == 'w') ==> ssh_destination(seq![seq!['-', c], v] + rest) == ssh_destination(seq![v] + rest),
{
    let opt = seq!['-', c];
    if takes_value(c) {
        lemma_option_with_value_is_skipped(c, v, rest);
    } else {
        assert(!is_end_of_options(opt)) by {
            if is_end_of_options(opt) {
                assert(opt[1] == '-');
            }
        }
        lemma_single_option_is_skipped(opt, seq![v] + rest);
        assert(seq![opt, v] + rest =~= seq![opt] + (seq![v] + rest));
    }
}

/// After `--` the next argument is the destination, whatever it looks
/// like, and whatever follows.
pub proof fn lemma_argument_after_double_dash(v: Seq<char>, rest: Seq<Seq<char>>)
    ensures
        ssh_destination(seq![seq!['-', '-'], v] + rest) == Some(v),
{
    let all = seq![seq!['-', '-'], v] + rest;
    assert(all[0] == seq!['-', '-']);
    assert(all[1] == v);
}

} // verus!
