//! Removal of pinentry command-line options before the arguments reach GTK.
use vstd::prelude::*;

use crate::text::{chars_of, folded_is, occurs_at, starts_with_lit, CaseFold};

verus! {

/// Number of entries in the pinentry option table.
pub const OPTION_COUNT: usize = 23;

/// Standard pinentry CLI options and whether each takes a value argument.
///
/// gpg-agent passes these flags when spawning a pinentry. GTK4 does not
/// recognize them, so they must be stripped before the GTK application
/// initializes. The values are also sent via Assuan `OPTION` commands at the
/// start of each session, so discarding them at the CLI level is safe.
pub open spec fn option_entry(i: int) -> (Seq<char>, bool) {
    if i == 0 {
        // informational flags (no value)
        ("--version"@, false)
    } else if i == 1 {
        ("-V"@, false)
    } else if i == 2 {
        ("--help"@, false)
    } else if i == 3 {
        ("-h"@, false)
    } else if i == 4 {
        // display and terminal configuration (take a value)
        ("--display"@, true)
    } else if i == 5 {
        ("-d"@, true)
    } else if i == 6 {
        ("--ttyname"@, true)
    } else if i == 7 {
        ("-T"@, true)
    } else if i == 8 {
        ("--ttytype"@, true)
    } else if i == 9 {
        ("-t"@, true)
    } else if i == 10 {
        ("--lc-ctype"@, true)
    } else if i == 11 {
        ("-C"@, true)
    } else if i == 12 {
        ("--lc-messages"@, true)
    } else if i == 13 {
        ("-M"@, true)
    } else if i == 14 {
        // window and session options (take a value)
        ("--parent-wid"@, true)
    } else if i == 15 {
        ("-W"@, true)
    } else if i == 16 {
        ("--touch-file"@, true)
    } else if i == 17 {
        ("--timeout"@, true)
    } else if i == 18 {
        // boolean flags (no value)
        ("--no-global-grab"@, false)
    } else if i == 19 {
        ("-g"@, false)
    } else if i == 20 {
        ("--allow-external-password-cache"@, false)
    } else if i == 21 {
        ("--debug"@, false)
    } else {
        ("--purge-keys"@, false)
    }
}

/// Entry `i` of the option table.
fn option_entry_at(i: usize) -> (r: (&'static str, bool))
    requires
        i < OPTION_COUNT,
    ensures
        (r.0@, r.1) == option_entry(i as int),
{
    match i {
        0 => ("--version", false),
        1 => ("-V", false),
        2 => ("--help", false),
        3 => ("-h", false),
        4 => ("--display", true),
        5 => ("-d", true),
        6 => ("--ttyname", true),
        7 => ("-T", true),
        8 => ("--ttytype", true),
        9 => ("-t", true),
        10 => ("--lc-ctype", true),
        11 => ("-C", true),
        12 => ("--lc-messages", true),
        13 => ("-M", true),
        14 => ("--parent-wid", true),
        15 => ("-W", true),
        16 => ("--touch-file", true),
        17 => ("--timeout", true),
        18 => ("--no-global-grab", false),
        19 => ("-g", false),
        20 => ("--allow-external-password-cache", false),
        21 => ("--debug", false),
        _ => ("--purge-keys", false),
    }
}

/// Whether `a` is `<opt>=<value>` for a value-taking option `opt`.
pub open spec fn is_assignment_to(a: Seq<char>, opt: Seq<char>) -> bool {
    occurs_at(a, opt + seq!['='], 0)
}

/// Whether `a` is the `--option=value` form of some value-taking option.
pub open spec fn is_assignment_form(a: Seq<char>) -> bool {
    exists|i: int|
        0 <= i < OPTION_COUNT && #[trigger] option_entry(i).1 && is_assignment_to(
            a,
            option_entry(i).0,
        )
}

/// The first table entry from index `i` on that is exactly `a`.
pub open spec fn lookup_from(a: Seq<char>, i: int) -> Option<bool>
    decreases OPTION_COUNT - i,
{
    if i >= OPTION_COUNT || i < 0 {
        None
    } else if option_entry(i).0 == a {
        Some(option_entry(i).1)
    } else {
        lookup_from(a, i + 1)
    }
}

/// Whether `a` is a pinentry option name, and if so whether it takes a
/// value.
pub open spec fn known_option(a: Seq<char>) -> Option<bool> {
    lookup_from(a, 0)
}

/// The arguments that remain after pinentry options are removed: an
/// `--option=value` argument is dropped, a bare option is dropped together
/// with the argument after it when the option takes a value, and everything
/// else is kept in order.
pub open spec fn spec_filter(args: Seq<Seq<char>>) -> Seq<Seq<char>>
    decreases args.len(),
{
    if args.len() == 0 {
        Seq::empty()
    } else if is_assignment_form(args[0]) {
        spec_filter(args.skip(1))
    } else {
        match known_option(args[0]) {
            Some(has_value) => if has_value && args.len() > 1 {
                spec_filter(args.skip(2))
            } else {
                spec_filter(args.skip(1))
            },
            None => seq![args[0]] + spec_filter(args.skip(1)),
        }
    }
}

/// Whether `a` starts with `opt` followed by `=`.
fn assigns(a: &Vec<char>, opt: &str) -> (r: bool)
    ensures
        r == is_assignment_to(a@, opt@),
{
    let n = chars_of(opt).len();
    if !starts_with_lit(a, opt) || a.len() <= n {
        proof {
            if is_assignment_to(a@, opt@) {
                assert(a@.subrange(0, n as int) =~= (opt@ + seq!['=']).subrange(0, n as int));
                assert((opt@ + seq!['=']).subrange(0, n as int) =~= opt@);
            }
        }
        return false;
    }
    let r = a[n] == '=';
    proof {
        assert(a@.subrange(0, n as int) =~= opt@);
        if r {
            assert(a@.subrange(0, n + 1) =~= opt@ + seq!['=']);
        } else {
            assert((opt@ + seq!['='])[n as int] == '=');
            assert(a@.subrange(0, n + 1)[n as int] == a@[n as int]);
        }
    }
    r
}

/// Whether `a` is the `--option=value` form of a value-taking option.
fn assignment_form(a: &Vec<char>) -> (r: bool)
    ensures
        r == is_assignment_form(a@),
{
    let mut i: usize = 0;
    while i < OPTION_COUNT
        invariant
            0 <= i <= OPTION_COUNT,
            forall|j: int|
                0 <= j < i ==> !(#[trigger] option_entry(j).1 && is_assignment_to(
                    a@,
                    option_entry(j).0,
                )),
        decreases OPTION_COUNT - i,
    {
        let (opt, has_value) = option_entry_at(i);
        if has_value && assigns(a, opt) {
            proof {
                assert(option_entry(i as int).1 && is_assignment_to(a@, option_entry(i as int).0));
            }
            return true;
        }
        i = i + 1;
    }
    false
}

/// Whether `a` is a pinentry option name, and whether it takes a value.
fn lookup_option(a: &Vec<char>) -> (r: Option<bool>)
    ensures
        r == known_option(a@),
{
    let mut i: usize = 0;
    while i < OPTION_COUNT
        invariant
            0 <= i <= OPTION_COUNT,
            lookup_from(a@, 0) == lookup_from(a@, i as int),
        decreases OPTION_COUNT - i,
    {
        let (opt, has_value) = option_entry_at(i);
        if folded_is(a, CaseFold::Exact, opt) {
            return Some(has_value);
        }
        i = i + 1;
    }
    None
}

/// Strips known pinentry-specific CLI options from `args`, returning the
/// remaining arguments suitable for passing to GTK4.
///
/// GTK4 does not recognize pinentry options (such as `--display`). Any unknown
/// option causes GTK4 to print an error and exit, preventing the dialog from
/// showing. gpg-agent passes these options when spawning the pinentry and also
/// sends them as Assuan `OPTION` commands, so they can safely be dropped here.
///
/// Both `--option VALUE` (space-separated) and `--option=VALUE` (equals-sign)
/// forms are handled.
pub fn filter_gtk_args(args: &[String]) -> (r: Vec<String>)
    ensures
        r.deep_view() == spec_filter(args.deep_view()),
{
    let mut result: Vec<String> = Vec::new();
    let mut i: usize = 0;
    let ghost all = args.deep_view();
    proof {
        assert(all.skip(0) =~= all);
    }
    while i < args.len()
        invariant
            0 <= i <= args.len(),
            all == args.deep_view(),
            result.deep_view() + spec_filter(all.skip(i as int)) == spec_filter(all),
        decreases args.len() - i,
    {
        let arg = &args[i];
        let v = chars_of(arg.as_str());
        let ghost t = all.skip(i as int);
        proof {
            assert(t[0] == arg@);
            assert(t.skip(1) =~= all.skip(i + 1));
        }
        // check for the `--option=value` form first
        if assignment_form(&v) {
            i = i + 1;
            continue;
        }
        // check for the space-separated form `--option VALUE` or bare `--flag`
        match lookup_option(&v) {
            Some(has_value) => {
                i = i + 1;
                // skip the following value token if this option takes one
                if has_value && i < args.len() {
                    proof {
                        assert(t.skip(2) =~= all.skip(i + 1));
                    }
                    i = i + 1;
                }
            },
            None => {
                let ghost before = result.deep_view();
                result.push(arg.clone());
                proof {
                    assert(result.deep_view() =~= before.push(arg@));
                    assert(result.deep_view() + spec_filter(all.skip(i + 1)) =~= before + (seq![
                        t[0],
                    ] + spec_filter(t.skip(1))));
                }
                i = i + 1;
            },
        }
    }
    proof {
        assert(all.skip(i as int) =~= Seq::<Seq<char>>::empty());
        assert(result.deep_view() =~= result.deep_view() + Seq::<Seq<char>>::empty());
    }
    result
}

// ---------------------------------------------------------------------------
// Laws
// ---------------------------------------------------------------------------

/// Whether `a` is neither a pinentry option nor the `--option=value` form of
/// one.
pub open spec fn is_plain(a: Seq<char>) -> bool {
    !is_assignment_form(a) && known_option(a) is None
}

proof fn lemma_filter_output_plain(args: Seq<Seq<char>>)
    ensures
        forall|k: int| 0 <= k < spec_filter(args).len() ==> is_plain(#[trigger] spec_filter(args)[k]),
        spec_filter(args).len() <= args.len(),
    decreases args.len(),
{
    if args.len() > 0 {
        lemma_filter_output_plain(args.skip(1));
        if args.len() > 1 {
            lemma_filter_output_plain(args.skip(2));
        }
        let r = spec_filter(args);
        if !is_assignment_form(args[0]) && known_option(args[0]) is None {
            let rest = spec_filter(args.skip(1));
            assert forall|k: int| 0 <= k < r.len() implies is_plain(#[trigger] r[k]) by {
                if k > 0 {
                    assert(r[k] == rest[k - 1]);
                }
            }
        }
    }
}

proof fn lemma_filter_plain_unchanged(args: Seq<Seq<char>>)
    requires
        forall|k: int| 0 <= k < args.len() ==> is_plain(#[trigger] args[k]),
    ensures
        spec_filter(args) == args,
    decreases args.len(),
{
    if args.len() > 0 {
        assert(is_plain(args[0]));
        assert forall|k: int| 0 <= k < args.skip(1).len() implies is_plain(
            #[trigger] args.skip(1)[k],
        ) by {
            assert(args.skip(1)[k] == args[k + 1]);
        }
        lemma_filter_plain_unchanged(args.skip(1));
        assert(args =~= seq![args[0]] + args.skip(1));
    }
}

/// No argument that survives filtering is a pinentry option or the
/// `--option=value` form of one, and filtering never adds arguments.
pub proof fn law_filter_removes_all_options(args: Seq<Seq<char>>)
    ensures
        forall|k: int| 0 <= k < spec_filter(args).len() ==> is_plain(#[trigger] spec_filter(args)[k]),
        spec_filter(args).len() <= args.len(),
{
    lemma_filter_output_plain(args);
}

/// Arguments that hold no pinentry option pass through unchanged.
pub proof fn law_filter_keeps_foreign_args(args: Seq<Seq<char>>)
    requires
        forall|k: int| 0 <= k < args.len() ==> is_plain(#[trigger] args[k]),
    ensures
        spec_filter(args) == args,
{
    lemma_filter_plain_unchanged(args);
}

/// Filtering twice is the same as filtering once.
pub proof fn law_filter_idempotent(args: Seq<Seq<char>>)
    ensures
        spec_filter(spec_filter(args)) == spec_filter(args),
{
    lemma_filter_output_plain(args);
    lemma_filter_plain_unchanged(spec_filter(args));
}

} // verus!
