//! Deciding whether a run may start and, when it may, what goes on the
//! command line: `--iso <path>`, then `--auto` or `--dk <key>`, then
//! `--tc <count> --skip`.

use vstd::prelude::*;

use crate::config::AppConfig;
use crate::config::ConfigView;
use crate::num::dec_rep;
use crate::text::chars_to_string;
use crate::text::push_str_chars;
use vstd::string::StringExecFns;

verus! {

/// The argument list handed to the tool for configuration `c`.
pub open spec fn spec_args(c: ConfigView) -> Seq<Seq<char>> {
    seq!["--iso"@, c.iso_path] + (if c.auto {
        seq!["--auto"@]
    } else {
        seq!["--dk"@, c.decryption_key]
    }) + seq!["--tc"@, dec_rep(c.thread_count as nat), "--skip"@]
}

/// Whether `c` passes the launch checks: a target, an executable, and a key
/// unless the tool is to detect one itself.
pub open spec fn launch_allowed(c: ConfigView) -> bool {
    c.iso_path.len() > 0 && c.ps3dec_path.len() > 0 && (c.auto || c.decryption_key.len() > 0)
}

/// The outcome of asking for a launch: the first check that failed, or the
/// argument list to run with.
pub enum LaunchDecision {
    /// No target file chosen yet.
    MissingIso,
    /// No tool executable chosen yet.
    MissingExecutable,
    /// Manual key mode with no key entered.
    MissingKey,
    /// All checks passed; the tool's argument list.
    Run(Vec<String>),
}

/// Applies the launch checks in their fixed order and, when all pass, builds
/// the argument list.
pub fn plan_launch(c: &AppConfig) -> (r: LaunchDecision)
    ensures
        match r {
            LaunchDecision::MissingIso => c@.iso_path.len() == 0,
            LaunchDecision::MissingExecutable => c@.iso_path.len() > 0 && c@.ps3dec_path.len()
                == 0,
            LaunchDecision::MissingKey => c@.iso_path.len() > 0 && c@.ps3dec_path.len() > 0
                && !c@.auto && c@.decryption_key.len() == 0,
            LaunchDecision::Run(args) => launch_allowed(c@) && args@.map_values(|s: String| s@)
                == spec_args(c@),
        },
{
    if c.iso_path.as_str().is_empty() {
        return LaunchDecision::MissingIso;
    }
    if c.ps3dec_path.as_str().is_empty() {
        return LaunchDecision::MissingExecutable;
    }
    if !c.auto && c.decryption_key.as_str().is_empty() {
        return LaunchDecision::MissingKey;
    }
    let mut args: Vec<String> = Vec::new();
    args.push(String::from_str("--iso"));
    args.push(c.iso_path.clone());
    if c.auto {
        args.push(String::from_str("--auto"));
    } else {
        args.push(String::from_str("--dk"));
        args.push(c.decryption_key.clone());
    }
    args.push(String::from_str("--tc"));
    args.push(crate::num::u32_to_string(c.thread_count));
    args.push(String::from_str("--skip"));
    proof {
        assert(args@.map_values(|s: String| s@) =~= spec_args(c@));
    }
    LaunchDecision::Run(args)
}

impl LaunchDecision {
    /// The status line shown for a refused launch; nothing for an allowed
    /// one.
    pub fn status_message(&self) -> (r: Option<String>)
        ensures
            match self {
                LaunchDecision::MissingIso => r is Some && r->0@ == "Please select an ISO file."@,
                LaunchDecision::MissingExecutable => r is Some && r->0@
                    == "Please select the ps3dec executable."@,
                LaunchDecision::MissingKey => r is Some && r->0@
                    == "Please enter a decryption key."@,
                LaunchDecision::Run(_) => r is None,
            },
    {
        match self {
            LaunchDecision::MissingIso => Some(String::from_str("Please select an ISO file.")),
            LaunchDecision::MissingExecutable => Some(
                String::from_str("Please select the ps3dec executable."),
            ),
            LaunchDecision::MissingKey => Some(String::from_str("Please enter a decryption key.")),
            LaunchDecision::Run(_) => None,
        }
    }
}

/// With automatic detection on, the argument list carries `--auto` and never
/// `--dk` — short of a target path that is itself the literal text `--dk`,
/// which the checks cannot tell from a flag.
pub proof fn lemma_args_auto(c: ConfigView)
    requires
        c.auto,
        c.iso_path != "--dk"@,
    ensures
        spec_args(c).contains("--auto"@),
        !spec_args(c).contains("--dk"@),
{
    reveal_strlit("--iso");
    reveal_strlit("--auto");
    reveal_strlit("--dk");
    reveal_strlit("--tc");
    reveal_strlit("--skip");
    let args = spec_args(c);
    assert(args.len() == 6);
    assert(args[2] == "--auto"@);
    assert(args.contains("--auto"@));
    crate::num::lemma_dec_rep_digits(c.thread_count as nat);
    assert("--iso"@ != "--dk"@) by {
        assert("--iso"@[2] == 'i' && "--dk"@[2] == 'd');
    }
    assert("--auto"@ != "--dk"@) by {
        assert("--auto"@.len() != "--dk"@.len());
    }
    assert("--tc"@ != "--dk"@) by {
        assert("--tc"@[2] == 't' && "--dk"@[2] == 'd');
    }
    assert("--skip"@ != "--dk"@) by {
        assert("--skip"@.len() != "--dk"@.len());
    }
    assert(args[4] != "--dk"@) by {
        assert(crate::num::is_dec_digit(args[4][0]));
        assert("--dk"@[0] == '-');
    }
    assert forall|i: int| 0 <= i < args.len() implies args[i] != "--dk"@ by {
        assert(args[0] == "--iso"@);
        assert(args[1] == c.iso_path);
        assert(args[2] == "--auto"@);
        assert(args[3] == "--tc"@);
        assert(args[5] == "--skip"@);
    }
}

/// With automatic detection off and a key entered, the argument list carries
/// `--dk` followed by the key and never `--auto` — short of a target path or
/// key that is itself the literal text `--auto`.
pub proof fn lemma_args_manual(c: ConfigView)
    requires
        !c.auto,
        c.decryption_key.len() > 0,
        c.iso_path != "--auto"@,
        c.decryption_key != "--auto"@,
    ensures
        exists|i: int|
            0 <= i && i + 1 < spec_args(c).len() && #[trigger] spec_args(c)[i] == "--dk"@
                && spec_args(c)[i + 1] == c.decryption_key,
        !spec_args(c).contains("--auto"@),
{
    reveal_strlit("--iso");
    reveal_strlit("--auto");
    reveal_strlit("--dk");
    reveal_strlit("--tc");
    reveal_strlit("--skip");
    let args = spec_args(c);
    assert(args.len() == 7);
    assert(args[2] == "--dk"@ && args[3] == c.decryption_key);
    crate::num::lemma_dec_rep_digits(c.thread_count as nat);
    assert("--iso"@ != "--auto"@) by {
        assert("--iso"@.len() != "--auto"@.len());
    }
    assert("--dk"@ != "--auto"@) by {
        assert("--dk"@.len() != "--auto"@.len());
    }
    assert("--tc"@ != "--auto"@) by {
        assert("--tc"@.len() != "--auto"@.len());
    }
    assert("--skip"@ != "--auto"@) by {
        assert("--skip"@[2] == 's' && "--auto"@[2] == 'a');
    }
    assert(args[5] != "--auto"@) by {
        assert(crate::num::is_dec_digit(args[5][0]));
        assert("--auto"@[0] == '-');
    }
    assert forall|i: int| 0 <= i < args.len() implies args[i] != "--auto"@ by {
        assert(args[0] == "--iso"@);
        assert(args[1] == c.iso_path);
        assert(args[3] == c.decryption_key);
        assert(args[4] == "--tc"@);
        assert(args[6] == "--skip"@);
    }
}

/// The arguments separated by single spaces.
pub open spec fn join_spaces(args: Seq<Seq<char>>) -> Seq<char>
    decreases args.len(),
{
    if args.len() == 0 {
        Seq::empty()
    } else if args.len() == 1 {
        args[0]
    } else {
        args[0] + seq![' '] + join_spaces(args.drop_first())
    }
}

/// The log's first line for a run: the executable and every argument.
pub open spec fn spec_command_display(exe: Seq<char>, args: Seq<Seq<char>>) -> Seq<char> {
    "Running command: "@ + exe + seq![' '] + join_spaces(args)
}

/// Appends the arguments from `i` on, space-separated, to `out`.
fn push_join(out: &mut Vec<char>, args: &Vec<String>, i: usize)
    requires
        i <= args@.len(),
    ensures
        final(out)@ == old(out)@ + join_spaces(args@.map_values(|s: String| s@).skip(i as int)),
    decreases args@.len() - i,
{
    let ghost vs = args@.map_values(|s: String| s@);
    if i == args.len() {
        proof {
            assert(vs.skip(i as int) =~= Seq::<Seq<char>>::empty());
            assert(out@ =~= out@ + join_spaces(vs.skip(i as int)));
        }
    } else {
        push_str_chars(out, args[i].as_str());
        if i + 1 < args.len() {
            out.push(' ');
        }
        push_join(out, args, i + 1);
        proof {
            assert(vs.skip(i as int).drop_first() =~= vs.skip(i + 1));
            assert(vs.skip(i as int)[0] == vs[i as int]);
            assert(out@ =~= old(out)@ + join_spaces(vs.skip(i as int)));
        }
    }
}

/// Builds the log's first line for a run of `exe` with `args`.
pub fn command_display(exe: &str, args: &Vec<String>) -> (r: String)
    ensures
        r@ == spec_command_display(exe@, args@.map_values(|s: String| s@)),
{
    let mut out: Vec<char> = Vec::new();
    push_str_chars(&mut out, "Running command: ");
    push_str_chars(&mut out, exe);
    out.push(' ');
    push_join(&mut out, args, 0);
    proof {
        let vs = args@.map_values(|s: String| s@);
        assert(vs.skip(0) =~= vs);
        assert(out@ =~= spec_command_display(exe@, vs));
    }
    chars_to_string(&out)
}

} // verus!
