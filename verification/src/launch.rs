//! What the launcher decides: the name of the run file that ties a daemon to
//! its terminal (and that `stop` removes), and the arguments it starts the
//! daemon with.
use vstd::prelude::*;
use vstd::string::StrSliceExecFns;
use vstd::string::StringExecFns;

use crate::payload::decimal;

verus! {

/// The start of every run file name: `mushy.`.
pub open spec fn run_file_prefix() -> Seq<char> {
    seq!['m', 'u', 's', 'h', 'y', '.']
}

/// The end of every run file name: `.run`.
pub open spec fn run_file_ext() -> Seq<char> {
    seq!['.', 'r', 'u', 'n']
}

/// A terminal's device path with every `/` replaced by `_`.
pub open spec fn sanitize_tty(tty: Seq<char>) -> Seq<char> {
    tty.map_values(|c: char| if c == '/' { '_' } else { c })
}

/// The run file name of a terminal: `mushy.{tty with / as _}.run`, or
/// `mushy.unknown.run` when standard output is no terminal.
pub open spec fn spec_run_file_name(tty: Option<Seq<char>>) -> Seq<char> {
    let middle = match tty {
        Some(t) => sanitize_tty(t),
        None => seq!['u', 'n', 'k', 'n', 'o', 'w', 'n'],
    };
    run_file_prefix() + middle + run_file_ext()
}

/// Whether `name` starts with `prefix`.
pub open spec fn starts_with(name: Seq<char>, prefix: Seq<char>) -> bool {
    prefix.len() <= name.len() && name.take(prefix.len() as int) == prefix
}

/// Whether `name` ends with `suffix`.
pub open spec fn ends_with(name: Seq<char>, suffix: Seq<char>) -> bool {
    suffix.len() <= name.len() && name.skip(name.len() - suffix.len()) == suffix
}

/// Replaces every `/` with `_`, with `str::replace`. Trusted: with a
/// one-character pattern and replacement, `replace` maps each character.
#[verifier::external_body]
fn replace_slashes(s: &str) -> (res: String)
    ensures
        res@ == sanitize_tty(s@),
{
    s.replace("/", "_")
}

/// The name of the run file of a terminal (`None`: no terminal).
pub fn run_file_name(tty: Option<&str>) -> (name: String)
    ensures
        name@ == spec_run_file_name(match tty {
            Some(t) => Some(t@),
            None => None,
        }),
{
    proof {
        reveal_strlit("mushy.");
        reveal_strlit("unknown");
        reveal_strlit(".run");
    }
    let mut name = String::from_str("mushy.");
    match tty {
        Some(t) => {
            let sanitized = replace_slashes(t);
            name.append(sanitized.as_str());
        },
        None => {
            name.append("unknown");
        },
    }
    name.append(".run");
    assert(name@ =~= spec_run_file_name(match tty {
        Some(t) => Some(t@),
        None => None,
    }));
    name
}

/// Whether the characters of `name` from `at` on start with `pattern`.
fn matches_at(name: &str, at: usize, pattern: &str) -> (res: bool)
    requires
        at + pattern@.len() <= name@.len(),
        name@.len() <= usize::MAX,
    ensures
        res == (name@.subrange(at as int, at + pattern@.len()) == pattern@),
{
    let n = pattern.unicode_len();
    let mut i: usize = 0;
    while i < n
        invariant
            n == pattern@.len(),
            at + n <= name@.len(),
            name@.len() <= usize::MAX,
            i <= n,
            forall|j: int| 0 <= j < i ==> name@[at + j] == pattern@[j],
        decreases n - i,
    {
        if name.get_char(at + i) != pattern.get_char(i) {
            assert(name@.subrange(at as int, at + n)[i as int] != pattern@[i as int]);
            return false;
        }
        i = i + 1;
    }
    assert(name@.subrange(at as int, at + n) =~= pattern@);
    true
}

/// Whether a file name is that of a run file: it starts with `mushy.` and
/// ends with `.run`. `stop --all` removes every such file.
pub fn is_run_file_name(name: &str) -> (res: bool)
    ensures
        res == (starts_with(name@, run_file_prefix()) && ends_with(name@, run_file_ext())),
{
    proof {
        reveal_strlit("mushy.");
        reveal_strlit(".run");
    }
    let len = name.unicode_len();
    if len < 6 {
        return false;
    }
    let starts = matches_at(name, 0, "mushy.");
    let ends = matches_at(name, len - 4, ".run");
    assert(name@.take(6) =~= name@.subrange(0, 6));
    assert(name@.skip(len - 4) =~= name@.subrange(len - 4, len as int));
    assert("mushy."@ =~= run_file_prefix());
    assert(".run"@ =~= run_file_ext());
    starts && ends
}

/// The run file name of a terminal `t`, character by character: `mushy.`,
/// then each character of `t` with `/` turned into `_` (every character of
/// `t` is kept, whatever its length), then `.run`. Without a terminal the
/// middle part is `unknown`.
pub proof fn lemma_run_file_name_chars(tty: Option<Seq<char>>)
    ensures
        tty matches Some(t) ==> {
            let name = spec_run_file_name(tty);
            &&& name.len() == t.len() + 10
            &&& name.take(6) == seq!['m', 'u', 's', 'h', 'y', '.']
            &&& name.skip(t.len() + 6int) == seq!['.', 'r', 'u', 'n']
            &&& forall|i: int| 0 <= i < t.len() ==> #[trigger] name[i + 6] == (if t[i] == '/' { '_' } else { t[i] })
        },
        tty is None ==> spec_run_file_name(tty) == seq!['m', 'u', 's', 'h', 'y', '.', 'u', 'n', 'k', 'n', 'o', 'w', 'n', '.', 'r', 'u', 'n'],
{
    let name = spec_run_file_name(tty);
    if let Some(t) = tty {
        assert(name.take(6) =~= seq!['m', 'u', 's', 'h', 'y', '.']);
        assert(name.skip(t.len() + 6int) =~= seq!['.', 'r', 'u', 'n']);
    } else {
        assert(name =~= seq!['m', 'u', 's', 'h', 'y', '.', 'u', 'n', 'k', 'n', 'o', 'w', 'n', '.', 'r', 'u', 'n']);
    }
}

/// Terminals whose paths differ other than by a `/` against a `_` get
/// different run files, so stopping one pet leaves the others running.
pub proof fn lemma_run_file_names_distinct(t1: Seq<char>, t2: Seq<char>, i: int)
    requires
        0 <= i < t1.len(),
        0 <= i < t2.len(),
        t1[i] != t2[i],
        t1[i] != '/' && t1[i] != '_',
    ensures
        spec_run_file_name(Some(t1)) != spec_run_file_name(Some(t2)),
{
    lemma_run_file_name_chars(Some(t1));
    lemma_run_file_name_chars(Some(t2));
    assert(spec_run_file_name(Some(t1))[i + 6] != spec_run_file_name(Some(t2))[i + 6]);
}

/// Every run file that the launcher names is one that `stop --all` removes,
/// and it has no `/`, so it lies directly in the temporary directory.
pub proof fn lemma_run_file_found_by_stop_all(tty: Option<Seq<char>>)
    ensures
        starts_with(spec_run_file_name(tty), run_file_prefix()),
        ends_with(spec_run_file_name(tty), run_file_ext()),
        forall|i: int| 0 <= i < spec_run_file_name(tty).len() ==> spec_run_file_name(tty)[i] != '/',
{
    let name = spec_run_file_name(tty);
    let middle = match tty {
        Some(t) => sanitize_tty(t),
        None => seq!['u', 'n', 'k', 'n', 'o', 'w', 'n'],
    };
    assert(name.take(6) =~= run_file_prefix());
    assert(name.skip(name.len() - 4) =~= run_file_ext());
    assert forall|i: int| 0 <= i < name.len() implies name[i] != '/' by {
        if 6 <= i < 6 + middle.len() {
            assert(name[i] == middle[i - 6]);
        }
    }
}

/// The decimal digits of a number as characters.
pub open spec fn decimal_chars(n: nat) -> Seq<char> {
    decimal(n).map_values(|b: u8| b as char)
}

/// The decimal text of a number, with `u32::to_string`. Trusted: `Display`
/// for integers writes the decimal digits, without sign or leading zeros.
#[verifier::external_body]
fn decimal_text(n: u32) -> (res: String)
    ensures
        res@ == decimal_chars(n as nat),
{
    n.to_string()
}

/// The arguments the launcher starts the daemon with: `--daemon`,
/// `--run-file` and the run file, then each setting given on the command
/// line (`--config`, `--gif`, `--size`, `--speed`, `--cw`), in that order.
pub open spec fn spec_daemon_args(
    run_file: Seq<char>,
    config: Option<Seq<char>>,
    gif: Option<Seq<char>>,
    size: Option<u32>,
    speed: Option<Seq<char>>,
    cw: bool,
) -> Seq<Seq<char>> {
    seq!["--daemon"@, "--run-file"@, run_file]
        + (match config { Some(c) => seq!["--config"@, c], None => Seq::empty() })
        + (match gif { Some(g) => seq!["--gif"@, g], None => Seq::empty() })
        + (match size { Some(n) => seq!["--size"@, decimal_chars(n as nat)], None => Seq::empty() })
        + (match speed { Some(s) => seq!["--speed"@, s], None => Seq::empty() })
        + (if cw { seq!["--cw"@] } else { Seq::empty() })
}

/// Whether `flag` stands in `args` immediately followed by `value`.
pub open spec fn has_pair(args: Seq<Seq<char>>, flag: Seq<char>, value: Seq<char>) -> bool {
    exists|i: int| 0 <= i && i + 1 < args.len() && args[i] == flag && #[trigger] args[i + 1] == value
}

/// Whether `flag` stands in `args`.
pub open spec fn has_flag(args: Seq<Seq<char>>, flag: Seq<char>) -> bool {
    exists|i: int| 0 <= i < args.len() && #[trigger] args[i] == flag
}

/// Every setting given on the command line reaches the daemon with its flag,
/// whatever the other settings are: the daemon's arguments start with
/// `--daemon --run-file <run file>`, hold `--config <c>`, `--gif <g>`,
/// `--size <decimal n>` and `--speed <s>` for each one given, and `--cw` when
/// walking clockwise; nothing else follows the run file when no setting is
/// given.
pub proof fn lemma_daemon_args_carry_settings(
    run_file: Seq<char>,
    config: Option<Seq<char>>,
    gif: Option<Seq<char>>,
    size: Option<u32>,
    speed: Option<Seq<char>>,
    cw: bool,
)
    ensures
        ({
            let args = spec_daemon_args(run_file, config, gif, size, speed, cw);
            &&& args.len() >= 3
            &&& args[0] == "--daemon"@ && args[1] == "--run-file"@ && args[2] == run_file
            &&& (config matches Some(c) ==> has_pair(args, "--config"@, c))
            &&& (gif matches Some(g) ==> has_pair(args, "--gif"@, g))
            &&& (size matches Some(n) ==> has_pair(args, "--size"@, decimal_chars(n as nat)))
            &&& (speed matches Some(v) ==> has_pair(args, "--speed"@, v))
            &&& (cw ==> has_flag(args, "--cw"@))
            &&& (config is None && gif is None && size is None && speed is None && !cw ==> args.len() == 3)
        }),
{
    let a = seq!["--daemon"@, "--run-file"@, run_file];
    let c = match config { Some(c) => seq!["--config"@, c], None => Seq::<Seq<char>>::empty() };
    let g = match gif { Some(g) => seq!["--gif"@, g], None => Seq::<Seq<char>>::empty() };
    let n = match size { Some(n) => seq!["--size"@, decimal_chars(n as nat)], None => Seq::<Seq<char>>::empty() };
    let v = match speed { Some(v) => seq!["--speed"@, v], None => Seq::<Seq<char>>::empty() };
    let f = if cw { seq!["--cw"@] } else { Seq::<Seq<char>>::empty() };
    let args = spec_daemon_args(run_file, config, gif, size, speed, cw);
    assert(args == a + c + g + n + v + f);
    let ic = 3int;
    let ig = ic + c.len();
    let in_ = ig + g.len();
    let iv = in_ + n.len();
    let iff = iv + v.len();
    if let Some(cc) = config {
        assert(args[ic] == "--config"@ && args[ic + 1] == cc);
    }
    if let Some(gg) = gif {
        assert(args[ig] == "--gif"@ && args[ig + 1] == gg);
    }
    if let Some(nn) = size {
        assert(args[in_] == "--size"@ && args[in_ + 1] == decimal_chars(nn as nat));
    }
    if let Some(vv) = speed {
        assert(args[iv] == "--speed"@ && args[iv + 1] == vv);
    }
    if cw {
        assert(args[iff] == "--cw"@);
    }
}

/// The view of an optional text slice.
pub open spec fn opt_str_view(s: Option<&str>) -> Option<Seq<char>> {
    match s {
        Some(t) => Some(t@),
        None => None,
    }
}

/// The views of a list of texts.
pub open spec fn strings_view(v: Seq<String>) -> Seq<Seq<char>> {
    v.map_values(|s: String| s@)
}

/// Appends two arguments.
fn push_pair(args: &mut Vec<String>, flag: &str, value: String)
    ensures
        strings_view(final(args)@) == strings_view(old(args)@) + seq![flag@, value@],
{
    args.push(String::from_str(flag));
    args.push(value);
    assert(strings_view(args@) =~= strings_view(old(args)@) + seq![flag@, value@]);
}

/// Builds the daemon's arguments (the speed comes already written out).
pub fn daemon_args(
    run_file: &str,
    config: Option<&str>,
    gif: Option<&str>,
    size: Option<u32>,
    speed: Option<&str>,
    cw: bool,
) -> (args: Vec<String>)
    ensures
        strings_view(args@) == spec_daemon_args(
            run_file@,
            opt_str_view(config),
            opt_str_view(gif),
            size,
            opt_str_view(speed),
            cw,
        ),
{
    let mut args: Vec<String> = Vec::new();
    args.push(String::from_str("--daemon"));
    push_pair(&mut args, "--run-file", String::from_str(run_file));
    let ghost a0 = strings_view(args@);
    assert(a0 =~= seq!["--daemon"@, "--run-file"@, run_file@]);
    if let Some(c) = config {
        push_pair(&mut args, "--config", String::from_str(c));
    }
    let ghost a1 = strings_view(args@);
    assert(a1 =~= a0 + (match opt_str_view(config) { Some(c) => seq!["--config"@, c], None => Seq::<Seq<char>>::empty() }));
    if let Some(g) = gif {
        push_pair(&mut args, "--gif", String::from_str(g));
    }
    let ghost a2 = strings_view(args@);
    assert(a2 =~= a1 + (match opt_str_view(gif) { Some(g) => seq!["--gif"@, g], None => Seq::<Seq<char>>::empty() }));
    if let Some(n) = size {
        push_pair(&mut args, "--size", decimal_text(n));
    }
    let ghost a3 = strings_view(args@);
    assert(a3 =~= a2 + (match size { Some(n) => seq!["--size"@, decimal_chars(n as nat)], None => Seq::<Seq<char>>::empty() }));
    if let Some(s) = speed {
        push_pair(&mut args, "--speed", String::from_str(s));
    }
    let ghost a4 = strings_view(args@);
    assert(a4 =~= a3 + (match opt_str_view(speed) { Some(s) => seq!["--speed"@, s], None => Seq::<Seq<char>>::empty() }));
    if cw {
        args.push(String::from_str("--cw"));
    }
    assert(strings_view(args@) =~= a4 + (if cw { seq!["--cw"@] } else { Seq::<Seq<char>>::empty() }));
    args
}

} // verus!
