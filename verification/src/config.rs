//! The run configuration: the command-line surface as plain values, the
//! normalization of the extension allow-list, and the checks that must hold
//! before any file is touched.

use vstd::prelude::*;
use crate::naming::path_under;
use crate::text::{lower_of, lowercase, trim, trim_of};

verus! {

/// The verbosity selected for the run; it controls what is printed, never
/// the outcome.
#[derive(Clone, Copy, Debug, PartialEq, Eq, Structural)]
pub enum LogMode {
    All,
    Conflicts,
    Errors,
}

/// The command-line arguments, as plain values.
pub struct Args {
    /// The input directory, already resolved to an absolute form.
    pub input: String,
    /// The output directory; created on demand unless dry-run.
    pub output: String,
    /// Suppress every mutation, only report the intended actions.
    pub dry_run: bool,
    /// The verbosity of the run.
    pub log: LogMode,
    /// The extension allow-list; a fixed default set applies when empty.
    pub exts: Vec<String>,
}

/// A validated run configuration.
pub struct Config {
    pub input: String,
    pub output: String,
    pub dry_run: bool,
    pub log: LogMode,
    pub exts: Vec<String>,
}

/// Why a configuration was refused.
#[derive(Clone, Copy, Debug, PartialEq, Eq, Structural)]
pub enum ConfigError {
    /// The input or the output path is empty.
    MissingPaths,
    /// The output directory lies inside the input directory.
    OutputInsideInput,
}

/// One allow-list entry in its stored form: trimmed, stripped of leading
/// dots, and lowercased.
pub open spec fn normalized_ext(e: Seq<char>) -> Seq<char> {
    lower_of(strip_dots(trim_of(e)))
}

/// A string with its leading dots removed.
pub open spec fn strip_dots(s: Seq<char>) -> Seq<char>
    decreases s.len(),
{
    if s.len() > 0 && s[0] == '.' {
        strip_dots(s.skip(1))
    } else {
        s
    }
}

proof fn lemma_strip_dots_at(s: Seq<char>, i: int)
    requires
        0 <= i <= s.len(),
        forall|j: int| 0 <= j < i ==> s[j] == '.',
        i == s.len() || s[i] != '.',
    ensures
        strip_dots(s) == s.skip(i),
    decreases i,
{
    if i == 0 {
        assert(s.skip(0) =~= s);
    } else {
        assert(s[0] == '.');
        lemma_strip_dots_at(s.skip(1), i - 1);
        assert(s.skip(1).skip(i - 1) =~= s.skip(i));
    }
}

/// Removes the leading dots of an allow-list entry.
fn strip_leading_dots(s: &str) -> (r: String)
    ensures
        r@ == strip_dots(s@),
{
    let len = s.unicode_len();
    let mut i: usize = 0;
    while i < len && s.get_char(i) == '.'
        invariant
            0 <= i <= len,
            len == s@.len(),
            forall|j: int| 0 <= j < i ==> s@[j] == '.',
        decreases len - i,
    {
        i = i + 1;
    }
    proof {
        lemma_strip_dots_at(s@, i as int);
    }
    let r = s.substring_char(i, len);
    proof {
        assert(r@ =~= s@.skip(i as int));
    }
    String::from_str(r)
}

/// The normalized form of the allow-list: every entry trimmed, stripped of
/// leading dots and lowercased, and the entries left empty by that dropped.
pub open spec fn normalized_exts(exts: Seq<String>) -> Seq<Seq<char>> {
    exts.map_values(|e: String| normalized_ext(e@)).filter(|x: Seq<char>| x.len() > 0)
}

/// Normalizes the extension allow-list: lowercases each entry, strips
/// leading dots and surrounding whitespace, and drops entries left empty.
pub fn normalize_exts(exts: &Vec<String>) -> (r: Vec<String>)
    ensures
        r@.map_values(|s: String| s@) == normalized_exts(exts@),
{
    let mut r: Vec<String> = Vec::new();
    let mut i: usize = 0;
    while i < exts.len()
        invariant
            0 <= i <= exts@.len(),
            r@.map_values(|s: String| s@) == normalized_exts(exts@.take(i as int)),
        decreases exts@.len() - i,
    {
        let ghost prefix = exts@.take(i as int);
        let t = trim(exts[i].as_str());
        let d = strip_leading_dots(t.as_str());
        let low = lowercase(d.as_str());
        let ghost old_r = r@;
        if low.unicode_len() > 0 {
            r.push(low);
        }
        proof {
            reveal_with_fuel(Seq::<Seq<char>>::filter, 2);
            let f = |x: Seq<char>| x.len() > 0;
            let m = |e: String| normalized_ext(e@);
            let mapped = prefix.map_values(m);
            let x = normalized_ext(exts@[i as int]@);
            let s2 = mapped.push(x);
            assert(exts@.take(i + 1) =~= prefix.push(exts@[i as int]));
            assert(exts@.take(i + 1).map_values(m) =~= s2);
            assert(s2.drop_last() =~= mapped);
            assert(s2.last() == x);
            assert(s2.filter(f) == if f(x) {
                mapped.filter(f).push(x)
            } else {
                mapped.filter(f)
            });
            if f(x) {
                assert(r@.map_values(|s: String| s@) =~= old_r.map_values(|s: String| s@).push(
                    x,
                ));
            }
            assert(r@.map_values(|s: String| s@) == normalized_exts(exts@.take(i + 1)));
        }
        i = i + 1;
    }
    proof {
        assert(exts@.take(exts@.len() as int) =~= exts@);
    }
    r
}

/// The fixed default allow-list used when no extension is given.
pub open spec fn default_exts_spec() -> Seq<Seq<char>> {
    seq![
        "jpg"@,
        "jpeg"@,
        "png"@,
        "heic"@,
        "gif"@,
        "tif"@,
        "tiff"@,
        "mp4"@,
        "mov"@,
        "m4v"@,
        "avi"@,
        "mkv"@,
        "3gp"@,
        "mpo"@,
    ]
}

/// The default set of image and video extensions, applied when the command
/// line names none.
pub fn default_extensions() -> (r: Vec<String>)
    ensures
        r@.map_values(|s: String| s@) == default_exts_spec(),
{
    let mut r: Vec<String> = Vec::new();
    r.push(String::from_str("jpg"));
    r.push(String::from_str("jpeg"));
    r.push(String::from_str("png"));
    r.push(String::from_str("heic"));
    r.push(String::from_str("gif"));
    r.push(String::from_str("tif"));
    r.push(String::from_str("tiff"));
    r.push(String::from_str("mp4"));
    r.push(String::from_str("mov"));
    r.push(String::from_str("m4v"));
    r.push(String::from_str("avi"));
    r.push(String::from_str("mkv"));
    r.push(String::from_str("3gp"));
    r.push(String::from_str("mpo"));
    proof {
        assert(r@.map_values(|s: String| s@) =~= default_exts_spec());
    }
    r
}

/// Whether the output directory lies at or inside the input directory.
pub open spec fn output_inside_input(input: Seq<char>, output: Seq<char>) -> bool {
    output == input || path_under(input, output)
}

impl Config {
    /// Builds the validated configuration: both paths must be non-empty, the
    /// output must not lie inside the input, and the allow-list is
    /// normalized — or replaced by the default set when none was given.
    pub fn from_args(args: Args) -> (r: Result<Config, ConfigError>)
        ensures
            match r {
                Ok(c) => {
                    &&& args.input@.len() > 0
                    &&& args.output@.len() > 0
                    &&& !output_inside_input(args.input@, args.output@)
                    &&& c.input@ == args.input@
                    &&& c.output@ == args.output@
                    &&& c.dry_run == args.dry_run
                    &&& c.log == args.log
                    &&& c.exts@.map_values(|s: String| s@) == if args.exts@.len() == 0 {
                        default_exts_spec()
                    } else {
                        normalized_exts(args.exts@)
                    }
                },
                Err(ConfigError::MissingPaths) => args.input@.len() == 0 || args.output@.len()
                    == 0,
                Err(ConfigError::OutputInsideInput) => {
                    &&& args.input@.len() > 0
                    &&& args.output@.len() > 0
                    &&& output_inside_input(args.input@, args.output@)
                },
            },
    {
        if args.input.unicode_len() == 0 || args.output.unicode_len() == 0 {
            return Err(ConfigError::MissingPaths);
        }
        let nested = if args.output == args.input {
            true
        } else {
            crate::naming::is_path_under(args.input.as_str(), args.output.as_str())
        };
        if nested {
            return Err(ConfigError::OutputInsideInput);
        }
        let exts = if args.exts.len() == 0 {
            default_extensions()
        } else {
            normalize_exts(&args.exts)
        };
        Ok(
            Config {
                input: args.input,
                output: args.output,
                dry_run: args.dry_run,
                log: args.log,
                exts,
            },
        )
    }
}

/// Whether a routine action is printed under this verbosity.
pub fn cfg_log_all(mode: LogMode) -> (r: bool)
    ensures
        r == (mode is All),
{
    match mode {
        LogMode::All => true,
        _ => false,
    }
}

/// Whether a conflict-related action is printed under this verbosity.
pub fn cfg_log_conflict(mode: LogMode) -> (r: bool)
    ensures
        r == (mode is All || mode is Conflicts),
{
    match mode {
        LogMode::All => true,
        LogMode::Conflicts => true,
        LogMode::Errors => false,
    }
}

} // verus!
