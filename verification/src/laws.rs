//! Run-level laws. The destination tree is modeled as a map from full path
//! to content digest, one file's processing as a decision against that tree
//! followed by its application, and a run as the sequential fold of those
//! steps. The proofs here state what the pipeline guarantees across whole
//! runs: re-running moves nothing further, duplicates collapse to one copy,
//! collisions resolve at the smallest free prefix length or fail at the
//! bound, and a dry run changes nothing.

use vstd::prelude::*;
use crate::conflict::{candidate_name, first_free_len};
use crate::metadata::Timestamp;
use crate::naming::{filename_chars, path_join};
use crate::text::contains_str;

verus! {

/// One source file as the pipeline sees it once its naming inputs are
/// resolved: target directory, timestamp, extension, content digest.
pub ghost struct PlannedFile {
    pub dir: Seq<char>,
    pub t: Timestamp,
    pub ext: Seq<char>,
    pub digest: Seq<char>,
}

/// The naive destination of a file: its base name inside its target
/// directory.
pub open spec fn base_path(f: PlannedFile) -> Seq<char> {
    path_join(f.dir, filename_chars(f.t, f.ext))
}

/// The suffixed destination of a file at prefix length `n`.
pub open spec fn cand_path(f: PlannedFile, n: int) -> Seq<char> {
    path_join(f.dir, candidate_name(f.t, f.ext, f.digest, n))
}

/// The smallest admissible prefix length whose suffixed destination is free
/// in the tree.
pub open spec fn model_first_free(f: PlannedFile, fs: Map<Seq<char>, Seq<char>>) -> Option<int> {
    if !fs.contains_key(cand_path(f, 8)) {
        Some(8)
    } else if !fs.contains_key(cand_path(f, 12)) {
        Some(12)
    } else if !fs.contains_key(cand_path(f, 16)) {
        Some(16)
    } else if !fs.contains_key(cand_path(f, 20)) {
        Some(20)
    } else {
        None
    }
}

/// The outcome of processing one file.
pub ghost enum Outcome {
    /// Moved to its free naive destination.
    Moved(Seq<char>),
    /// Moved to a free suffixed destination after a genuine collision.
    RenamedOnCollision(Seq<char>),
    /// Byte-identical with what already sits at the naive destination; the
    /// source is deleted, the destination untouched.
    SkippedDuplicate,
    /// Processing failed; the source stays where it is.
    Error,
}

/// The decision for one file against the destination tree.
pub open spec fn decide(f: PlannedFile, fs: Map<Seq<char>, Seq<char>>) -> Outcome {
    if !fs.contains_key(base_path(f)) {
        Outcome::Moved(base_path(f))
    } else if fs[base_path(f)] == f.digest {
        Outcome::SkippedDuplicate
    } else {
        match model_first_free(f, fs) {
            Some(n) => Outcome::RenamedOnCollision(cand_path(f, n)),
            None => Outcome::Error,
        }
    }
}

/// How the destination tree changes under an outcome; under dry-run it
/// never changes.
pub open spec fn apply(
    f: PlannedFile,
    fs: Map<Seq<char>, Seq<char>>,
    o: Outcome,
    dry_run: bool,
) -> Map<Seq<char>, Seq<char>> {
    if dry_run {
        fs
    } else {
        match o {
            Outcome::Moved(p) => fs.insert(p, f.digest),
            Outcome::RenamedOnCollision(p) => fs.insert(p, f.digest),
            _ => fs,
        }
    }
}

/// Whether an outcome removes the source file from the input tree: every
/// outcome but an error does — the file is either moved away or deleted as
/// a duplicate.
pub open spec fn consumes_source(o: Outcome) -> bool {
    !(o is Error)
}

/// A full sequential run over the planned files.
pub open spec fn run(
    files: Seq<PlannedFile>,
    fs: Map<Seq<char>, Seq<char>>,
    dry_run: bool,
) -> Map<Seq<char>, Seq<char>>
    decreases files.len(),
{
    if files.len() == 0 {
        fs
    } else {
        let f = files[0];
        run(files.skip(1), apply(f, fs, decide(f, fs), dry_run), dry_run)
    }
}

/// The files a live run leaves behind in the input tree: exactly those
/// whose processing failed.
pub open spec fn leftovers(files: Seq<PlannedFile>, fs: Map<Seq<char>, Seq<char>>) -> Seq<
    PlannedFile,
>
    decreases files.len(),
{
    if files.len() == 0 {
        Seq::empty()
    } else {
        let f = files[0];
        let rest = leftovers(files.skip(1), apply(f, fs, decide(f, fs), false));
        if decide(f, fs) is Error {
            seq![f] + rest
        } else {
            rest
        }
    }
}

/// One tree extends another: every binding of the first is kept unchanged.
pub open spec fn extends(a: Map<Seq<char>, Seq<char>>, b: Map<Seq<char>, Seq<char>>) -> bool {
    forall|k: Seq<char>|
        #![trigger a.contains_key(k)]
        a.contains_key(k) ==> b.contains_key(k) && b[k] == a[k]
}

proof fn lemma_step_extends(f: PlannedFile, fs: Map<Seq<char>, Seq<char>>, dry_run: bool)
    ensures
        extends(fs, apply(f, fs, decide(f, fs), dry_run)),
{
    let o = decide(f, fs);
    let fs2 = apply(f, fs, o, dry_run);
    assert forall|k: Seq<char>| fs.contains_key(k) implies fs2.contains_key(k) && fs2[k]
        == fs[k] by {
        match o {
            Outcome::Moved(p) => {
                assert(p == base_path(f) && !fs.contains_key(p));
            },
            Outcome::RenamedOnCollision(p) => {
                assert(!fs.contains_key(p));
            },
            _ => {},
        }
    }
}

proof fn lemma_run_extends(files: Seq<PlannedFile>, fs: Map<Seq<char>, Seq<char>>, dry_run: bool)
    ensures
        extends(fs, run(files, fs, dry_run)),
    decreases files.len(),
{
    if files.len() > 0 {
        let f = files[0];
        let fs2 = apply(f, fs, decide(f, fs), dry_run);
        lemma_step_extends(f, fs, dry_run);
        lemma_run_extends(files.skip(1), fs2, dry_run);
        let fin = run(files.skip(1), fs2, dry_run);
        assert forall|k: Seq<char>| fs.contains_key(k) implies fin.contains_key(k) && fin[k]
            == fs[k] by {
            assert(fs2.contains_key(k) && fs2[k] == fs[k]);
        }
    }
}

proof fn lemma_error_stable(
    f: PlannedFile,
    fs1: Map<Seq<char>, Seq<char>>,
    fs2: Map<Seq<char>, Seq<char>>,
)
    requires
        extends(fs1, fs2),
        decide(f, fs1) is Error,
    ensures
        decide(f, fs2) is Error,
{
    assert(fs1.contains_key(base_path(f)));
    assert(fs2.contains_key(base_path(f)) && fs2[base_path(f)] == fs1[base_path(f)]);
    assert(fs1.contains_key(cand_path(f, 8)) && fs2.contains_key(cand_path(f, 8)));
    assert(fs1.contains_key(cand_path(f, 12)) && fs2.contains_key(cand_path(f, 12)));
    assert(fs1.contains_key(cand_path(f, 16)) && fs2.contains_key(cand_path(f, 16)));
    assert(fs1.contains_key(cand_path(f, 20)) && fs2.contains_key(cand_path(f, 20)));
}

proof fn lemma_leftovers_fail(
    files: Seq<PlannedFile>,
    fs: Map<Seq<char>, Seq<char>>,
    fs2: Map<Seq<char>, Seq<char>>,
)
    requires
        extends(run(files, fs, false), fs2),
    ensures
        forall|i: int|
            0 <= i < leftovers(files, fs).len() ==> decide(
                #[trigger] leftovers(files, fs)[i],
                fs2,
            ) is Error,
    decreases files.len(),
{
    if files.len() > 0 {
        let f = files[0];
        let fs1 = apply(f, fs, decide(f, fs), false);
        let rest = leftovers(files.skip(1), fs1);
        lemma_leftovers_fail(files.skip(1), fs1, fs2);
        if decide(f, fs) is Error {
            lemma_step_extends(f, fs, false);
            lemma_run_extends(files.skip(1), fs1, false);
            assert(extends(fs, fs1));
            assert(extends(fs1, run(files.skip(1), fs1, false)));
            assert forall|k: Seq<char>| fs.contains_key(k) implies fs2.contains_key(k) && fs2[k]
                == fs[k] by {
                assert(fs1[k] == fs[k]);
                assert(run(files.skip(1), fs1, false)[k] == fs1[k]);
            }
            lemma_error_stable(f, fs, fs2);
            assert(leftovers(files, fs) == seq![f] + rest);
            assert(forall|i: int|
                0 <= i < rest.len() ==> (seq![f] + rest)[i + 1] == #[trigger] rest[i]);
        }
    }
}

proof fn lemma_run_of_failures(files: Seq<PlannedFile>, fs: Map<Seq<char>, Seq<char>>)
    requires
        forall|i: int| 0 <= i < files.len() ==> decide(#[trigger] files[i], fs) is Error,
    ensures
        run(files, fs, false) == fs,
        leftovers(files, fs) =~= files,
    decreases files.len(),
{
    if files.len() > 0 {
        let f = files[0];
        assert(decide(f, fs) is Error);
        assert(apply(f, fs, decide(f, fs), false) == fs);
        assert(forall|i: int| 0 <= i < files.skip(1).len() ==> files.skip(1)[i] == files[i + 1]);
        lemma_run_of_failures(files.skip(1), fs);
        assert(leftovers(files, fs) =~= seq![f] + leftovers(files.skip(1), fs));
    }
}

/// Re-running the pipeline moves nothing further: the files a live run
/// leaves behind are exactly those that failed, a second run over them
/// leaves the destination tree exactly as the first run left it, and they
/// fail again. (The statement is over the destination tree; the sources of
/// every non-failing file were consumed by the first run, so the second run
/// has nothing else to process.)
pub proof fn lemma_rerun_idempotent(files: Seq<PlannedFile>, fs: Map<Seq<char>, Seq<char>>)
    ensures
        run(leftovers(files, fs), run(files, fs, false), false) == run(files, fs, false),
        leftovers(leftovers(files, fs), run(files, fs, false)) =~= leftovers(files, fs),
{
    let fin = run(files, fs, false);
    assert(extends(fin, fin));
    lemma_leftovers_fail(files, fs, fin);
    lemma_run_of_failures(leftovers(files, fs), fin);
}

/// Every outcome of a live run but an error consumes the source: a moved or
/// renamed file leaves the input tree, and a duplicate is deleted from it.
pub proof fn lemma_sources_consumed(f: PlannedFile, fs: Map<Seq<char>, Seq<char>>)
    ensures
        consumes_source(decide(f, fs)) <==> !(decide(f, fs) is Error),
{
}

/// Dedup correctness: when a file's naive destination is free, it is moved
/// there; processing a byte-identical file destined for the same name then
/// skips it as a duplicate and leaves the tree unchanged — exactly one copy
/// survives at the destination, and the duplicate's source is consumed.
pub proof fn lemma_dedup(f: PlannedFile, fs: Map<Seq<char>, Seq<char>>)
    requires
        !fs.contains_key(base_path(f)),
    ensures
        decide(f, fs) == Outcome::Moved(base_path(f)),
        apply(f, fs, decide(f, fs), false) == fs.insert(base_path(f), f.digest),
        decide(f, apply(f, fs, decide(f, fs), false)) == Outcome::SkippedDuplicate,
        apply(
            f,
            apply(f, fs, decide(f, fs), false),
            decide(f, apply(f, fs, decide(f, fs), false)),
            false,
        ) == apply(f, fs, decide(f, fs), false),
        consumes_source(decide(f, apply(f, fs, decide(f, fs), false))),
{
}

/// Collision disambiguation: when the naive destination holds different
/// content and some admissible suffix is free, the file is renamed to the
/// candidate at the smallest free prefix length; afterwards both contents
/// sit at the destination under distinct names.
pub proof fn lemma_collision_disambiguation(f: PlannedFile, fs: Map<Seq<char>, Seq<char>>, n: int)
    requires
        fs.contains_key(base_path(f)),
        fs[base_path(f)] != f.digest,
        model_first_free(f, fs) == Some(n),
    ensures
        decide(f, fs) == Outcome::RenamedOnCollision(cand_path(f, n)),
        n == 8 || n == 12 || n == 16 || n == 20,
        !fs.contains_key(cand_path(f, n)),
        forall|m: int| (m == 8 || m == 12 || m == 16) && m < n ==> fs.contains_key(cand_path(f, m)),
        ({
            let fs2 = apply(f, fs, decide(f, fs), false);
            &&& fs2.contains_key(base_path(f))
            &&& fs2.contains_key(cand_path(f, n))
            &&& fs2[base_path(f)] == fs[base_path(f)]
            &&& fs2[cand_path(f, n)] == f.digest
            &&& fs2[base_path(f)] != fs2[cand_path(f, n)]
        }),
{
}

/// Bounded collision search: when the naive destination holds different
/// content and the candidates at prefix lengths 8, 12, 16 and 20 are all
/// occupied, the file fails with an error rather than probing further, and
/// the destination tree is left unchanged.
pub proof fn lemma_bounded_collision_search(f: PlannedFile, fs: Map<Seq<char>, Seq<char>>)
    requires
        fs.contains_key(base_path(f)),
        fs[base_path(f)] != f.digest,
        fs.contains_key(cand_path(f, 8)),
        fs.contains_key(cand_path(f, 12)),
        fs.contains_key(cand_path(f, 16)),
        fs.contains_key(cand_path(f, 20)),
    ensures
        decide(f, fs) is Error,
        apply(f, fs, decide(f, fs), false) == fs,
{
}

/// Dry-run purity: a dry run leaves the destination tree exactly as it was,
/// for any sequence of files. The decision for a file is a function of the
/// tree alone — `decide` takes no dry-run flag — so a dry run reports the
/// same intended action as a live run would take against the same tree.
pub proof fn lemma_dry_run_pure(files: Seq<PlannedFile>, fs: Map<Seq<char>, Seq<char>>)
    ensures
        run(files, fs, true) == fs,
    decreases files.len(),
{
    if files.len() > 0 {
        lemma_dry_run_pure(files.skip(1), fs);
    }
}

/// The destination paths whose occupancy a file's decision reads: its naive
/// destination and its four suffixed candidates.
pub open spec fn relevant_paths(f: PlannedFile) -> Set<Seq<char>> {
    set![base_path(f), cand_path(f, 8), cand_path(f, 12), cand_path(f, 16), cand_path(f, 20)]
}

/// Two trees agree on a set of paths: the same ones are present, with the
/// same content.
pub open spec fn agree_on(
    a: Map<Seq<char>, Seq<char>>,
    b: Map<Seq<char>, Seq<char>>,
    s: Set<Seq<char>>,
) -> bool {
    forall|k: Seq<char>|
        #![trigger s.contains(k)]
        s.contains(k) ==> (a.contains_key(k) <==> b.contains_key(k)) && (a.contains_key(k)
            ==> a[k] == b[k])
}

/// A file's decision reads only its own relevant paths: trees that agree on
/// them yield the same decision.
pub proof fn lemma_decide_local(
    f: PlannedFile,
    fs1: Map<Seq<char>, Seq<char>>,
    fs2: Map<Seq<char>, Seq<char>>,
)
    requires
        agree_on(fs1, fs2, relevant_paths(f)),
    ensures
        decide(f, fs1) == decide(f, fs2),
{
    assert(relevant_paths(f).contains(base_path(f)));
    assert(relevant_paths(f).contains(cand_path(f, 8)));
    assert(relevant_paths(f).contains(cand_path(f, 12)));
    assert(relevant_paths(f).contains(cand_path(f, 16)));
    assert(relevant_paths(f).contains(cand_path(f, 20)));
}

/// Files that cannot interact: no two of them share any relevant path.
pub open spec fn independent(files: Seq<PlannedFile>) -> bool {
    forall|i: int, j: int|
        0 <= i < files.len() && 0 <= j < files.len() && i != j ==> relevant_paths(
            #[trigger] files[i],
        ).disjoint(relevant_paths(#[trigger] files[j]))
}

/// The sequence of decisions a run takes — what it reports, whether or not
/// it performs them.
pub open spec fn outcomes(
    files: Seq<PlannedFile>,
    fs: Map<Seq<char>, Seq<char>>,
    dry_run: bool,
) -> Seq<Outcome>
    decreases files.len(),
{
    if files.len() == 0 {
        Seq::empty()
    } else {
        let f = files[0];
        seq![decide(f, fs)] + outcomes(
            files.skip(1),
            apply(f, fs, decide(f, fs), dry_run),
            dry_run,
        )
    }
}

/// A live step touches only the stepped file's own relevant paths.
proof fn lemma_step_agrees_elsewhere(
    f: PlannedFile,
    g: PlannedFile,
    fs: Map<Seq<char>, Seq<char>>,
)
    requires
        relevant_paths(f).disjoint(relevant_paths(g)),
    ensures
        agree_on(fs, apply(f, fs, decide(f, fs), false), relevant_paths(g)),
{
    let o = decide(f, fs);
    let fs2 = apply(f, fs, o, false);
    assert forall|k: Seq<char>| relevant_paths(g).contains(k) implies (fs.contains_key(k)
        <==> fs2.contains_key(k)) && (fs.contains_key(k) ==> fs[k] == fs2[k]) by {
        assert(!relevant_paths(f).contains(k));
        match o {
            Outcome::Moved(p) => {
                assert(relevant_paths(f).contains(p));
            },
            Outcome::RenamedOnCollision(p) => {
                assert(relevant_paths(f).contains(p));
            },
            _ => {},
        }
    }
}

proof fn lemma_outcomes_agree(
    files: Seq<PlannedFile>,
    fs_a: Map<Seq<char>, Seq<char>>,
    fs_b: Map<Seq<char>, Seq<char>>,
)
    requires
        independent(files),
        forall|i: int|
            0 <= i < files.len() ==> agree_on(fs_a, fs_b, relevant_paths(#[trigger] files[i])),
    ensures
        outcomes(files, fs_a, false) == outcomes(files, fs_b, false),
    decreases files.len(),
{
    if files.len() > 0 {
        let f = files[0];
        lemma_decide_local(f, fs_a, fs_b);
        let o = decide(f, fs_a);
        let fs_a1 = apply(f, fs_a, o, false);
        let fs_b1 = apply(f, fs_b, o, false);
        let rest = files.skip(1);
        assert(forall|i: int| 0 <= i < rest.len() ==> rest[i] == files[i + 1]);
        assert forall|i: int| 0 <= i < rest.len() implies agree_on(
            fs_a1,
            fs_b1,
            relevant_paths(#[trigger] rest[i]),
        ) by {
            let g = rest[i];
            assert(relevant_paths(f).disjoint(relevant_paths(g)));
            assert forall|k: Seq<char>| relevant_paths(g).contains(k) implies (fs_a1.contains_key(
                k,
            ) <==> fs_b1.contains_key(k)) && (fs_a1.contains_key(k) ==> fs_a1[k] == fs_b1[k]) by {
                assert(!relevant_paths(f).contains(k));
                assert(agree_on(fs_a, fs_b, relevant_paths(g)));
                match o {
                    Outcome::Moved(p) => {
                        assert(relevant_paths(f).contains(p));
                    },
                    Outcome::RenamedOnCollision(p) => {
                        assert(relevant_paths(f).contains(p));
                    },
                    _ => {},
                }
            }
        }
        lemma_outcomes_agree(rest, fs_a1, fs_b1);
    }
}

/// The full dry-run report: when no two files share a relevant destination
/// path, a dry run reports exactly the decisions a live run would take —
/// file by file — while leaving the tree untouched. (When files do
/// interact — say, two byte-identical files destined for the same fresh
/// name — a live run skips the second as a duplicate of the first, which a
/// dry run cannot observe; the guarantee is therefore stated for
/// non-interacting inputs.)
pub proof fn lemma_dry_run_reports_live_actions(
    files: Seq<PlannedFile>,
    fs: Map<Seq<char>, Seq<char>>,
)
    requires
        independent(files),
    ensures
        outcomes(files, fs, true) == outcomes(files, fs, false),
    decreases files.len(),
{
    if files.len() > 0 {
        let f = files[0];
        let o = decide(f, fs);
        let fs1 = apply(f, fs, o, false);
        let rest = files.skip(1);
        assert(forall|i: int| 0 <= i < rest.len() ==> rest[i] == files[i + 1]);
        lemma_dry_run_reports_live_actions(rest, fs);
        assert forall|i: int| 0 <= i < rest.len() implies agree_on(
            fs1,
            fs,
            relevant_paths(#[trigger] rest[i]),
        ) by {
            let g = rest[i];
            assert(relevant_paths(f).disjoint(relevant_paths(g)));
            lemma_step_agrees_elsewhere(f, g, fs);
            assert forall|k: Seq<char>| relevant_paths(g).contains(k) implies (fs1.contains_key(k)
                <==> fs.contains_key(k)) && (fs1.contains_key(k) ==> fs1[k] == fs[k]) by {
                assert(agree_on(fs, fs1, relevant_paths(g)));
            }
        }
        lemma_outcomes_agree(rest, fs1, fs);
        assert(outcomes(files, fs, true) == seq![o] + outcomes(rest, fs, true));
        assert(outcomes(files, fs, false) == seq![o] + outcomes(rest, fs1, false));
    }
}

/// Ties the model to the executable probe: when `occupied` lists exactly
/// the names present in the file's target directory, the probe's notion of
/// the first free prefix length coincides with the model's.
pub open spec fn lists_dir(
    occupied: Seq<String>,
    fs: Map<Seq<char>, Seq<char>>,
    dir: Seq<char>,
) -> bool {
    forall|name: Seq<char>|
        #[trigger] contains_str(occupied, name) <==> fs.contains_key(path_join(dir, name))
}

/// The executable collision probe agrees with the model: against a listing
/// of the target directory, `first_free_len` picks the same prefix length
/// as `model_first_free`.
pub proof fn lemma_probe_agrees_with_model(
    occupied: Seq<String>,
    fs: Map<Seq<char>, Seq<char>>,
    f: PlannedFile,
)
    requires
        lists_dir(occupied, fs, f.dir),
    ensures
        first_free_len(f.t, f.ext, f.digest, occupied) == model_first_free(f, fs),
{
    assert(contains_str(occupied, candidate_name(f.t, f.ext, f.digest, 8)) <==> fs.contains_key(
        cand_path(f, 8),
    ));
    assert(contains_str(occupied, candidate_name(f.t, f.ext, f.digest, 12)) <==> fs.contains_key(
        cand_path(f, 12),
    ));
    assert(contains_str(occupied, candidate_name(f.t, f.ext, f.digest, 16)) <==> fs.contains_key(
        cand_path(f, 16),
    ));
    assert(contains_str(occupied, candidate_name(f.t, f.ext, f.digest, 20)) <==> fs.contains_key(
        cand_path(f, 20),
    ));
}

/// The placement check agrees with the model: when the file's base name is
/// absent from the listing of its target directory, the model moves the
/// file to its naive destination.
pub proof fn lemma_placement_agrees_with_model(
    occupied: Seq<String>,
    fs: Map<Seq<char>, Seq<char>>,
    f: PlannedFile,
)
    requires
        lists_dir(occupied, fs, f.dir),
    ensures
        !contains_str(occupied, filename_chars(f.t, f.ext)) ==> decide(f, fs) == Outcome::Moved(
            base_path(f),
        ),
{
    assert(contains_str(occupied, filename_chars(f.t, f.ext)) <==> fs.contains_key(base_path(f)));
}

/// The executable collision resolver agrees with the model: when the naive
/// destination is occupied by content of digest `dst_hex` and `occupied`
/// lists the names in the file's target directory, the resolver's three
/// outcomes are exactly the model's decisions — skip on an equal digest,
/// rename at the probe's prefix length on a differing one, and an error
/// when every admissible candidate is occupied.
pub proof fn lemma_resolver_agrees_with_model(
    occupied: Seq<String>,
    fs: Map<Seq<char>, Seq<char>>,
    f: PlannedFile,
    dst_hex: Seq<char>,
)
    requires
        lists_dir(occupied, fs, f.dir),
        fs.contains_key(base_path(f)),
        fs[base_path(f)] == dst_hex,
    ensures
        dst_hex == f.digest ==> decide(f, fs) == Outcome::SkippedDuplicate,
        forall|n: int|
            dst_hex != f.digest && first_free_len(f.t, f.ext, f.digest, occupied) == Some(n)
                ==> decide(f, fs) == Outcome::RenamedOnCollision(cand_path(f, n)),
        dst_hex != f.digest && first_free_len(f.t, f.ext, f.digest, occupied) is None ==> decide(
            f,
            fs,
        ) is Error,
{
    lemma_probe_agrees_with_model(occupied, fs, f);
}

} // verus!
