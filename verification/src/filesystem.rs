//! The filter over eligible media, content hashing with its hexadecimal
//! prefixes, the decision table of the mover, and the planning of the
//! post-run pruning of empty directories.

use vstd::prelude::*;
use crate::naming::{ext_of, path_under};
use crate::text::{
    contains_str,
    is_lower_hex_char,
    lower_of,
    lowercase,
    upper_hex,
    upper_hex_char_str,
};

verus! {

// ---------------------------------------------------------------------------
// The filter
// ---------------------------------------------------------------------------

/// Whether a path names eligible media: its extension, lowercased, is in the
/// allow-list. A path without an extension is never supported.
pub open spec fn is_supported_spec(path: Seq<char>, exts: Seq<String>) -> bool {
    match ext_of(path) {
        Some(e) => contains_str(exts, lower_of(e)),
        None => false,
    }
}

/// Decides whether a file is eligible media: its extension, lowercased, must
/// be a member of the allow-list.
pub fn is_supported(path: &str, exts: &Vec<String>) -> (r: bool)
    ensures
        r == is_supported_spec(path@, exts@),
{
    match crate::naming::extension_of(path) {
        Some(e) => {
            let low = lowercase(e.as_str());
            crate::text::vec_contains_str(exts, &low)
        },
        None => false,
    }
}

/// Extracts a path's extension in its stored form: lowercased. This is the
/// extension used for target filenames.
pub fn lowercase_extension(path: &str) -> (r: Option<String>)
    ensures
        match r {
            Some(e) => ext_of(path@) matches Some(x) && e@ == lower_of(x),
            None => ext_of(path@) is None,
        },
{
    match crate::naming::extension_of(path) {
        Some(e) => Some(lowercase(e.as_str())),
        None => None,
    }
}

/// Whether any of the listed files is eligible media.
pub open spec fn any_supported(files: Seq<String>, exts: Seq<String>) -> bool {
    exists|i: int| 0 <= i < files.len() && is_supported_spec(files[i]@, exts)
}

/// Decides whether any of the listed files — the non-directory entries found
/// beneath a directory — is eligible media.
pub fn contains_supported_media(files: &Vec<String>, exts: &Vec<String>) -> (r: bool)
    ensures
        r == any_supported(files@, exts@),
{
    let mut i: usize = 0;
    while i < files.len()
        invariant
            0 <= i <= files@.len(),
            forall|j: int| 0 <= j < i ==> !is_supported_spec(files@[j]@, exts@),
        decreases files@.len() - i,
    {
        if is_supported(files[i].as_str(), exts) {
            assert(is_supported_spec(files@[i as int]@, exts@));
            return true;
        }
        i = i + 1;
    }
    false
}

/// Whether a directory listing is empty. The listing holds every entry of
/// the directory, so an empty one means the directory may be removed.
pub fn is_dir_empty(entries: &Vec<String>) -> (r: bool)
    ensures
        r == (entries@.len() == 0),
{
    entries.len() == 0
}

// ---------------------------------------------------------------------------
// Content hashing
// ---------------------------------------------------------------------------

/// The content digest of a byte string, as its 64-character lowercase
/// hexadecimal encoding; it depends on the bytes alone.
pub uninterp spec fn blake3_hex_of(data: Seq<u8>) -> Seq<char>;

/// Relies on blake3::hash and blake3::Hash::to_hex: the digest of the bytes
/// alone, encoded as exactly 64 lowercase hexadecimal characters.
#[verifier::external_body]
pub(crate) fn blake3_hex(data: &[u8]) -> (r: String)
    ensures
        r@ == blake3_hex_of(data@),
        r@.len() == 64,
        forall|i: int| 0 <= i < r@.len() ==> is_lower_hex_char(#[trigger] r@[i]),
{
    let mut s = String::with_capacity(64);
    s.push_str(blake3::hash(data).to_hex().as_str());
    s
}

/// Computes the content digest of a byte string: 64 lowercase hexadecimal
/// characters.
pub fn blake3_file(data: &[u8]) -> (r: String)
    ensures
        r@ == blake3_hex_of(data@),
        r@.len() == 64,
        forall|i: int| 0 <= i < r@.len() ==> is_lower_hex_char(#[trigger] r@[i]),
{
    blake3_hex(data)
}

/// The first `n` characters of a digest (clamped to its length), uppercased.
pub open spec fn prefix_spec(digest: Seq<char>, n: int) -> Seq<char> {
    upper_hex(digest.take(if n <= digest.len() { n } else { digest.len() as int }))
}

/// The first `n` hexadecimal characters of a digest, uppercased; `n` is
/// clamped to the digest's length.
pub fn hash_prefix(digest: &str, n: usize) -> (r: String)
    requires
        forall|i: int| 0 <= i < digest@.len() ==> is_lower_hex_char(#[trigger] digest@[i]),
    ensures
        r@ == prefix_spec(digest@, n as int),
{
    let len = digest.unicode_len();
    let m = if n < len {
        n
    } else {
        len
    };
    let mut s = String::new();
    let mut i: usize = 0;
    while i < m
        invariant
            0 <= i <= m <= len,
            len == digest@.len(),
            forall|j: int| 0 <= j < digest@.len() ==> is_lower_hex_char(#[trigger] digest@[j]),
            s@ == upper_hex(digest@.take(i as int)),
        decreases m - i,
    {
        let c = digest.get_char(i);
        s.append(upper_hex_char_str(c));
        proof {
            assert(s@ =~= upper_hex(digest@.take(i + 1)));
        }
        i = i + 1;
    }
    proof {
        assert(digest@.take(m as int) =~= digest@.take(
            if n as int <= digest@.len() {
                n as int
            } else {
                digest@.len() as int
            },
        ));
    }
    s
}

// ---------------------------------------------------------------------------
// The mover's decisions
// ---------------------------------------------------------------------------

/// Where the relocation of one file stands.
#[derive(Clone, Copy, Debug, PartialEq, Eq, Structural)]
pub enum MoverState {
    /// Nothing attempted yet.
    Start,
    /// The atomic rename failed; the copy fallback is next.
    RenameFailed,
    /// The copy fallback wrote the destination; the source must go.
    Copied,
    /// The file is at its destination and the source is gone.
    Complete,
    /// Both the rename and its fallback failed; the source is intact.
    FailedBoth,
    /// The copy succeeded but the source could not be removed: the content
    /// now exists at both paths.
    FailedDelete,
}

/// What the driver must do next for one file.
#[derive(Clone, Copy, Debug, PartialEq, Eq, Structural)]
pub enum MoverAction {
    /// Create the destination's missing ancestors and attempt the rename.
    EnsureDirsAndRename,
    /// Attempt the copy fallback.
    CopyFallback,
    /// Remove the source after a successful copy.
    RemoveSource,
    /// Nothing further: the state is terminal.
    Stop,
}

/// The mover's transition table.
pub open spec fn mover_next_spec(s: MoverState, dry_run: bool) -> (MoverState, MoverAction) {
    match s {
        MoverState::Start => if dry_run {
            (MoverState::Complete, MoverAction::Stop)
        } else {
            (MoverState::Start, MoverAction::EnsureDirsAndRename)
        },
        MoverState::RenameFailed => (MoverState::RenameFailed, MoverAction::CopyFallback),
        MoverState::Copied => (MoverState::Copied, MoverAction::RemoveSource),
        _ => (s, MoverAction::Stop),
    }
}

/// How one attempt's outcome advances the state.
pub open spec fn mover_observe_spec(s: MoverState, a: MoverAction, ok: bool) -> MoverState {
    match (s, a) {
        (MoverState::Start, MoverAction::EnsureDirsAndRename) => if ok {
            MoverState::Complete
        } else {
            MoverState::RenameFailed
        },
        (MoverState::RenameFailed, MoverAction::CopyFallback) => if ok {
            MoverState::Copied
        } else {
            MoverState::FailedBoth
        },
        (MoverState::Copied, MoverAction::RemoveSource) => if ok {
            MoverState::Complete
        } else {
            MoverState::FailedDelete
        },
        _ => s,
    }
}

/// The next action for one file: rename first, fall back to a copy, and only
/// then delete the source; under dry-run nothing at all is performed.
pub fn mover_next(s: MoverState, dry_run: bool) -> (r: (MoverState, MoverAction))
    ensures
        r == mover_next_spec(s, dry_run),
        dry_run && s is Start ==> r.1 is Stop,
{
    match s {
        MoverState::Start => if dry_run {
            (MoverState::Complete, MoverAction::Stop)
        } else {
            (MoverState::Start, MoverAction::EnsureDirsAndRename)
        },
        MoverState::RenameFailed => (MoverState::RenameFailed, MoverAction::CopyFallback),
        MoverState::Copied => (MoverState::Copied, MoverAction::RemoveSource),
        _ => (s, MoverAction::Stop),
    }
}

/// Advances the state by the outcome of the attempted action.
pub fn mover_observe(s: MoverState, a: MoverAction, ok: bool) -> (r: MoverState)
    ensures
        r == mover_observe_spec(s, a, ok),
{
    match (s, a) {
        (MoverState::Start, MoverAction::EnsureDirsAndRename) => if ok {
            MoverState::Complete
        } else {
            MoverState::RenameFailed
        },
        (MoverState::RenameFailed, MoverAction::CopyFallback) => if ok {
            MoverState::Copied
        } else {
            MoverState::FailedBoth
        },
        (MoverState::Copied, MoverAction::RemoveSource) => if ok {
            MoverState::Complete
        } else {
            MoverState::FailedDelete
        },
        _ => s,
    }
}

// ---------------------------------------------------------------------------
// Pruning
// ---------------------------------------------------------------------------

/// Whether no listed file lies beneath the directory `d`.
pub open spec fn no_files_under(d: Seq<char>, files: Seq<String>) -> bool {
    forall|i: int| 0 <= i < files.len() ==> !path_under(d, files[i]@)
}

/// Decides whether none of the listed files lies beneath `d`.
fn no_files_under_exec(d: &String, files: &Vec<String>) -> (r: bool)
    ensures
        r == no_files_under(d@, files@),
{
    let mut i: usize = 0;
    while i < files.len()
        invariant
            0 <= i <= files@.len(),
            forall|j: int| 0 <= j < i ==> !path_under(d@, files@[j]@),
        decreases files@.len() - i,
    {
        if crate::naming::is_path_under(d.as_str(), files[i].as_str()) {
            return false;
        }
        i = i + 1;
    }
    true
}

/// A directory that pruning may remove: no file lies anywhere beneath it,
/// and it is not the root of the scan itself.
pub open spec fn removable(d: Seq<char>, root: Seq<char>, files: Seq<String>) -> bool {
    no_files_under(d, files) && d != root
}

proof fn lemma_contains_str_push(v: Seq<String>, x: String, name: Seq<char>)
    ensures
        contains_str(v, name) ==> contains_str(v.push(x), name),
        x@ == name ==> contains_str(v.push(x), name),
    decreases v.len(),
{
    if contains_str(v, name) {
        let i = choose|i: int| 0 <= i < v.len() && v[i]@ == name;
        assert(v.push(x)[i]@ == name);
    }
    if x@ == name {
        assert(v.push(x)[v.len() as int]@ == name);
    }
}

/// Selects the directories beneath `root` that may be removed: those with no
/// file anywhere beneath them. The input lists the directories as a
/// contents-first walk yields them — descendants before ancestors — and the
/// plan keeps that order, so each directory is empty by the time its turn
/// comes; `root` itself is never part of the plan.
#[verifier::rlimit(60)]
pub fn prune_plan(root: &String, dirs: &Vec<String>, files: &Vec<String>) -> (plan: Vec<String>)
    requires
        forall|i: int, j: int|
            0 <= i < j < dirs@.len() ==> !path_under(#[trigger] dirs@[i]@, #[trigger] dirs@[j]@),
    ensures
        forall|k: int|
            #![trigger plan@[k]]
            0 <= k < plan@.len() ==> removable(plan@[k]@, root@, files@) && contains_str(
                dirs@,
                plan@[k]@,
            ),
        forall|j: int|
            #![trigger dirs@[j]]
            0 <= j < dirs@.len() && removable(dirs@[j]@, root@, files@) ==> contains_str(
                plan@,
                dirs@[j]@,
            ),
        forall|k: int, l: int|
            #![trigger plan@[k], plan@[l]]
            0 <= k < l < plan@.len() ==> !path_under(plan@[k]@, plan@[l]@),
{
    let mut plan: Vec<String> = Vec::new();
    let mut i: usize = 0;
    while i < dirs.len()
        invariant
            0 <= i <= dirs@.len(),
            forall|i2: int, j2: int|
                0 <= i2 < j2 < dirs@.len() ==> !path_under(
                    #[trigger] dirs@[i2]@,
                    #[trigger] dirs@[j2]@,
                ),
            forall|k: int|
                #![trigger plan@[k]]
                0 <= k < plan@.len() ==> removable(plan@[k]@, root@, files@) && contains_str(
                    dirs@.take(i as int),
                    plan@[k]@,
                ),
            forall|j: int|
                #![trigger dirs@[j]]
                0 <= j < i && removable(dirs@[j]@, root@, files@) ==> contains_str(
                    plan@,
                    dirs@[j]@,
                ),
            forall|k: int, l: int|
                #![trigger plan@[k], plan@[l]]
                0 <= k < l < plan@.len() ==> !path_under(plan@[k]@, plan@[l]@),
        decreases dirs@.len() - i,
    {
        let d = &dirs[i];
        let keep = if *d == *root {
            false
        } else {
            no_files_under_exec(d, files)
        };
        let ghost old_plan = plan@;
        if keep {
            proof {
                assert(removable(dirs@[i as int]@, root@, files@));
                assert forall|k: int| 0 <= k < old_plan.len() implies !path_under(
                    old_plan[k]@,
                    dirs@[i as int]@,
                ) by {
                    assert(contains_str(dirs@.take(i as int), plan@[k]@));
                    let j = choose|j: int|
                        0 <= j < dirs@.take(i as int).len() && dirs@.take(i as int)[j]@
                            == plan@[k]@;
                    assert(dirs@[j]@ == old_plan[k]@);
                    assert(!path_under(dirs@[j]@, dirs@[i as int]@));
                }
            }
            plan.push(d.clone());
            proof {
                let l = plan@.len() - 1;
                assert(plan@[l]@ == dirs@[i as int]@);
                assert(forall|k: int| 0 <= k < l ==> #[trigger] plan@[k] == old_plan[k]);
                assert(contains_str(dirs@.take(i + 1), plan@[l]@)) by {
                    assert(dirs@.take(i + 1)[i as int]@ == plan@[l]@);
                }
                assert forall|k: int| 0 <= k < l implies contains_str(
                    dirs@.take(i + 1),
                    plan@[k]@,
                ) by {
                    assert(contains_str(dirs@.take(i as int), old_plan[k]@));
                    let j = choose|j: int|
                        0 <= j < dirs@.take(i as int).len() && dirs@.take(i as int)[j]@
                            == old_plan[k]@;
                    assert(dirs@.take(i + 1)[j]@ == plan@[k]@);
                }
                assert forall|j: int|
                    0 <= j < i + 1 && removable(dirs@[j]@, root@, files@) implies contains_str(
                    plan@,
                    dirs@[j]@,
                ) by {
                    if j < i {
                        lemma_contains_str_push(old_plan, dirs@[i as int], dirs@[j]@);
                    } else {
                        assert(plan@[l]@ == dirs@[j]@);
                    }
                }
            }
        } else {
            proof {
                assert(!removable(dirs@[i as int]@, root@, files@));
                assert forall|k: int| 0 <= k < plan@.len() implies contains_str(
                    dirs@.take(i + 1),
                    plan@[k]@,
                ) by {
                    assert(contains_str(dirs@.take(i as int), plan@[k]@));
                    let j = choose|j: int|
                        0 <= j < dirs@.take(i as int).len() && dirs@.take(i as int)[j]@
                            == plan@[k]@;
                    assert(dirs@.take(i + 1)[j]@ == plan@[k]@);
                }
            }
        }
        i = i + 1;
    }
    proof {
        assert(dirs@.take(dirs@.len() as int) =~= dirs@);
    }
    plan
}

/// The full pruning decision for one touched tag directory. `dirs` lists the
/// directories of a contents-first walk beneath `tag_dir` (the tag directory
/// itself included) and `files` every non-directory entry beneath it.
///
/// A tag directory still holding any eligible media anywhere beneath it is
/// left entirely alone (`None`). Otherwise the plan removes every directory
/// with no file beneath it, descendants first, and ends with the tag
/// directory itself exactly when no file remains anywhere beneath it.
#[verifier::rlimit(60)]
pub fn plan_tag_prune(
    tag_dir: &String,
    dirs: &Vec<String>,
    files: &Vec<String>,
    exts: &Vec<String>,
) -> (r: Option<Vec<String>>)
    requires
        forall|i: int, j: int|
            0 <= i < j < dirs@.len() ==> !path_under(#[trigger] dirs@[i]@, #[trigger] dirs@[j]@),
        forall|i: int|
            0 <= i < dirs@.len() ==> #[trigger] dirs@[i]@ == tag_dir@ || path_under(
                tag_dir@,
                dirs@[i]@,
            ),
    ensures
        match r {
            None => any_supported(files@, exts@),
            Some(plan) => {
                &&& !any_supported(files@, exts@)
                &&& forall|k: int|
                    #![trigger plan@[k]]
                    0 <= k < plan@.len() ==> no_files_under(plan@[k]@, files@)
                &&& forall|k: int|
                    #![trigger plan@[k]]
                    0 <= k < plan@.len() ==> plan@[k]@ == tag_dir@ || contains_str(
                        dirs@,
                        plan@[k]@,
                    )
                &&& forall|j: int|
                    #![trigger dirs@[j]]
                    0 <= j < dirs@.len() && no_files_under(dirs@[j]@, files@) && dirs@[j]@
                        != tag_dir@ ==> contains_str(plan@, dirs@[j]@)
                &&& forall|k: int, l: int|
                    #![trigger plan@[k], plan@[l]]
                    0 <= k < l < plan@.len() ==> !path_under(plan@[k]@, plan@[l]@)
                &&& (no_files_under(tag_dir@, files@) <==> plan@.len() > 0 && plan@[plan@.len()
                    - 1]@ == tag_dir@)
                &&& forall|k: int|
                    #![trigger plan@[k]]
                    0 <= k < plan@.len() - 1 ==> plan@[k]@ != tag_dir@
            },
        },
{
    if contains_supported_media(files, exts) {
        return None;
    }
    let mut plan = prune_plan(tag_dir, dirs, files);
    let ghost base = plan@;
    proof {
        assert(forall|k: int| #![trigger plan@[k]] 0 <= k < plan@.len() ==> plan@[k]@ != tag_dir@);
    }
    if no_files_under_exec(tag_dir, files) {
        proof {
            assert forall|k: int| 0 <= k < base.len() implies !path_under(
                base[k]@,
                tag_dir@,
            ) by {
                assert(contains_str(dirs@, plan@[k]@));
                let j = choose|j: int| 0 <= j < dirs@.len() && dirs@[j]@ == plan@[k]@;
                assert(dirs@[j]@ == tag_dir@ || path_under(tag_dir@, dirs@[j]@));
                assert(path_under(tag_dir@, base[k]@));
            }
        }
        plan.push(tag_dir.clone());
        proof {
            let l = plan@.len() - 1;
            assert(plan@[l]@ == tag_dir@);
            assert(forall|k: int| 0 <= k < l ==> #[trigger] plan@[k] == base[k]);
            assert forall|j: int|
                0 <= j < dirs@.len() && no_files_under(dirs@[j]@, files@) && dirs@[j]@
                    != tag_dir@ implies contains_str(plan@, dirs@[j]@) by {
                assert(removable(dirs@[j]@, tag_dir@, files@));
                lemma_contains_str_push(base, plan@[l], dirs@[j]@);
                assert(plan@ == base.push(plan@[l]));
            }
        }
    }
    Some(plan)
}

} // verus!
