//! Collision handling: when a file's naive destination is already occupied,
//! byte-identical duplicates are skipped, and genuine collisions are given a
//! name carrying a growing prefix of the source's content digest, within a
//! fixed bound.

use vstd::prelude::*;
use crate::filesystem::{blake3_hex, blake3_hex_of, hash_prefix, prefix_spec};
use crate::metadata::{valid_timestamp, Timestamp};
use crate::naming::suffixed_filename_chars;
use crate::text::{contains_str, is_lower_hex_char, vec_contains_str};

verus! {

/// The initial digest-prefix length tried for a disambiguating suffix.
pub const PREFIX_INITIAL_LEN: usize = 8;

/// The step by which the prefix grows while candidates are occupied.
pub const PREFIX_INCREMENT: usize = 4;

/// The largest prefix length tried before the search gives up.
pub const PREFIX_MAX_LEN: usize = 20;

/// The candidate filename carrying the first `n` digest characters as its
/// suffix.
pub open spec fn candidate_name(t: Timestamp, ext: Seq<char>, digest: Seq<char>, n: int) -> Seq<
    char,
> {
    suffixed_filename_chars(t, prefix_spec(digest, n), ext)
}

/// The smallest admissible prefix length whose candidate name is free in the
/// target directory, or `None` when every admissible length is occupied.
pub open spec fn first_free_len(
    t: Timestamp,
    ext: Seq<char>,
    digest: Seq<char>,
    occupied: Seq<String>,
) -> Option<int> {
    if !contains_str(occupied, candidate_name(t, ext, digest, 8)) {
        Some(8)
    } else if !contains_str(occupied, candidate_name(t, ext, digest, 12)) {
        Some(12)
    } else if !contains_str(occupied, candidate_name(t, ext, digest, 16)) {
        Some(16)
    } else if !contains_str(occupied, candidate_name(t, ext, digest, 20)) {
        Some(20)
    } else {
        None
    }
}

/// Probes for a free suffixed name in the target directory, growing the
/// digest prefix from 8 hexadecimal characters by steps of 4 up to 20, and
/// returning the candidate at the smallest free length — or `None` when all
/// of them are occupied.
pub fn probe_suffix(
    dt: &Timestamp,
    ext: &str,
    digest: &str,
    occupied: &Vec<String>,
) -> (r: Option<String>)
    requires
        valid_timestamp(*dt),
        forall|i: int| 0 <= i < digest@.len() ==> is_lower_hex_char(#[trigger] digest@[i]),
    ensures
        match r {
            Some(name) => {
                &&& first_free_len(*dt, ext@, digest@, occupied@) matches Some(n) && name@
                    == candidate_name(*dt, ext@, digest@, n)
                &&& !contains_str(occupied@, name@)
            },
            None => first_free_len(*dt, ext@, digest@, occupied@) is None,
        },
{
    let mut n: usize = PREFIX_INITIAL_LEN;
    while n <= PREFIX_MAX_LEN
        invariant
            valid_timestamp(*dt),
            forall|i: int| 0 <= i < digest@.len() ==> is_lower_hex_char(#[trigger] digest@[i]),
            n == 8 || n == 12 || n == 16 || n == 20 || n == 24,
            forall|m: int|
                8 <= m < n && (m == 8 || m == 12 || m == 16 || m == 20) ==> contains_str(
                    occupied@,
                    candidate_name(*dt, ext@, digest@, m),
                ),
        decreases PREFIX_MAX_LEN + PREFIX_INCREMENT - n,
    {
        let suffix = hash_prefix(digest, n);
        let name = crate::naming::format_filename_with_suffix(dt, suffix.as_str(), ext);
        if !vec_contains_str(occupied, &name) {
            return Some(name);
        }
        n = n + PREFIX_INCREMENT;
    }
    None
}

/// The outcome of resolving an occupied destination.
pub enum CollisionOutcome {
    /// The source is byte-identical with what already sits at the
    /// destination: the source is to be deleted and the destination left
    /// untouched.
    SkippedDuplicate,
    /// A genuine collision: the source is to be moved to this free suffixed
    /// name instead.
    RenamedOnCollision(String),
    /// Every admissible suffix length was occupied; the file fails rather
    /// than looping further.
    PersistentCollision,
}

/// Resolves an occupied destination from the two content digests: identical
/// digests mean a duplicate to skip; differing digests mean a probe for the
/// shortest free suffixed name, and an explicit failure when every admissible
/// suffix is taken.
pub fn resolve_collision_digests(
    dt: &Timestamp,
    ext: &str,
    src_hex: &String,
    dst_hex: &String,
    occupied: &Vec<String>,
) -> (r: CollisionOutcome)
    requires
        valid_timestamp(*dt),
        forall|i: int| 0 <= i < src_hex@.len() ==> is_lower_hex_char(#[trigger] src_hex@[i]),
    ensures
        match r {
            CollisionOutcome::SkippedDuplicate => src_hex@ == dst_hex@,
            CollisionOutcome::RenamedOnCollision(name) => {
                &&& src_hex@ != dst_hex@
                &&& first_free_len(*dt, ext@, src_hex@, occupied@) matches Some(n) && name@
                    == candidate_name(*dt, ext@, src_hex@, n)
                &&& !contains_str(occupied@, name@)
            },
            CollisionOutcome::PersistentCollision => {
                &&& src_hex@ != dst_hex@
                &&& first_free_len(*dt, ext@, src_hex@, occupied@) is None
            },
        },
{
    if *src_hex == *dst_hex {
        return CollisionOutcome::SkippedDuplicate;
    }
    match probe_suffix(dt, ext, src_hex.as_str(), occupied) {
        Some(name) => CollisionOutcome::RenamedOnCollision(name),
        None => CollisionOutcome::PersistentCollision,
    }
}

/// Resolves an occupied destination from the raw bytes of the source and of
/// the file already at the destination: both are hashed, and the decision is
/// taken on the digests alone.
pub fn resolve_collision(
    dt: &Timestamp,
    ext: &str,
    src_data: &[u8],
    dst_data: &[u8],
    occupied: &Vec<String>,
) -> (r: CollisionOutcome)
    requires
        valid_timestamp(*dt),
    ensures
        match r {
            CollisionOutcome::SkippedDuplicate => blake3_hex_of(src_data@) == blake3_hex_of(
                dst_data@,
            ),
            CollisionOutcome::RenamedOnCollision(name) => {
                &&& blake3_hex_of(src_data@) != blake3_hex_of(dst_data@)
                &&& first_free_len(*dt, ext@, blake3_hex_of(src_data@), occupied@) matches Some(n)
                    && name@ == candidate_name(*dt, ext@, blake3_hex_of(src_data@), n)
                &&& !contains_str(occupied@, name@)
            },
            CollisionOutcome::PersistentCollision => {
                &&& blake3_hex_of(src_data@) != blake3_hex_of(dst_data@)
                &&& first_free_len(*dt, ext@, blake3_hex_of(src_data@), occupied@) is None
            },
        },
{
    let src_hex = blake3_hex(src_data);
    let dst_hex = blake3_hex(dst_data);
    resolve_collision_digests(dt, ext, &src_hex, &dst_hex, occupied)
}

} // verus!
