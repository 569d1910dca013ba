//! Archives as untrusted byte strings. The zip crate does the decoding,
//! behind trusted wrappers whose results are functions of the bytes alone;
//! which entries to take, in what order, and whether their names are safe
//! is decided and verified here.

use vstd::prelude::*;
use vstd::string::StrSliceExecFns;

use crate::error::LaunchError;
use crate::pathsafe::{check_path, spec_path_ok};
use crate::seqops::{dedup_by, keys_of, lemma_dedup_by_keys, lemma_dedup_by_push,
    lemma_keys_of_contains};
use crate::strutil::{str_eq, str_starts_with, strs};

verus! {

/// Whether the bytes parse as a zip archive.
pub uninterp spec fn zip_ok(data: Seq<u8>) -> bool;

/// The entry names of the archive, in entry-index order.
pub uninterp spec fn zip_entry_names(data: Seq<u8>) -> Seq<Seq<char>>;

/// The decompressed contents of the archive's `i`-th entry.
pub uninterp spec fn zip_entry_data(data: Seq<u8>, i: int) -> Seq<u8>;

/// Whether the `i`-th entry can be opened without a password: its local
/// header parses, its compression method is supported, and it demands no
/// password — a function of the bytes.
pub uninterp spec fn zip_entry_named(data: Seq<u8>, i: int) -> bool;

/// Whether the `i`-th entry's contents decompress fully — a function of the
/// bytes.
pub uninterp spec fn zip_entry_readable(data: Seq<u8>, i: int) -> bool;

/// Every entry of the archive can be opened: the archive parses and each
/// entry's header is readable. Listing such an archive cannot fail.
pub open spec fn spec_archive_listable(data: Seq<u8>) -> bool {
    zip_ok(data) && forall|i: int|
        0 <= i < zip_entry_names(data).len() ==> zip_entry_named(data, i)
}

/// Every entry of the archive can be opened and fully decompressed.
/// Extracting from such an archive cannot fail with a read error.
pub open spec fn spec_archive_readable(data: Seq<u8>) -> bool {
    zip_ok(data) && forall|i: int|
        0 <= i < zip_entry_names(data).len() ==> zip_entry_named(data, i) && zip_entry_readable(
            data,
            i,
        )
}

/// Relies on `zip::ZipArchive::new` over in-memory bytes: whether the bytes
/// parse, and the entry count, depend on the bytes alone.
#[verifier::external_body]
fn zip_entry_count(data: &Vec<u8>) -> (r: Option<usize>)
    ensures
        r is Some <==> zip_ok(data@),
        (match r {
            Option::Some(n) => n == zip_entry_names(data@).len(),
            Option::None => true,
        }),
{
    match zip::ZipArchive::new(std::io::Cursor::new(data.as_slice())) {
        Ok(a) => Some(a.len()),
        Err(_) => None,
    }
}

/// Relies on `zip::ZipArchive::by_index_decrypt` with an empty password:
/// whether the `i`-th entry opens, and its name, are functions of the
/// archive bytes. Unlike `by_index`, this entry point returns the
/// password-demanded case as a value instead of unwrapping it, so no input
/// can make it panic; reads from the in-memory cursor cannot fail as I/O.
#[verifier::external_body]
fn zip_entry_name(data: &Vec<u8>, i: usize) -> (r: Option<String>)
    ensures
        r is Some <==> (zip_ok(data@) && i < zip_entry_names(data@).len() && zip_entry_named(data@, i as int)),
        (match r {
            Option::Some(name) => name@ == zip_entry_names(data@)[i as int],
            Option::None => true,
        }),
{
    let mut archive = match zip::ZipArchive::new(std::io::Cursor::new(data.as_slice())) {
        Ok(a) => a,
        Err(_) => return None,
    };
    let name = match archive.by_index_decrypt(i, &[]) {
        Ok(Ok(entry)) => entry.name().to_owned(),
        Ok(Err(_)) => return None,
        Err(_) => return None,
    };
    Some(name)
}

/// Relies on `zip::ZipArchive::by_index_decrypt` (empty password, so a
/// password-demanding entry comes back as a value, never an unwrap) and
/// `Read::read_to_end`: whether the `i`-th entry decompresses, and its
/// contents, are functions of the archive bytes.
#[verifier::external_body]
fn zip_entry_bytes(data: &Vec<u8>, i: usize) -> (r: Option<Vec<u8>>)
    ensures
        r is Some <==> (zip_ok(data@) && i < zip_entry_names(data@).len() && zip_entry_readable(data@, i as int)),
        (match r {
            Option::Some(b) => b@ == zip_entry_data(data@, i as int),
            Option::None => true,
        }),
{
    let mut archive = match zip::ZipArchive::new(std::io::Cursor::new(data.as_slice())) {
        Ok(a) => a,
        Err(_) => return None,
    };
    let mut entry = match archive.by_index_decrypt(i, &[]) {
        Ok(Ok(e)) => e,
        Ok(Err(_)) => return None,
        Err(_) => return None,
    };
    let mut out = Vec::new();
    match std::io::Read::read_to_end(&mut entry, &mut out) {
        Ok(_) => Some(out),
        Err(_) => None,
    }
}

/// A directory entry, by the archive convention: its name ends in a
/// separator.
pub open spec fn spec_is_dir_name(name: Seq<char>) -> bool {
    name.len() > 0 && (name.last() == '/' || name.last() == '\\')
}

fn is_dir_name(name: &str) -> (r: bool)
    ensures
        r == spec_is_dir_name(name@),
{
    let n = name.unicode_len();
    if n == 0 {
        false
    } else {
        let c = name.get_char(n - 1);
        c == '/' || c == '\\'
    }
}

/// Whether the name starts with any of the exclusion prefixes.
pub open spec fn spec_excluded(name: Seq<char>, exclusions: Seq<Seq<char>>) -> bool {
    exists|k: int| 0 <= k < exclusions.len() && (#[trigger] exclusions[k]).is_prefix_of(name)
}

fn is_excluded(name: &str, exclusions: &Vec<String>) -> (r: bool)
    ensures
        r == spec_excluded(name@, strs(exclusions@)),
{
    let n = exclusions.len();
    let mut i: usize = 0;
    while i < n
        invariant
            n == exclusions@.len(),
            i <= n,
            forall|k: int| 0 <= k < i ==> !(#[trigger] strs(exclusions@)[k]).is_prefix_of(name@),
        decreases n - i,
    {
        if str_starts_with(name, exclusions[i].as_str()) {
            assert(strs(exclusions@)[i as int].is_prefix_of(name@));
            return true;
        }
        i = i + 1;
    }
    false
}

/// Which entries of a native archive are written out, walking entries in
/// order: directories and excluded names are skipped, the first unsafe name
/// aborts with that name, and every other file entry is extracted.
pub open spec fn spec_extract_indices(
    names: Seq<Seq<char>>,
    exclusions: Seq<Seq<char>>,
    i: int,
) -> Result<Seq<int>, Seq<char>>
    decreases names.len() - i,
{
    if i < 0 || i >= names.len() {
        Result::Ok(Seq::<int>::empty())
    } else {
        let name = names[i];
        if spec_is_dir_name(name) || spec_excluded(name, exclusions) {
            spec_extract_indices(names, exclusions, i + 1)
        } else if !spec_path_ok(name) {
            Result::Err(name)
        } else {
            match spec_extract_indices(names, exclusions, i + 1) {
                Result::Ok(rest) => Result::Ok(seq![i] + rest),
                Result::Err(e) => Result::Err(e),
            }
        }
    }
}

fn extract_native_from(archive: &Vec<u8>, exclusions: &Vec<String>, i: usize, count: usize) -> (r:
    Result<Vec<(String, Vec<u8>)>, LaunchError>)
    requires
        zip_ok(archive@),
        count == zip_entry_names(archive@).len(),
        i <= count,
    ensures
        (match r {
            Result::Ok(list) => (match spec_extract_indices(
                zip_entry_names(archive@),
                strs(exclusions@),
                i as int,
            ) {
                Result::Ok(idx) => list@.len() == idx.len() && (forall|k: int|
                    0 <= k < idx.len() ==> (#[trigger] list@[k]).0@ == zip_entry_names(archive@)[idx[k]]
                        && list@[k].1@ == zip_entry_data(archive@, idx[k])),
                Result::Err(_) => false,
            }),
            Result::Err(e) => (match e {
                LaunchError::InvalidFilename { name } => spec_extract_indices(
                    zip_entry_names(archive@),
                    strs(exclusions@),
                    i as int,
                ) == Result::Err::<Seq<int>, Seq<char>>(name@),
                LaunchError::IoError { .. } => !spec_archive_readable(archive@),
                _ => false,
            }),
        }),
    decreases count - i,
{
    if i == count {
        let out: Vec<(String, Vec<u8>)> = Vec::new();
        return Ok(out);
    }
    let name = match zip_entry_name(archive, i) {
        Option::Some(n) => n,
        Option::None => {
            assert(!spec_archive_readable(archive@)) by {
                assert(!zip_entry_named(archive@, i as int));
            };
            return Err(LaunchError::IoError { message: "unreadable archive entry".to_owned() });
        },
    };
    if is_dir_name(name.as_str()) || is_excluded(name.as_str(), exclusions) {
        extract_native_from(archive, exclusions, i + 1, count)
    } else if !check_path(name.as_str()) {
        Err(LaunchError::InvalidFilename { name })
    } else {
        let data = match zip_entry_bytes(archive, i) {
            Option::Some(d) => d,
            Option::None => {
                assert(!spec_archive_readable(archive@)) by {
                    assert(!zip_entry_readable(archive@, i as int));
                };
                return Err(LaunchError::IoError { message: "unreadable archive entry".to_owned() });
            },
        };
        match extract_native_from(archive, exclusions, i + 1, count) {
            Err(e) => Err(e),
            Ok(mut rest) => {
                let ghost before = rest@;
                rest.insert(0, (name, data));
                proof {
                    let idx = spec_extract_indices(
                        zip_entry_names(archive@),
                        strs(exclusions@),
                        i as int,
                    );
                    let rest_idx = spec_extract_indices(
                        zip_entry_names(archive@),
                        strs(exclusions@),
                        i as int + 1,
                    );
                    assert(idx matches Ok(ii) && ii =~= seq![i as int] + rest_idx->Ok_0);
                }
                Ok(rest)
            },
        }
    }
}

/// Walks a native archive and hands out what must be written: each kept
/// entry's safe relative name and its decompressed contents, in entry
/// order. Directories and entries under an excluded prefix are skipped; an
/// entry whose name fails the path-safety rule aborts the extraction with
/// `InvalidFilename`. On a fully readable archive a read error cannot
/// happen: the result is then the extraction list or `InvalidFilename`,
/// exactly as the walk determines.
pub fn extract_native_entries(archive: &Vec<u8>, exclusions: &Vec<String>) -> (r: Result<
    Vec<(String, Vec<u8>)>,
    LaunchError,
>)
    ensures
        (match r {
            Result::Ok(list) => zip_ok(archive@) && (match spec_extract_indices(
                zip_entry_names(archive@),
                strs(exclusions@),
                0,
            ) {
                Result::Ok(idx) => list@.len() == idx.len() && (forall|k: int|
                    0 <= k < idx.len() ==> (#[trigger] list@[k]).0@ == zip_entry_names(archive@)[idx[k]]
                        && list@[k].1@ == zip_entry_data(archive@, idx[k])),
                Result::Err(_) => false,
            }),
            Result::Err(e) => (match e {
                LaunchError::InvalidFilename { name } => spec_extract_indices(
                    zip_entry_names(archive@),
                    strs(exclusions@),
                    0,
                ) == Result::Err::<Seq<int>, Seq<char>>(name@),
                LaunchError::IoError { .. } => !spec_archive_readable(archive@),
                _ => false,
            }),
        }),
{
    let count = match zip_entry_count(archive) {
        Option::Some(c) => c,
        Option::None => {
            assert(!spec_archive_readable(archive@));
            return Err(LaunchError::IoError { message: "unreadable archive".to_owned() });
        },
    };
    extract_native_from(archive, exclusions, 0, count)
}

/// The views of a list of archives.
pub open spec fn bytes_views(archs: Seq<Vec<u8>>) -> Seq<Seq<u8>> {
    archs.map_values(|a: Vec<u8>| a@)
}

/// The entries of archive `j`, as (archive, entry, name) triples in entry
/// order.
pub open spec fn arch_triples(archs: Seq<Seq<u8>>, j: int) -> Seq<(int, int, Seq<char>)> {
    Seq::new(
        zip_entry_names(archs[j]).len(),
        |i: int| (j, i, zip_entry_names(archs[j])[i]),
    )
}

/// All entries of the first `j` archives, in archive-major order.
pub open spec fn jar_stream_upto(archs: Seq<Seq<u8>>, j: int) -> Seq<(int, int, Seq<char>)>
    decreases j,
{
    if j <= 0 {
        Seq::<(int, int, Seq<char>)>::empty()
    } else {
        jar_stream_upto(archs, j - 1) + arch_triples(archs, j - 1)
    }
}

/// The keying of a merge-plan entry: its name.
pub open spec fn jar_key() -> spec_fn((int, int, Seq<char>)) -> Seq<char> {
    |t: (int, int, Seq<char>)| t.2
}

/// The merge plan over an ordered list of jarmod archives: every entry
/// whose name has not appeared in any earlier archive (or earlier in the
/// same archive), in order. Earlier jarmods win name collisions.
pub open spec fn spec_jar_merge_plan(archs: Seq<Seq<u8>>) -> Seq<(int, int, Seq<char>)> {
    dedup_by(jar_stream_upto(archs, archs.len() as int), jar_key(), Set::empty())
}

/// The view of an executable merge-plan entry.
pub open spec fn plan_view() -> spec_fn((usize, usize, String)) -> (int, int, Seq<char>) {
    |t: (usize, usize, String)| (t.0 as int, t.1 as int, t.2@)
}

fn plan_contains_name(plan: &Vec<(usize, usize, String)>, name: &str) -> (r: bool)
    ensures
        r == keys_of(plan@.map_values(plan_view()), jar_key()).contains(name@),
{
    let n = plan.len();
    let mut i: usize = 0;
    let mut found = false;
    while i < n
        invariant
            n == plan@.len(),
            i <= n,
            found == exists|l: int| 0 <= l < i && plan@[l].2@ == name@,
        decreases n - i,
    {
        if str_eq(plan[i].2.as_str(), name) {
            found = true;
        }
        i = i + 1;
    }
    proof {
        let f = jar_key();
        let g = plan_view();
        lemma_keys_of_contains(plan@.map_values(plan_view()), jar_key(), name@);
        if found {
            let l = choose|l: int| 0 <= l < plan@.len() && plan@[l].2@ == name@;
            assert(f(plan@.map_values(g)[l]) == name@);
        }
        if keys_of(plan@.map_values(plan_view()), jar_key()).contains(name@) {
            let l = choose|l: int|
                0 <= l < plan@.map_values(g).len() && f(plan@.map_values(g)[l]) == name@;
            assert(plan@[l].2@ == name@);
        }
    }
    found
}

/// Plans the recombination of jarmods into one runtime jar: walks the
/// archives in merge order and keeps, for every entry name, only its first
/// occurrence — earlier jarmods' files win collisions, and files unique to
/// later jarmods survive. Entries are copied raw, so the plan names the
/// archive and entry index of every copy. When every archive is listable
/// the plan is owed: failure happens only on an archive that cannot be
/// listed.
pub fn plan_jar_merge(archives: &Vec<Vec<u8>>) -> (r: Result<
    Vec<(usize, usize, String)>,
    LaunchError,
>)
    ensures
        (match r {
            Result::Ok(plan) => plan@.map_values(plan_view()) == spec_jar_merge_plan(
                bytes_views(archives@),
            ),
            Result::Err(e) => e matches LaunchError::IoError { .. } && exists|j: int|
                0 <= j < archives@.len() && !spec_archive_listable(
                    #[trigger] bytes_views(archives@)[j],
                ),
        }),
{
    let ghost archs = bytes_views(archives@);
    let mut plan: Vec<(usize, usize, String)> = Vec::new();
    let n = archives.len();
    let mut j: usize = 0;
    while j < n
        invariant
            n == archives@.len(),
            j <= n,
            archs == bytes_views(archives@),
            plan@.map_values(plan_view()) == dedup_by(
                jar_stream_upto(archs, j as int),
                jar_key(),
                Set::empty(),
            ),
        decreases n - j,
    {
        let count = match zip_entry_count(&archives[j]) {
            Option::Some(c) => c,
            Option::None => {
                assert(!spec_archive_listable(bytes_views(archives@)[j as int])) by {
                    assert(bytes_views(archives@)[j as int] == archives@[j as int]@);
                };
                return Err(LaunchError::IoError { message: "unreadable archive".to_owned() });
            },
        };
        assert(archs[j as int] == archives@[j as int]@);
        let mut i: usize = 0;
        while i < count
            invariant
                n == archives@.len(),
                j < n,
                archs == bytes_views(archives@),
                zip_ok(archives@[j as int]@),
                count == zip_entry_names(archs[j as int]).len(),
                i <= count,
                plan@.map_values(plan_view()) == dedup_by(
                    jar_stream_upto(archs, j as int) + arch_triples(archs, j as int).take(i as int),
                    jar_key(),
                    Set::empty(),
                ),
            decreases count - i,
        {
            let ghost stream = jar_stream_upto(archs, j as int) + arch_triples(
                archs,
                j as int,
            ).take(i as int);
            assert(archs[j as int] == archives@[j as int]@);
            let name = match zip_entry_name(&archives[j], i) {
                Option::Some(nm) => nm,
                Option::None => {
                    assert(!spec_archive_listable(bytes_views(archives@)[j as int])) by {
                        assert(bytes_views(archives@)[j as int] == archives@[j as int]@);
                        assert(!zip_entry_named(archives@[j as int]@, i as int));
                    };
                    return Err(
                        LaunchError::IoError { message: "unreadable archive entry".to_owned() },
                    );
                },
            };
            let ghost triple = (j as int, i as int, name@);
            let present = plan_contains_name(&plan, name.as_str());
            proof {
                lemma_dedup_by_keys(stream, jar_key(), Set::empty());
                lemma_dedup_by_push(stream, triple, jar_key(), Set::empty());
                assert(Set::<Seq<char>>::empty().union(keys_of(stream, jar_key())) =~= keys_of(
                    stream,
                    jar_key(),
                ));
                assert(stream.push(triple) =~= jar_stream_upto(archs, j as int) + arch_triples(
                    archs,
                    j as int,
                ).take(i as int + 1)) by {
                    assert(arch_triples(archs, j as int).take(i as int + 1) =~= arch_triples(
                        archs,
                        j as int,
                    ).take(i as int).push(triple));
                };
            }
            if !present {
                let ghost before = plan@;
                plan.push((j, i, name));
                assert(plan@.map_values(plan_view()) =~= before.map_values(plan_view()).push(
                    triple,
                ));
            }
            i = i + 1;
        }
        proof {
            assert(arch_triples(archs, j as int).take(count as int) =~= arch_triples(
                archs,
                j as int,
            ));
            assert(jar_stream_upto(archs, j as int + 1) == jar_stream_upto(archs, j as int)
                + arch_triples(archs, j as int));
        }
        j = j + 1;
    }
    Ok(plan)
}

} // verus!
