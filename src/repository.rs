//! The repository's index: one entry per stored blob, in the order of saving,
//! and where the repository lives.

use crate::paths::{blob_filename, blob_suffix, join_path, joined};
use vstd::prelude::*;

verus! {

/// One stored blob: its identifier, the name of its file, and its length in bytes.
#[derive(Debug, Clone)]
pub struct IndexEntry {
    pub id: String,
    pub filename: String,
    pub length: usize,
}

impl View for IndexEntry {
    type V = (Seq<char>, Seq<char>, usize);

    open spec fn view(&self) -> (Seq<char>, Seq<char>, usize) {
        (self.id@, self.filename@, self.length)
    }
}

/// Where a repository keeps its blobs and its index file.
#[derive(Debug, Clone)]
pub struct RepoPaths {
    pub repo_dir: String,
    pub index_file: String,
}

/// Why a repository operation did not go through.
#[derive(Debug, Clone)]
pub enum RepoError {
    /// No override was given and the platform has no data directory.
    NoDataDir,
}

/// The entry that saving a blob of `length` bytes under `id` records.
pub open spec fn entry_view(id: Seq<char>, length: usize) -> (Seq<char>, Seq<char>, usize) {
    (id, id + blob_suffix(), length)
}

/// The index as a sequence of entry views.
pub open spec fn index_view(entries: Seq<IndexEntry>) -> Seq<(Seq<char>, Seq<char>, usize)> {
    entries.map_values(|e: IndexEntry| e@)
}

/// The identifiers of an index, in index order.
pub open spec fn ids_of(index: Seq<(Seq<char>, Seq<char>, usize)>) -> Seq<Seq<char>> {
    index.map_values(|e: (Seq<char>, Seq<char>, usize)| e.0)
}

/// The index that saving blobs of lengths `lens` under identifiers `ids`, one
/// after the other, builds from an empty one.
pub open spec fn index_after(ids: Seq<Seq<char>>, lens: Seq<usize>) -> Seq<
    (Seq<char>, Seq<char>, usize),
>
    decreases ids.len(),
{
    if ids.len() == 0 || lens.len() == 0 {
        Seq::empty()
    } else {
        index_after(ids.drop_last(), lens.drop_last()).push(entry_view(ids.last(), lens.last()))
    }
}

/// Name of the repository directory under the data root.
pub open spec fn repo_subdir() -> Seq<char> {
    seq!['r', 'e', 'p', 'o']
}

/// Name of the index file in the repository directory.
pub open spec fn index_file_name() -> Seq<char> {
    seq!['i', 'n', 'd', 'e', 'x', '.', 'j', 's', 'o', 'n']
}

/// A lowercase hexadecimal digit.
pub open spec fn is_lower_hex(c: char) -> bool {
    ('0' <= c && c <= '9') || ('a' <= c && c <= 'f')
}

/// The hyphenated text of a version-4 UUID: 36 characters, `-` at 8, 13, 18
/// and 23, lowercase hex digits elsewhere, the version `4` at 14 and one of
/// `8`, `9`, `a`, `b` (the RFC variant) at 19.
pub open spec fn is_uuid_v4_text(s: Seq<char>) -> bool {
    &&& s.len() == 36
    &&& forall|i: int|
        0 <= i < 36 ==> if i == 8 || i == 13 || i == 18 || i == 23 {
            s[i] == '-'
        } else {
            is_lower_hex(#[trigger] s[i])
        }
    &&& s[14] == '4'
    &&& (s[19] == '8' || s[19] == '9' || s[19] == 'a' || s[19] == 'b')
}

/// Relies on uuid::Uuid::new_v4, which sets the version and variant bits, and
/// on its Display, which writes the lowercase hyphenated form.
#[verifier::external_body]
fn fresh_blob_id() -> (r: String)
    ensures
        is_uuid_v4_text(r@),
{
    uuid::Uuid::new_v4().to_string()
}

/// Resolves the repository: its root is `data_home` if given, else the
/// platform's data directory; the blobs go in its `repo` subdirectory and the
/// index is `repo/index.json`.
pub fn repo_paths(data_home: Option<String>, platform_data_dir: Option<String>) -> (r: Result<
    RepoPaths,
    RepoError,
>)
    ensures
        match (data_home, platform_data_dir) {
            (None, None) => r matches Err(RepoError::NoDataDir),
            _ => r is Ok,
        },
        r matches Ok(p) ==> {
            let base = match data_home {
                Some(h) => h@,
                None => platform_data_dir->Some_0@,
            };
            &&& p.repo_dir@ == joined(base, repo_subdir())
            &&& p.index_file@ == joined(p.repo_dir@, index_file_name())
        },
{
    let base = match data_home {
        Some(h) => h,
        None => match platform_data_dir {
            Some(d) => d,
            None => {
                return Err(RepoError::NoDataDir);
            },
        },
    };
    let repo_dir = join_path(base.as_str(), "repo");
    let index_file = join_path(repo_dir.as_str(), "index.json");
    proof {
        reveal_strlit("repo");
        reveal_strlit("index.json");
        assert("repo"@ =~= repo_subdir());
        assert("index.json"@ =~= index_file_name());
    }
    Ok(RepoPaths { repo_dir, index_file })
}

/// What initializing writes to the index file: the empty index `[]` when
/// there is no index file yet, nothing when there is one.
pub fn initial_index(index_exists: bool) -> (r: Option<String>)
    ensures
        index_exists ==> r is None,
        !index_exists ==> (r matches Some(t) && t@ == seq!['[', ']']),
{
    if index_exists {
        None
    } else {
        let t = String::from_str("[]");
        proof {
            reveal_strlit("[]");
            assert(t@ =~= seq!['[', ']']);
        }
        Some(t)
    }
}

/// Appends to the index the entry of a blob of `length` bytes saved under `id`.
pub fn append_entry(entries: &mut Vec<IndexEntry>, id: String, length: usize)
    ensures
        final(entries)@.len() == old(entries)@.len() + 1,
        final(entries)@.drop_last() == old(entries)@,
        final(entries)@.last()@ == entry_view(id@, length),
        index_view(final(entries)@) == index_view(old(entries)@).push(entry_view(id@, length)),
{
    let filename = blob_filename(id.as_str());
    entries.push(IndexEntry { id, filename, length });
    proof {
        assert(final(entries)@.drop_last() =~= old(entries)@);
        assert(index_view(final(entries)@) =~= index_view(old(entries)@).push(
            entry_view(id@, length),
        ));
    }
}

/// Records a blob of `length` bytes under a fresh random identifier, which it
/// returns; the blob's file is that identifier with `.blob` appended.
pub fn record_blob(entries: &mut Vec<IndexEntry>, length: usize) -> (r: String)
    ensures
        is_uuid_v4_text(r@),
        final(entries)@.len() == old(entries)@.len() + 1,
        final(entries)@.drop_last() == old(entries)@,
        final(entries)@.last()@ == entry_view(r@, length),
        index_view(final(entries)@) == index_view(old(entries)@).push(entry_view(r@, length)),
{
    let id = fresh_blob_id();
    append_entry(entries, id.clone(), length);
    id
}

/// The identifiers of the index, oldest first.
pub fn entry_ids(entries: &Vec<IndexEntry>) -> (r: Vec<String>)
    ensures
        r@.map_values(|s: String| s@) == ids_of(index_view(entries@)),
{
    let mut ids: Vec<String> = Vec::new();
    let mut i: usize = 0;
    while i < entries.len()
        invariant
            i <= entries@.len(),
            ids@.len() == i,
            forall|j: int| 0 <= j < i ==> #[trigger] ids@[j]@ == entries@[j].id@,
        decreases entries@.len() - i,
    {
        ids.push(entries[i].id.clone());
        i = i + 1;
    }
    proof {
        assert(ids@.map_values(|s: String| s@) =~= ids_of(index_view(entries@)));
    }
    ids
}

/// Saving one more blob adds its identifier at the end of the listing, and
/// nothing else changes; from an empty index the listing is that identifier alone.
pub proof fn lemma_list_after_save(
    index: Seq<(Seq<char>, Seq<char>, usize)>,
    id: Seq<char>,
    length: usize,
)
    ensures
        ids_of(index.push(entry_view(id, length))) == ids_of(index).push(id),
        ids_of(Seq::empty().push(entry_view(id, length))) == seq![id],
        index.push(entry_view(id, length)).last().2 == length,
{
    assert(ids_of(index.push(entry_view(id, length))) =~= ids_of(index).push(id));
    assert(ids_of(Seq::empty().push(entry_view(id, length))) =~= seq![id]);
}

/// Saving N blobs one after the other into an empty index gives an index of N
/// entries, the i-th with the i-th identifier, its file name and the i-th
/// payload's length; the listing is the identifiers in saving order, so it
/// holds N distinct identifiers when the saves drew distinct ones.
pub proof fn lemma_saves_in_order(ids: Seq<Seq<char>>, lens: Seq<usize>)
    requires
        ids.len() == lens.len(),
    ensures
        index_after(ids, lens).len() == ids.len(),
        forall|i: int|
            0 <= i < ids.len() ==> #[trigger] index_after(ids, lens)[i] == entry_view(ids[i], lens[i]),
        ids_of(index_after(ids, lens)) == ids,
    decreases ids.len(),
{
    if ids.len() > 0 {
        lemma_saves_in_order(ids.drop_last(), lens.drop_last());
        let prev = index_after(ids.drop_last(), lens.drop_last());
        assert forall|i: int| 0 <= i < ids.len() implies #[trigger] index_after(ids, lens)[i]
            == entry_view(ids[i], lens[i]) by {
            if i < ids.len() - 1 {
                assert(index_after(ids, lens)[i] == prev[i]);
            }
        }
    }
    assert(ids_of(index_after(ids, lens)) =~= ids);
}

} // verus!
