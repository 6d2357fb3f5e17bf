//! The index synchronizer.
//!
//! Every package has one append-only, line-delimited index file in the
//! authoritative commit-addressed source. The synchronizer copies changed
//! files into the content-store replica under a sharded key derived from the
//! canonicalized package name, skips files that no longer exist at the new
//! head with a visible warning, and reports the head commit to use as the
//! next incremental checkpoint.

use vstd::prelude::*;

use crate::store::BlobStore;
use crate::strutil::{canon_crate_name, canon_seq};

verus! {

/// Arguments of an index upload run.
pub struct Opts {
    /// Incremental commit. Any changed files made after this commit will be
    /// uploaded; absent, every file is.
    pub incremental_commit: Option<String>,
}

/// The sharded directory for a canonicalized package name: two levels of two
/// characters each, with reduced depth for names shorter than four
/// characters (an empty name maps to an empty directory).
pub open spec fn spec_shard_dir(canon: Seq<char>) -> Seq<char> {
    if canon.len() == 0 {
        Seq::empty()
    } else if canon.len() == 1 {
        "1"@
    } else if canon.len() == 2 {
        "2"@
    } else if canon.len() == 3 {
        "3/"@ + canon.take(1)
    } else {
        canon.take(2) + "/"@ + canon.subrange(2, 4)
    }
}

/// Builds the sharded directory for a canonicalized name.
pub fn shard_dir(canon: &str) -> (r: String)
    ensures
        r@ == spec_shard_dir(canon@),
{
    let n = canon.unicode_len();
    if n == 0 {
        String::new()
    } else if n == 1 {
        String::from_str("1")
    } else if n == 2 {
        String::from_str("2")
    } else if n == 3 {
        let mut s = String::from_str("3/");
        s.append(canon.substring_char(0, 1));
        s
    } else {
        let mut s = String::from_str(canon.substring_char(0, 2));
        s.append("/");
        s.append(canon.substring_char(2, 4));
        s
    }
}

/// The content-store key of a package's index file.
pub open spec fn spec_index_key(name: Seq<char>) -> Seq<char> {
    "index/"@ + spec_shard_dir(canon_seq(name)) + "/"@ + name
}

/// Builds the content-store key of a package's index file.
pub fn index_key(name: &str) -> (r: String)
    ensures
        r@ == spec_index_key(name@),
{
    let canon = canon_crate_name(name);
    let mut s = String::from_str("index/");
    s.append(shard_dir(canon.as_str()).as_str());
    s.append("/");
    s.append(name);
    s
}

/// The content-store key of a version's raw archive.
pub open spec fn spec_archive_key(name: Seq<char>, vers: Seq<char>) -> Seq<char> {
    name + "/"@ + name + "-"@ + vers + ".archive"@
}

/// Builds the content-store key of a version's raw archive.
pub fn archive_key(name: &str, vers: &str) -> (r: String)
    ensures
        r@ == spec_archive_key(name@, vers@),
{
    let mut s = String::from_str(name);
    s.append("/");
    s.append(name);
    s.append("-");
    s.append(vers);
    s.append(".archive");
    s
}

/// One file the authoritative source reports as changed since the
/// checkpoint: the package name, and the file's full contents at the new
/// head — or nothing, when the file no longer exists there.
pub struct ChangedFile {
    pub crate_name: String,
    pub contents: Option<Vec<u8>>,
}

#[verifier::ext_equal]
pub ghost struct ChangedFileView {
    pub crate_name: Seq<char>,
    pub contents: Option<Seq<u8>>,
}

impl View for ChangedFile {
    type V = ChangedFileView;

    open spec fn view(&self) -> ChangedFileView {
        ChangedFileView {
            crate_name: self.crate_name@,
            contents: match self.contents {
                Some(ref b) => Some(b@),
                None => None,
            },
        }
    }
}

/// The store contents after uploading the changed files in order: each
/// existing file overwrites its index object in full; missing files change
/// nothing.
pub open spec fn spec_sync_map(
    m: Map<Seq<char>, Seq<u8>>,
    files: Seq<ChangedFileView>,
) -> Map<Seq<char>, Seq<u8>>
    decreases files.len(),
{
    if files.len() == 0 {
        m
    } else {
        let next = match files[0].contents {
            Some(b) => m.insert(spec_index_key(files[0].crate_name), b),
            None => m,
        };
        spec_sync_map(next, files.drop_first())
    }
}

/// The names of the files a run skips: those gone at the new head.
pub open spec fn spec_skipped(files: Seq<ChangedFileView>) -> Seq<Seq<char>> {
    files.filter(|f: ChangedFileView| f.contents is None).map_values(
        |f: ChangedFileView| f.crate_name,
    )
}

/// What an index synchronization run reports.
pub struct SyncReport {
    /// The head commit, to be used as the next incremental checkpoint.
    pub checkpoint: String,
    /// The files skipped because they no longer exist at the head.
    pub skipped: Vec<String>,
}

/// Runs one synchronization pass: uploads the full current contents of every
/// changed file to its sharded index key, skips files gone at the head with
/// a visible warning, and reports the head commit as the next checkpoint. A
/// full run is the same pass handed every file that exists.
pub fn sync_index_files(store: &mut BlobStore, files: &Vec<ChangedFile>, head: &str) -> (r:
    SyncReport)
    requires
        old(store).wf(),
    ensures
        final(store).wf(),
        final(store)@ == spec_sync_map(
            old(store)@,
            files@.map_values(|f: ChangedFile| f@),
        ),
        r.checkpoint@ == head@,
        crate::validate::seq_views(r.skipped@) == spec_skipped(
            files@.map_values(|f: ChangedFile| f@),
        ),
{
    let ghost fs = files@.map_values(|f: ChangedFile| f@);
    let n = files.len();
    let mut skipped: Vec<String> = Vec::new();
    let mut i: usize = 0;
    assert(fs.skip(0) =~= fs);
    assert(fs.take(0) =~= Seq::<ChangedFileView>::empty());
    while i < n
        invariant
            store.wf(),
            fs == files@.map_values(|f: ChangedFile| f@),
            n == files@.len(),
            i <= n,
            spec_sync_map(old(store)@, fs) == spec_sync_map(store@, fs.skip(i as int)),
            crate::validate::seq_views(skipped@) =~= spec_skipped(fs.take(i as int)),
        decreases n - i,
    {
        let f = &files[i];
        assert(fs[i as int] == f@);
        assert(fs.skip(i as int)[0] == fs[i as int]);
        proof {
            reveal(Seq::filter);
            assert(fs.take(i + 1).drop_last() =~= fs.take(i as int));
            assert(fs.skip(i as int).drop_first() =~= fs.skip(i + 1));
        }
        let ghost skipped_pre = crate::validate::seq_views(skipped@);
        match &f.contents {
            Some(contents) => {
                store.put(index_key(f.crate_name.as_str()), contents.clone());
                proof {
                    assert(fs.take(i + 1).filter(|g: ChangedFileView| g.contents is None)
                        =~= fs.take(i as int).filter(|g: ChangedFileView| g.contents is None));
                }
            },
            None => {
                skipped.push(f.crate_name.clone());
                proof {
                    assert(fs.take(i + 1).filter(|g: ChangedFileView| g.contents is None)
                        =~= fs.take(i as int).filter(|g: ChangedFileView| g.contents is None)
                        + seq![fs[i as int]]);
                    assert(crate::validate::seq_views(skipped@) =~= skipped_pre + seq![
                        f@.crate_name,
                    ]);
                    assert(spec_skipped(fs.take(i + 1)) =~= spec_skipped(fs.take(i as int))
                        + seq![fs[i as int].crate_name]);
                }
            },
        }
        i = i + 1;
    }
    assert(fs.skip(n as int) =~= Seq::<ChangedFileView>::empty());
    assert(fs.take(n as int) =~= fs);
    SyncReport { checkpoint: String::from_str(head), skipped }
}

/// An incremental run with no changed files uploads nothing and reports the
/// head itself as the next checkpoint: the replica is already in lockstep.
pub proof fn lemma_sync_without_changes(m: Map<Seq<char>, Seq<u8>>, files: Seq<ChangedFileView>)
    requires
        files.len() == 0,
    ensures
        spec_sync_map(m, files) == m,
        spec_skipped(files).len() == 0,
{
    reveal(Seq::filter);
    assert(spec_skipped(files) =~= Seq::<Seq<char>>::empty());
}

} // verus!
