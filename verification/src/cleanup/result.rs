//! What a cleanup run did, or in a dry run would do.
use crate::text::svec_view;
use vstd::prelude::*;

verus! {

/// Outcome of a cleanup run, split into what was done and what a dry run would do.
#[derive(Debug)]
pub struct CleanupResult {
    /// Files removed.
    pub deleted: Vec<String>,
    /// Bytes freed by removals.
    pub freed: u64,
    /// Files a dry run would remove.
    pub would_delete: Vec<String>,
    /// Bytes a dry run would free.
    pub would_free: u64,
    /// Files compressed.
    pub compressed: Vec<String>,
    /// Bytes saved by compression.
    pub compressed_saved: u64,
    /// Files a dry run would compress.
    pub would_compress: Vec<String>,
    /// Estimated bytes a dry run's compression would save (half of each file).
    pub would_compress_save: u64,
    /// Files that could not be compressed, with the reason.
    pub failed: Vec<(String, String)>,
}

/// The value of a [`CleanupResult`].
pub struct CleanupResultView {
    pub deleted: Seq<Seq<char>>,
    pub freed: nat,
    pub would_delete: Seq<Seq<char>>,
    pub would_free: nat,
    pub compressed: Seq<Seq<char>>,
    pub compressed_saved: nat,
    pub would_compress: Seq<Seq<char>>,
    pub would_compress_save: nat,
    pub failed: Seq<(Seq<char>, Seq<char>)>,
}

/// The views of a list of (path, reason) pairs.
pub open spec fn pairs_view(v: Seq<(String, String)>) -> Seq<(Seq<char>, Seq<char>)> {
    v.map_values(|p: (String, String)| (p.0@, p.1@))
}

impl View for CleanupResult {
    type V = CleanupResultView;

    open spec fn view(&self) -> CleanupResultView {
        CleanupResultView {
            deleted: svec_view(self.deleted@),
            freed: self.freed as nat,
            would_delete: svec_view(self.would_delete@),
            would_free: self.would_free as nat,
            compressed: svec_view(self.compressed@),
            compressed_saved: self.compressed_saved as nat,
            would_compress: svec_view(self.would_compress@),
            would_compress_save: self.would_compress_save as nat,
            failed: pairs_view(self.failed@),
        }
    }
}

/// A result in which nothing happened.
pub open spec fn empty_result() -> CleanupResultView {
    CleanupResultView {
        deleted: Seq::empty(),
        freed: 0,
        would_delete: Seq::empty(),
        would_free: 0,
        compressed: Seq::empty(),
        compressed_saved: 0,
        would_compress: Seq::empty(),
        would_compress_save: 0,
        failed: Seq::empty(),
    }
}

impl Default for CleanupResult {
    fn default() -> (r: CleanupResult)
        ensures
            r@ == empty_result(),
    {
        let r = CleanupResult {
            deleted: Vec::new(),
            freed: 0,
            would_delete: Vec::new(),
            would_free: 0,
            compressed: Vec::new(),
            compressed_saved: 0,
            would_compress: Vec::new(),
            would_compress_save: 0,
            failed: Vec::new(),
        };
        assert(r@ == empty_result()) by {
            assert(svec_view(r.deleted@) =~= Seq::empty());
            assert(svec_view(r.would_delete@) =~= Seq::empty());
            assert(svec_view(r.compressed@) =~= Seq::empty());
            assert(svec_view(r.would_compress@) =~= Seq::empty());
            assert(pairs_view(r.failed@) =~= Seq::empty());
        }
        r
    }
}

impl CleanupResult {
    /// Files removed, or in a dry run the files that would be.
    pub fn count(&self) -> (r: usize)
        ensures
            r == if self.deleted@.len() == 0 {
                self.would_delete@.len()
            } else {
                self.deleted@.len()
            },
    {
        if self.deleted.len() == 0 {
            self.would_delete.len()
        } else {
            self.deleted.len()
        }
    }

    /// Bytes freed, or in a dry run the bytes that would be.
    pub fn bytes(&self) -> (r: u64)
        ensures
            r == if self.freed == 0 {
                self.would_free
            } else {
                self.freed
            },
    {
        if self.freed == 0 {
            self.would_free
        } else {
            self.freed
        }
    }

    /// Files compressed, or in a dry run the files that would be.
    pub fn compressed_count(&self) -> (r: usize)
        ensures
            r == if self.compressed@.len() == 0 {
                self.would_compress@.len()
            } else {
                self.compressed@.len()
            },
    {
        if self.compressed.len() == 0 {
            self.would_compress.len()
        } else {
            self.compressed.len()
        }
    }

    /// Bytes saved by compression, or in a dry run the estimate.
    pub fn compressed_bytes(&self) -> (r: u64)
        ensures
            r == if self.compressed_saved == 0 {
                self.would_compress_save
            } else {
                self.compressed_saved
            },
    {
        if self.compressed_saved == 0 {
            self.would_compress_save
        } else {
            self.compressed_saved
        }
    }
}

} // verus!
