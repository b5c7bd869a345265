//! The file inventory shared by cleanup and stats, and the stats summary.
use crate::cleanup::date::Date;
use crate::strmap::DeepCopy;
use crate::text::copy_opt_string;
use vstd::prelude::*;

verus! {

/// One log file found by the scan.
#[derive(Debug, Clone)]
pub struct LogFileInfo {
    /// Path of the file; it identifies the file for protection and dedup checks.
    pub path: String,
    /// Size in bytes.
    pub size: u64,
    /// Whole days since the last modification.
    pub age_days: u64,
    /// Day of the last modification, when known.
    pub modified_date: Option<Date>,
}

/// The value of a [`LogFileInfo`].
pub struct LogFileInfoView {
    pub path: Seq<char>,
    pub size: u64,
    pub age_days: u64,
    pub modified_date: Option<Date>,
}

impl View for LogFileInfo {
    type V = LogFileInfoView;

    open spec fn view(&self) -> LogFileInfoView {
        LogFileInfoView {
            path: self.path@,
            size: self.size,
            age_days: self.age_days,
            modified_date: self.modified_date,
        }
    }
}

impl DeepCopy for LogFileInfo {
    fn deep_copy(&self) -> (r: LogFileInfo) {
        LogFileInfo {
            path: self.path.clone(),
            size: self.size,
            age_days: self.age_days,
            modified_date: self.modified_date,
        }
    }
}

/// The views of a list of files.
pub open spec fn files_view(files: Seq<LogFileInfo>) -> Seq<LogFileInfoView> {
    files.map_values(|f: LogFileInfo| f@)
}

/// The ages of a list of files.
pub open spec fn ages_of(files: Seq<LogFileInfoView>) -> Seq<u64> {
    files.map_values(|f: LogFileInfoView| f.age_days)
}

/// Total size of the first `k` files.
pub open spec fn total_size(files: Seq<LogFileInfoView>, k: int) -> nat
    decreases k,
{
    if k <= 0 {
        0
    } else {
        total_size(files, k - 1) + files[k - 1].size as nat
    }
}

/// Inventory of the log files under a directory.
pub struct LogStats {
    /// Number of files.
    pub total_files: usize,
    /// Sum of their sizes in bytes.
    pub total_size: u64,
    /// The oldest file (the last one found among equally old ones).
    pub oldest_file: Option<String>,
    /// The newest file (the first one found among equally new ones).
    pub newest_file: Option<String>,
    /// Every file found, in scan order.
    pub files: Vec<LogFileInfo>,
}

impl Default for LogStats {
    fn default() -> (r: LogStats)
        ensures
            r.total_files == 0,
            r.total_size == 0,
            r.oldest_file is None,
            r.newest_file is None,
            r.files@.len() == 0,
    {
        LogStats {
            total_files: 0,
            total_size: 0,
            oldest_file: None,
            newest_file: None,
            files: Vec::new(),
        }
    }
}

/// Index `i` holds a largest age and no later file is as old (`Iterator::max_by_key`).
pub open spec fn is_last_oldest(files: Seq<LogFileInfoView>, i: int) -> bool {
    &&& 0 <= i < files.len()
    &&& forall|j: int| 0 <= j < files.len() ==> files[j].age_days <= files[i].age_days
    &&& forall|j: int| i < j < files.len() ==> files[j].age_days < files[i].age_days
}

/// Index `i` holds a smallest age and no earlier file is as new (`Iterator::min_by_key`).
pub open spec fn is_first_newest(files: Seq<LogFileInfoView>, i: int) -> bool {
    &&& 0 <= i < files.len()
    &&& forall|j: int| 0 <= j < files.len() ==> files[j].age_days >= files[i].age_days
    &&& forall|j: int| 0 <= j < i ==> files[j].age_days > files[i].age_days
}

/// The summary of a scan: count, total size, oldest and newest file, and the files.
pub fn stats_of(files: Vec<LogFileInfo>) -> (r: LogStats)
    requires
        total_size(files_view(files@), files@.len() as int) <= u64::MAX,
    ensures
        r.total_files == files@.len(),
        r.total_size == total_size(files_view(files@), files@.len() as int),
        files_view(r.files@) == files_view(files@),
        files@.len() == 0 ==> r.oldest_file is None && r.newest_file is None,
        files@.len() > 0 ==> exists|i: int|
            is_last_oldest(files_view(files@), i) && r.oldest_file == Some(files@[i].path),
        files@.len() > 0 ==> exists|i: int|
            is_first_newest(files_view(files@), i) && r.newest_file == Some(files@[i].path),
{
    let ghost fv = files_view(files@);
    let n = files.len();
    let mut total: u64 = 0;
    let mut oldest: usize = 0;
    let mut newest: usize = 0;
    let mut i: usize = 0;
    while i < n
        invariant
            n == files@.len(),
            fv == files_view(files@),
            i <= n,
            total == total_size(fv, i as int),
            total_size(fv, n as int) <= u64::MAX,
            i > 0 ==> oldest < i && newest < i,
            i > 0 ==> forall|j: int| 0 <= j < i ==> fv[j].age_days <= fv[oldest as int].age_days,
            i > 0 ==> forall|j: int| oldest < j < i ==> fv[j].age_days < fv[oldest as int].age_days,
            i > 0 ==> forall|j: int| 0 <= j < i ==> fv[j].age_days >= fv[newest as int].age_days,
            i > 0 ==> forall|j: int| 0 <= j < newest ==> fv[j].age_days > fv[newest as int].age_days,
        decreases n - i,
    {
        proof {
            lemma_total_size_mono(fv, i + 1, n as int);
        }
        let age = files[i].age_days;
        total = total + files[i].size;
        if i == 0 {
            oldest = 0;
            newest = 0;
        } else {
            if age >= files[oldest].age_days {
                oldest = i;
            }
            if age < files[newest].age_days {
                newest = i;
            }
        }
        i = i + 1;
    }
    let oldest_file = if n > 0 {
        Some(files[oldest].path.clone())
    } else {
        None
    };
    let newest_file = if n > 0 {
        Some(files[newest].path.clone())
    } else {
        None
    };
    proof {
        if n > 0 {
            assert(is_last_oldest(fv, oldest as int));
            assert(is_first_newest(fv, newest as int));
        }
    }
    LogStats { total_files: n, total_size: total, oldest_file, newest_file, files }
}

/// Totals grow with the prefix.
pub proof fn lemma_total_size_mono(files: Seq<LogFileInfoView>, i: int, j: int)
    requires
        i <= j,
    ensures
        total_size(files, i) <= total_size(files, j),
    decreases j - i,
{
    if i < j {
        lemma_total_size_mono(files, i, j - 1);
    }
}

} // verus!
