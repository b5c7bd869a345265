//! Retention policy: every filter is off by default, so nothing is deleted
//! without an explicit choice.
use crate::cleanup::date::Date;
use crate::text::opt_view;
use vstd::prelude::*;

verus! {

/// Which files a cleanup run processes and how.
#[derive(Debug, Clone)]
pub struct CleanupOptions {
    /// Files older than this many days are processed.
    pub max_age_days: Option<u32>,
    /// Total size the remaining files are brought under.
    pub max_total_size: Option<u64>,
    /// Only files below a directory with this name are considered.
    pub app_filter: Option<String>,
    /// Every file is processed.
    pub delete_all: bool,
    /// Nothing is changed; the result says what would be.
    pub dry_run: bool,
    /// Files last modified before this day are processed.
    pub before_date: Option<Date>,
    /// Files last modified after this day are processed.
    pub after_date: Option<Date>,
    /// The newest this many files are never processed.
    pub keep_last: Option<usize>,
    /// Processed files are gzip-compressed instead of deleted.
    pub compress: bool,
}

/// The value of a [`CleanupOptions`].
pub struct CleanupOptionsView {
    pub max_age_days: Option<u32>,
    pub max_total_size: Option<u64>,
    pub app_filter: Option<Seq<char>>,
    pub delete_all: bool,
    pub dry_run: bool,
    pub before_date: Option<Date>,
    pub after_date: Option<Date>,
    pub keep_last: Option<usize>,
    pub compress: bool,
}

impl View for CleanupOptions {
    type V = CleanupOptionsView;

    open spec fn view(&self) -> CleanupOptionsView {
        CleanupOptionsView {
            max_age_days: self.max_age_days,
            max_total_size: self.max_total_size,
            app_filter: opt_view(self.app_filter),
            delete_all: self.delete_all,
            dry_run: self.dry_run,
            before_date: self.before_date,
            after_date: self.after_date,
            keep_last: self.keep_last,
            compress: self.compress,
        }
    }
}

/// The options with every filter off.
pub open spec fn no_filters() -> CleanupOptionsView {
    CleanupOptionsView {
        max_age_days: None,
        max_total_size: None,
        app_filter: None,
        delete_all: false,
        dry_run: false,
        before_date: None,
        after_date: None,
        keep_last: None,
        compress: false,
    }
}

impl Default for CleanupOptions {
    fn default() -> (r: CleanupOptions)
        ensures
            r@ == no_filters(),
    {
        CleanupOptions {
            max_age_days: None,
            max_total_size: None,
            app_filter: None,
            delete_all: false,
            dry_run: false,
            before_date: None,
            after_date: None,
            keep_last: None,
            compress: false,
        }
    }
}

impl CleanupOptions {
    /// Options with every filter off.
    pub fn new() -> (r: CleanupOptions)
        ensures
            r@ == no_filters(),
    {
        CleanupOptions::default()
    }

    /// Processes files older than `days` days.
    pub fn max_age_days(self, days: u32) -> (r: CleanupOptions)
        ensures
            r@ == (CleanupOptionsView { max_age_days: Some(days), ..self@ }),
    {
        let mut s = self;
        s.max_age_days = Some(days);
        s
    }

    /// Brings the remaining files under `bytes` in total.
    pub fn max_total_size_bytes(self, bytes: u64) -> (r: CleanupOptions)
        ensures
            r@ == (CleanupOptionsView { max_total_size: Some(bytes), ..self@ }),
    {
        let mut s = self;
        s.max_total_size = Some(bytes);
        s
    }

    /// Only considers files below a directory named `app`.
    pub fn app_filter(self, app: String) -> (r: CleanupOptions)
        ensures
            r@ == (CleanupOptionsView { app_filter: Some(app@), ..self@ }),
    {
        let mut s = self;
        s.app_filter = Some(app);
        s
    }

    /// Processes every file.
    pub fn delete_all(self, delete: bool) -> (r: CleanupOptions)
        ensures
            r@ == (CleanupOptionsView { delete_all: delete, ..self@ }),
    {
        let mut s = self;
        s.delete_all = delete;
        s
    }

    /// Changes nothing and reports what would be done.
    pub fn dry_run(self, dry_run: bool) -> (r: CleanupOptions)
        ensures
            r@ == (CleanupOptionsView { dry_run: dry_run, ..self@ }),
    {
        let mut s = self;
        s.dry_run = dry_run;
        s
    }

    /// Processes files last modified before `date`.
    pub fn before_date(self, date: Date) -> (r: CleanupOptions)
        ensures
            r@ == (CleanupOptionsView { before_date: Some(date), ..self@ }),
    {
        let mut s = self;
        s.before_date = Some(date);
        s
    }

    /// Processes files last modified after `date`.
    pub fn after_date(self, date: Date) -> (r: CleanupOptions)
        ensures
            r@ == (CleanupOptionsView { after_date: Some(date), ..self@ }),
    {
        let mut s = self;
        s.after_date = Some(date);
        s
    }

    /// Never processes the `n` newest files.
    pub fn keep_last(self, n: usize) -> (r: CleanupOptions)
        ensures
            r@ == (CleanupOptionsView { keep_last: Some(n), ..self@ }),
    {
        let mut s = self;
        s.keep_last = Some(n);
        s
    }

    /// Compresses processed files instead of deleting them.
    pub fn compress(self, compress: bool) -> (r: CleanupOptions)
        ensures
            r@ == (CleanupOptionsView { compress: compress, ..self@ }),
    {
        let mut s = self;
        s.compress = compress;
        s
    }
}

} // verus!
