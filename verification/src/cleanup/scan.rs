//! What the scan for log files does with each directory entry, and the
//! record it keeps of a log file.
use crate::cleanup::date::{spec_date_of_timestamp, Date, modified_date_of};
use crate::cleanup::stats::LogFileInfo;
use crate::text::{chars_of, ends_with, has_suffix, opt_view, owned, str_eq};
use vstd::prelude::*;

verus! {

/// What the scan does with one entry of a directory.
pub enum ScanStep {
    /// Scan the subdirectory, looking for this application (`None`: take every file).
    Descend(Option<String>),
    /// Keep the file as a log file.
    Record,
    /// Ignore the entry.
    Skip,
}

/// The value of a [`ScanStep`].
pub enum ScanStepView {
    Descend(Option<Seq<char>>),
    Record,
    Skip,
}

impl View for ScanStep {
    type V = ScanStepView;

    open spec fn view(&self) -> ScanStepView {
        match self {
            ScanStep::Descend(f) => ScanStepView::Descend(opt_view(*f)),
            ScanStep::Record => ScanStepView::Record,
            ScanStep::Skip => ScanStepView::Skip,
        }
    }
}

/// Whether a file name has the extension `log` (`Path::extension`: the text
/// after the last dot, when something comes before that dot).
pub open spec fn is_log_name(name: Seq<char>) -> bool {
    name.len() > 4 && has_suffix(name, ".log"@)
}

/// The scan's rule: directories are entered, and the one named after the
/// application drops the filter; files count only once no application is
/// being looked for, and only with the extension `log`.
pub open spec fn spec_scan_entry(is_dir: bool, name: Seq<char>, app_filter: Option<Seq<char>>) -> ScanStepView {
    if is_dir {
        match app_filter {
            Some(app) => if name == app {
                ScanStepView::Descend(None)
            } else {
                ScanStepView::Descend(Some(app))
            },
            None => ScanStepView::Descend(None),
        }
    } else if app_filter is None && is_log_name(name) {
        ScanStepView::Record
    } else {
        ScanStepView::Skip
    }
}

/// What the scan does with an entry: `name` is its file name (empty when it
/// is not valid Unicode).
pub fn scan_entry(is_dir: bool, name: &str, app_filter: Option<&str>) -> (r: ScanStep)
    ensures
        r@ == spec_scan_entry(is_dir, name@, match app_filter {
            Some(a) => Some(a@),
            None => None,
        }),
{
    if is_dir {
        match app_filter {
            Some(app) => if str_eq(name, app) {
                ScanStep::Descend(None)
            } else {
                ScanStep::Descend(Some(owned(app)))
            },
            None => ScanStep::Descend(None),
        }
    } else if app_filter.is_none() {
        let v = chars_of(name);
        if v.len() > 4 && ends_with(&v, ".log") {
            ScanStep::Record
        } else {
            ScanStep::Skip
        }
    } else {
        ScanStep::Skip
    }
}

/// Whole days in a number of seconds.
pub open spec fn days_of(secs: u64) -> u64 {
    (secs / 86400) as u64
}

/// The record of a log file: its age in whole days since it was modified (0
/// when that time is unknown or in the future), and the day it was modified
/// when the time is known and fits a timestamp.
pub fn file_info(path: String, size: u64, elapsed_secs: Option<u64>, modified_secs: Option<u64>) -> (r: LogFileInfo)
    ensures
        r.path@ == path@,
        r.size == size,
        r.age_days == match elapsed_secs {
            Some(s) => days_of(s),
            None => 0,
        },
        match modified_secs {
            Some(t) if t <= i64::MAX => match (r.modified_date, spec_date_of_timestamp(t as i64)) {
                (Some(d), Some((y, m, dd))) => d == (Date { year: y, month: m, day: dd }),
                (None, None) => true,
                _ => false,
            },
            _ => r.modified_date is None,
        },
{
    let age_days = match elapsed_secs {
        Some(s) => s / 86400,
        None => 0,
    };
    let modified_date = match modified_secs {
        Some(t) => if t <= 0x7fff_ffff_ffff_ffff {
            modified_date_of(t as i64)
        } else {
            None
        },
        None => None,
    };
    LogFileInfo { path, size, age_days, modified_date }
}

} // verus!
