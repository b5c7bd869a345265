//! The lines a cleanup or stats command shows: a headline per action and one
//! indented line per file, printed whatever the minimum level.
use crate::cleanup::result::{CleanupResult, CleanupResultView};
use crate::cleanup::size::{format_size, spec_format_size};
use crate::cleanup::stats::{LogFileInfoView, LogStats, files_view};
use crate::level::Level;
use crate::logger::{LogRecord, LogRecordView, Logger, passes, spec_record};
use crate::text::{dec, joined, push_dec, push_str, string_of, svec_view};
use vstd::prelude::*;

verus! {

/// The views of a list of records.
pub open spec fn records_view(v: Seq<LogRecord>) -> Seq<LogRecordView> {
    v.map_values(|r: LogRecord| r@)
}

/// A raw continuation line.
pub open spec fn raw_record(msg: Seq<char>) -> LogRecordView {
    LogRecordView { raw: true, ..spec_record(Level::Info, Seq::empty(), msg, None, None) }
}

/// A headline followed by one indented raw line per path.
pub open spec fn listing(app: Option<Seq<char>>, scope: Seq<char>, headline: Seq<char>, paths: Seq<Seq<char>>) -> Seq<
    LogRecordView,
> {
    seq![spec_record(Level::Info, scope, headline, None, app)] + paths.map_values(
        |p: Seq<char>| raw_record("  "@ + p),
    )
}

/// `<verb> <count> file(s), <what> <size>`.
pub open spec fn action_line(verb: Seq<char>, count: nat, what: Seq<char>, bytes: nat) -> Seq<char> {
    verb + dec(count) + " file(s), "@ + what + spec_format_size(bytes)
}

/// What a cleanup result shows: in a dry run what would be deleted and
/// compressed, else what was; when neither list has anything, a debug note.
pub open spec fn spec_cleanup_report(r: CleanupResultView, logger_app: Option<Seq<char>>, min: Level, dry_run: bool) -> Seq<
    LogRecordView,
> {
    let (del, del_bytes, comp, comp_bytes) = if dry_run {
        (r.would_delete, r.would_free, r.would_compress, r.would_compress_save)
    } else {
        (r.deleted, r.freed, r.compressed, r.compressed_saved)
    };
    let first = if del.len() > 0 {
        listing(
            logger_app,
            "CLEANUP"@,
            if dry_run {
                action_line("Would delete "@, del.len(), "freeing "@, del_bytes)
            } else {
                action_line("Deleted "@, del.len(), "freed "@, del_bytes)
            },
            del,
        )
    } else {
        Seq::empty()
    };
    let second = if comp.len() > 0 {
        listing(
            logger_app,
            "CLEANUP"@,
            if dry_run {
                action_line("Would compress "@, comp.len(), "saving ~"@, comp_bytes)
            } else {
                action_line("Compressed "@, comp.len(), "saved "@, comp_bytes)
            },
            comp,
        )
    } else {
        Seq::empty()
    };
    let note = if del.len() == 0 && comp.len() == 0 && passes(min, Level::Debug) {
        seq![
            spec_record(
                Level::Debug,
                "CLEANUP"@,
                if dry_run {
                    "No files to process"@
                } else {
                    "No files processed"@
                },
                None,
                logger_app,
            ),
        ]
    } else {
        Seq::empty()
    };
    first + second + note
}

fn push_listing(
    out: &mut Vec<LogRecord>,
    logger: &Logger,
    scope: &str,
    headline: &Vec<char>,
    paths: &Vec<String>,
)
    ensures
        records_view(final(out)@) == records_view(old(out)@) + listing(
            logger@.app_name,
            scope@,
            headline@,
            svec_view(paths@),
        ),
{
    let ghost start = records_view(out@);
    let h = string_of(headline);
    out.push(logger.print(scope, h.as_str()));
    let ghost head = records_view(out@);
    assert(head =~= start + seq![spec_record(Level::Info, scope@, headline@, None, logger@.app_name)]);
    let ghost f = |p: Seq<char>| raw_record("  "@ + p);
    let mut i: usize = 0;
    assert(svec_view(paths@).take(0).map_values(f) =~= Seq::<LogRecordView>::empty());
    while i < paths.len()
        invariant
            i <= paths@.len(),
            f == (|p: Seq<char>| raw_record("  "@ + p)),
            records_view(out@) == head + svec_view(paths@).take(i as int).map_values(f),
        decreases paths@.len() - i,
    {
        let mut line: Vec<char> = Vec::new();
        push_str(&mut line, "  ");
        push_str(&mut line, paths[i].as_str());
        let l = string_of(&line);
        let ghost before = records_view(out@);
        out.push(logger.raw(l.as_str()));
        proof {
            assert(svec_view(paths@).take(i + 1).map_values(f) =~= svec_view(paths@).take(
                i as int,
            ).map_values(f).push(f(paths@[i as int]@)));
            assert(records_view(out@) =~= before.push(f(paths@[i as int]@)));
        }
        i = i + 1;
    }
    assert(svec_view(paths@).take(paths@.len() as int) =~= svec_view(paths@));
}

fn action_chars(verb: &str, count: usize, what: &str, bytes: u64) -> (r: Vec<char>)
    ensures
        r@ == action_line(verb@, count as nat, what@, bytes as nat),
{
    let mut v: Vec<char> = Vec::new();
    push_str(&mut v, verb);
    push_dec(&mut v, count as u64);
    push_str(&mut v, " file(s), ");
    push_str(&mut v, what);
    let s = format_size(bytes);
    push_str(&mut v, s.as_str());
    assert(v@ =~= action_line(verb@, count as nat, what@, bytes as nat));
    v
}

impl CleanupResult {
    /// The lines that report this result.
    pub fn log(&self, logger: &Logger, dry_run: bool) -> (r: Vec<LogRecord>)
        ensures
            records_view(r@) == spec_cleanup_report(self@, logger@.app_name, logger@.min_level, dry_run),
    {
        let mut out: Vec<LogRecord> = Vec::new();
        let (del, del_bytes, comp, comp_bytes) = if dry_run {
            (&self.would_delete, self.would_free, &self.would_compress, self.would_compress_save)
        } else {
            (&self.deleted, self.freed, &self.compressed, self.compressed_saved)
        };
        assert(records_view(out@) =~= Seq::<LogRecordView>::empty());
        if del.len() > 0 {
            let line = if dry_run {
                action_chars("Would delete ", del.len(), "freeing ", del_bytes)
            } else {
                action_chars("Deleted ", del.len(), "freed ", del_bytes)
            };
            push_listing(&mut out, logger, "CLEANUP", &line, del);
        }
        let ghost after_first = records_view(out@);
        if comp.len() > 0 {
            let line = if dry_run {
                action_chars("Would compress ", comp.len(), "saving ~", comp_bytes)
            } else {
                action_chars("Compressed ", comp.len(), "saved ", comp_bytes)
            };
            push_listing(&mut out, logger, "CLEANUP", &line, comp);
        }
        let ghost after_second = records_view(out@);
        if del.len() == 0 && comp.len() == 0 {
            let note = if dry_run {
                logger.debug("CLEANUP", "No files to process")
            } else {
                logger.debug("CLEANUP", "No files processed")
            };
            if let Some(rec) = note {
                out.push(rec);
            }
        }
        proof {
            let want = spec_cleanup_report(self@, logger@.app_name, logger@.min_level, dry_run);
            assert(records_view(out@) =~= want);
        }
        out
    }
}

/// How old a file is, for people: `today`, `1 day`, `N days`.
pub open spec fn age_text(days: nat) -> Seq<char> {
    if days == 0 {
        "today"@
    } else if days == 1 {
        "1 day"@
    } else {
        dec(days) + " days"@
    }
}

/// The line for one file: `  <path> (<size>, <age>)`.
pub open spec fn file_line(f: LogFileInfoView) -> Seq<char> {
    "  "@ + f.path + " ("@ + spec_format_size(f.size as nat) + ", "@ + age_text(f.age_days as nat) + ")"@
}

/// What a stats summary shows: count, total size, oldest and newest file,
/// and one line per file.
pub open spec fn spec_stats_report(s_total: nat, s_size: nat, oldest: Option<Seq<char>>, newest: Option<Seq<char>>, files: Seq<LogFileInfoView>, app: Option<Seq<char>>) -> Seq<LogRecordView> {
    let head = seq![
        spec_record(Level::Info, "STATS"@, "Total files: "@ + dec(s_total), None, app),
        spec_record(Level::Info, "STATS"@, "Total size:  "@ + spec_format_size(s_size), None, app),
    ];
    let o = match oldest {
        Some(p) => seq![spec_record(Level::Info, "STATS"@, "Oldest:      "@ + p, None, app)],
        None => Seq::empty(),
    };
    let n = match newest {
        Some(p) => seq![spec_record(Level::Info, "STATS"@, "Newest:      "@ + p, None, app)],
        None => Seq::empty(),
    };
    let list = if files.len() > 0 {
        seq![spec_record(Level::Info, "STATS"@, "Files:"@, None, app)] + files.map_values(
            |f: LogFileInfoView| raw_record(file_line(f)),
        )
    } else {
        Seq::empty()
    };
    head + o + n + list
}

fn file_line_chars(f: &crate::cleanup::stats::LogFileInfo) -> (r: Vec<char>)
    ensures
        r@ == file_line(f@),
{
    let mut v: Vec<char> = Vec::new();
    push_str(&mut v, "  ");
    push_str(&mut v, f.path.as_str());
    push_str(&mut v, " (");
    let s = format_size(f.size);
    push_str(&mut v, s.as_str());
    push_str(&mut v, ", ");
    let ghost before_age = v@;
    if f.age_days == 0 {
        push_str(&mut v, "today");
    } else if f.age_days == 1 {
        push_str(&mut v, "1 day");
    } else {
        push_dec(&mut v, f.age_days);
        push_str(&mut v, " days");
        assert(v@ =~= before_age + age_text(f.age_days as nat));
    }
    push_str(&mut v, ")");
    assert(v@ =~= file_line(f@));
    v
}


impl LogStats {
    /// The lines that report these statistics.
    pub fn log(&self, logger: &Logger) -> (r: Vec<LogRecord>)
        requires
            self.total_files <= u64::MAX,
        ensures
            records_view(r@) == spec_stats_report(
                self.total_files as nat,
                self.total_size as nat,
                crate::text::opt_view(self.oldest_file),
                crate::text::opt_view(self.newest_file),
                files_view(self.files@),
                logger@.app_name,
            ),
    {
        let mut out: Vec<LogRecord> = Vec::new();
        let mut t: Vec<char> = Vec::new();
        push_str(&mut t, "Total files: ");
        push_dec(&mut t, self.total_files as u64);
        out.push(logger.print("STATS", string_of(&t).as_str()));
        let sz = format_size(self.total_size);
        out.push(logger.print("STATS", joined("Total size:  ", sz.as_str()).as_str()));
        if let Some(p) = &self.oldest_file {
            out.push(logger.print("STATS", joined("Oldest:      ", p.as_str()).as_str()));
        }
        if let Some(p) = &self.newest_file {
            out.push(logger.print("STATS", joined("Newest:      ", p.as_str()).as_str()));
        }
        let ghost head = records_view(out@);
        if self.files.len() > 0 {
            out.push(logger.print("STATS", "Files:"));
            let ghost start = records_view(out@);
            let ghost fv = files_view(self.files@);
            let ghost g = |f: LogFileInfoView| raw_record(file_line(f));
            let mut i: usize = 0;
            assert(fv.take(0).map_values(g) =~= Seq::<LogRecordView>::empty());
            while i < self.files.len()
                invariant
                    i <= self.files@.len(),
                    fv == files_view(self.files@),
                    g == (|f: LogFileInfoView| raw_record(file_line(f))),
                    records_view(out@) == start + fv.take(i as int).map_values(g),
                decreases self.files@.len() - i,
            {
                let line = file_line_chars(&self.files[i]);
                let l = string_of(&line);
                let ghost before = records_view(out@);
                out.push(logger.raw(l.as_str()));
                proof {
                    assert(fv[i as int] == self.files@[i as int]@);
                    assert(fv.take(i + 1).map_values(g) =~= fv.take(i as int).map_values(g).push(
                        g(fv[i as int]),
                    ));
                    assert(records_view(out@) =~= before.push(g(fv[i as int])));
                }
                i = i + 1;
            }
            assert(fv.take(fv.len() as int) =~= fv);
        }
        proof {
            assert(records_view(out@) =~= spec_stats_report(
                self.total_files as nat,
                self.total_size as nat,
                crate::text::opt_view(self.oldest_file),
                crate::text::opt_view(self.newest_file),
                files_view(self.files@),
                logger@.app_name,
            ));
        }
        out
    }
}

} // verus!
