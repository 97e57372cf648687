//! Free-space checks: which folders are checked, what `df -kP` reports, and
//! when a threshold in megabytes is crossed.
use vstd::prelude::*;
use crate::config::global::DiskSpaceConfig;
use crate::text::{lines_of, lines_spec, owned, parse_u64, parse_u64_spec, split_words, views, words};

verus! {

/// The folders checked before a conversion, with their labels: the output
/// folder (`output`) and the watch folder (`watch`), each when configured.
pub open spec fn check_targets(c: DiskSpaceConfig, output: Seq<char>, watch: Seq<char>) -> Seq<(Seq<char>, Seq<char>)> {
    (if c.check_output {
        seq![("output"@, output)]
    } else {
        Seq::empty()
    }) + (if c.check_watch {
        seq![("watch"@, watch)]
    } else {
        Seq::empty()
    })
}

/// The folders to check before converting, with their labels.
pub fn folders_to_check(config: &DiskSpaceConfig, output_folder: &str, watch_folder: &str) -> (r: Vec<(String, String)>)
    ensures
        r@.map_values(|p: (String, String)| (p.0@, p.1@)) == check_targets(*config, output_folder@, watch_folder@),
{
    let mut out: Vec<(String, String)> = Vec::new();
    if config.check_output {
        out.push((owned("output"), owned(output_folder)));
    }
    if config.check_watch {
        out.push((owned("watch"), owned(watch_folder)));
    }
    assert(out@.map_values(|p: (String, String)| (p.0@, p.1@)) =~= check_targets(
        *config,
        output_folder@,
        watch_folder@,
    ));
    out
}

/// The figures of a `df -kP` report, in kibibytes.
#[derive(Debug, Clone, Copy, PartialEq, Eq)]
pub struct DfFigures {
    pub available_kb: u64,
    pub total_kb: u64,
}

/// A parsed number, zero where the text is not one.
pub open spec fn number_or_zero(s: Seq<char>) -> u64 {
    match parse_u64_spec(s) {
        Some(v) => v,
        None => 0,
    }
}

/// The figures of the second line of a `df -kP` report: the available
/// (fourth column) and total (second column) sizes; none when the report
/// has fewer than two lines or the line fewer than four columns.
pub open spec fn df_figures(report: Seq<char>) -> Option<(u64, u64)> {
    let ls = lines_spec(report);
    if ls.len() < 2 {
        None
    } else {
        let cols = words(ls[1]);
        if cols.len() < 4 {
            None
        } else {
            Some((number_or_zero(cols[3]), number_or_zero(cols[1])))
        }
    }
}

fn number_or_zero_of(s: &str) -> (r: u64)
    ensures
        r == number_or_zero(s@),
{
    match parse_u64(s) {
        Some(v) => v,
        None => 0,
    }
}

/// Reads a `df -kP` report.
pub fn parse_df(report: &str) -> (r: Option<DfFigures>)
    ensures
        match df_figures(report@) {
            Some((a, t)) => r == Some(DfFigures { available_kb: a, total_kb: t }),
            None => r is None,
        },
{
    let lines = lines_of(report);
    if lines.len() < 2 {
        return None;
    }
    proof {
        assert(views(lines@)[1] == lines@[1]@);
    }
    let cols = split_words(lines[1].as_str());
    if cols.len() < 4 {
        return None;
    }
    proof {
        assert(views(cols@)[3] == cols@[3]@);
        assert(views(cols@)[1] == cols@[1]@);
    }
    Some(DfFigures { available_kb: number_or_zero_of(cols[3].as_str()), total_kb: number_or_zero_of(cols[1].as_str()) })
}

/// Whether `available_kb` kibibytes are fewer bytes than `mb` mebibytes.
pub fn below_mb_threshold(available_kb: u64, mb: u64) -> (r: bool)
    ensures
        r == (available_kb * 1024 < mb * 1048576),
{
    (available_kb as u128) * 1024 < (mb as u128) * 1048576
}

} // verus!
