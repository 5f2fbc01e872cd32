//! Progress of a long operation, as whole percentages that never repeat.

use vstd::prelude::*;

verus! {

/// One progress report for the user interface.
#[derive(Debug, Clone)]
pub struct ProgressEvent {
    /// What is being done, in words.
    pub status: String,
    /// How far it is, from 0 to 100.
    pub percentage: u8,
}

/// The share of `total` that `processed` is, in whole percent, rounded
/// down and never more than 100. Of nothing, everything is done.
pub open spec fn percent_of(processed: u64, total: u64) -> int {
    if total == 0 || processed >= total {
        100
    } else {
        processed as int * 100 / total as int
    }
}

/// Computes the whole percentage that `processed` is of `total`.
pub fn percentage(processed: u64, total: u64) -> (pct: u8)
    ensures
        pct == percent_of(processed, total),
        pct <= 100,
{
    if total == 0 || processed >= total {
        100
    } else {
        let done = processed as u128 * 100 / (total as u128);
        assert(done < 100) by (nonlinear_arith)
            requires
                processed < total,
                done == processed as int * 100 / total as int,
        ;
        done as u8
    }
}

/// Where the percentage of one stage of an operation falls in the whole:
/// a stage that takes the share from `from` to `to` of the whole, and is
/// itself `pct` percent done. Where the share is not one, `pct` stands as
/// it is, up to 100.
pub open spec fn staged(from: u8, to: u8, pct: u8) -> int {
    if from <= to && to <= 100 && pct <= 100 {
        from as int + pct as int * (to as int - from as int) / 100
    } else if pct > 100 {
        100
    } else {
        pct as int
    }
}

/// Maps the percentage of one stage into the share of the whole that the
/// stage takes.
pub fn stage_percentage(from: u8, to: u8, pct: u8) -> (out: u8)
    ensures
        out == staged(from, to, pct),
        out <= 100,
{
    if from <= to && to <= 100 && pct <= 100 {
        let span = (to - from) as u32;
        assert(pct as u32 * span <= 10000) by (nonlinear_arith)
            requires
                pct <= 100,
                span <= 100,
        ;
        let part = pct as u32 * span / 100;
        assert(part <= span) by (nonlinear_arith)
            requires
                pct <= 100,
                part == pct as int * span as int / 100,
        ;
        from + part as u8
    } else if pct > 100 {
        100
    } else {
        pct
    }
}

/// Makes the report for a status and a percentage. A percentage above
/// 100 is reported as 100.
pub fn emit_progress(label: &str, percentage: u8) -> (event: ProgressEvent)
    ensures
        event.status@ == label@,
        event.percentage == (if percentage > 100 { 100u8 } else { percentage }),
{
    ProgressEvent {
        status: label.to_owned(),
        percentage: if percentage > 100 { 100 } else { percentage },
    }
}

/// Holds back reports that would repeat a percentage: of one operation,
/// each whole percentage is reported at most once, and reports never go
/// backwards.
pub struct ProgressReporter {
    last: Option<u8>,
}

impl View for ProgressReporter {
    type V = Option<u8>;

    /// The percentage reported last, or nothing before the first report.
    closed spec fn view(&self) -> Option<u8> {
        self.last
    }
}

/// Whether a percentage is to be reported after `last` was.
pub open spec fn is_news(last: Option<u8>, pct: int) -> bool {
    match last {
        None => true,
        Some(l) => pct > l,
    }
}

impl ProgressReporter {
    /// A reporter that has reported nothing yet.
    pub fn new() -> (reporter: ProgressReporter)
        ensures
            reporter@ is None,
    {
        ProgressReporter { last: None }
    }

    /// Takes note of how far the operation is and gives the percentage to
    /// report, if it is one that was not reported yet.
    pub fn update(&mut self, processed: u64, total: u64) -> (report: Option<u8>)
        ensures
            is_news(old(self)@, percent_of(processed, total)) ==> report == Some(
                percent_of(processed, total) as u8,
            ) && final(self)@ == report,
            !is_news(old(self)@, percent_of(processed, total)) ==> report is None && final(self)@
                == old(self)@,
    {
        let pct = percentage(processed, total);
        let news = match self.last {
            None => true,
            Some(l) => pct > l,
        };
        if news {
            self.last = Some(pct);
            Some(pct)
        } else {
            None
        }
    }
}

/// Two reports of one operation never carry the same percentage: a
/// report that follows another carries a larger one.
pub proof fn lemma_reports_increase(first: Option<u8>, pct: int, second: int)
    requires
        is_news(first, pct),
        0 <= pct <= 100,
        is_news(Some(pct as u8), second),
    ensures
        second > pct,
        first matches Some(f) ==> second > f,
{
}

} // verus!
