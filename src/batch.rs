//! Counting the outcomes of a batch and reporting them.
use vstd::prelude::*;
use vstd::string::*;
use crate::byte_formatter::{byte_text, format_bytes};
use crate::file_job::FileOutcome;
use crate::text::{append_decimal, dec_digits};

verus! {

/// Counts kept over a batch: files made smaller, files left as they were because
/// re-encoding did not shrink them, and the bytes saved. Failed files count in neither.
#[derive(Debug, Clone, Copy, PartialEq, Eq, Structural)]
pub struct BatchTotals {
    pub processed: usize,
    pub skipped: usize,
    pub total_saved: u64,
}

/// Whether an outcome counts as a processed (shrunk) file.
pub open spec fn is_processed(o: FileOutcome) -> bool {
    o matches FileOutcome::Shrunk(s) && s > 0
}

/// Whether an outcome counts as a skipped file.
pub open spec fn is_skipped(o: FileOutcome) -> bool {
    o == FileOutcome::NotSmaller || o == FileOutcome::Shrunk(0)
}

pub open spec fn saved_by(o: FileOutcome) -> nat {
    match o {
        FileOutcome::Shrunk(s) => s as nat,
        _ => 0,
    }
}

/// Number of processed outcomes in `s`.
pub open spec fn processed_count(s: Seq<FileOutcome>) -> nat
    decreases s.len(),
{
    if s.len() == 0 { 0 } else { processed_count(s.drop_last()) + if is_processed(s.last()) { 1nat } else { 0 } }
}

/// Number of skipped outcomes in `s`.
pub open spec fn skipped_count(s: Seq<FileOutcome>) -> nat
    decreases s.len(),
{
    if s.len() == 0 { 0 } else { skipped_count(s.drop_last()) + if is_skipped(s.last()) { 1nat } else { 0 } }
}

/// Bytes saved over `s`.
pub open spec fn saved_total(s: Seq<FileOutcome>) -> nat
    decreases s.len(),
{
    if s.len() == 0 { 0 } else { saved_total(s.drop_last()) + saved_by(s.last()) }
}

proof fn lemma_counts_bounded(s: Seq<FileOutcome>)
    ensures
        processed_count(s) <= s.len(),
        skipped_count(s) <= s.len(),
    decreases s.len(),
{
    if s.len() > 0 {
        lemma_counts_bounded(s.drop_last());
    }
}

proof fn lemma_saved_total_prefix(s: Seq<FileOutcome>, i: int)
    requires
        0 <= i <= s.len(),
    ensures
        saved_total(s.take(i)) <= saved_total(s),
    decreases s.len() - i,
{
    if i < s.len() {
        lemma_saved_total_prefix(s, i + 1);
        assert(s.take(i + 1).drop_last() =~= s.take(i));
    } else {
        assert(s.take(i) =~= s);
    }
}

impl BatchTotals {
    pub fn new() -> (r: BatchTotals)
        ensures
            r == (BatchTotals { processed: 0, skipped: 0, total_saved: 0 }),
    {
        BatchTotals { processed: 0, skipped: 0, total_saved: 0 }
    }

    /// The totals after one more file with outcome `o`.
    pub open spec fn spec_recorded(self, o: FileOutcome) -> BatchTotals {
        if is_processed(o) {
            BatchTotals {
                processed: (self.processed + 1) as usize,
                total_saved: (self.total_saved + saved_by(o)) as u64,
                ..self
            }
        } else if is_skipped(o) {
            BatchTotals { skipped: (self.skipped + 1) as usize, ..self }
        } else {
            self
        }
    }

    /// Whether one more outcome `o` can be counted without overflow.
    pub open spec fn can_record(self, o: FileOutcome) -> bool {
        &&& is_processed(o) ==> self.processed < usize::MAX && self.total_saved + saved_by(o) <= u64::MAX
        &&& is_skipped(o) ==> self.skipped < usize::MAX
    }

    /// Whether one more outcome `o` can be counted without overflow.
    pub fn fits(&self, o: FileOutcome) -> (r: bool)
        ensures
            r == self.can_record(o),
    {
        match o {
            FileOutcome::Shrunk(s) => if s > 0 {
                self.processed < usize::MAX && s <= u64::MAX - self.total_saved
            } else {
                self.skipped < usize::MAX
            },
            FileOutcome::NotSmaller => self.skipped < usize::MAX,
            FileOutcome::Failed => true,
        }
    }

    /// Counts the outcome of one file.
    pub fn record(&mut self, o: FileOutcome)
        requires
            old(self).can_record(o),
        ensures
            *final(self) == old(self).spec_recorded(o),
    {
        match o {
            FileOutcome::Shrunk(s) => if s > 0 {
                self.processed = self.processed + 1;
                self.total_saved = self.total_saved + s;
            } else {
                self.skipped = self.skipped + 1;
            },
            FileOutcome::NotSmaller => {
                self.skipped = self.skipped + 1;
            },
            FileOutcome::Failed => {},
        }
    }
}

/// Counting is independent of the order in which files finish: two outcomes
/// recorded one after the other give the same totals in either order.
pub proof fn lemma_record_commutes(t: BatchTotals, a: FileOutcome, b: FileOutcome)
    requires
        t.can_record(a),
        t.spec_recorded(a).can_record(b),
    ensures
        t.can_record(b),
        t.spec_recorded(b).can_record(a),
        t.spec_recorded(a).spec_recorded(b) == t.spec_recorded(b).spec_recorded(a),
{
}

/// The totals of a batch whose files ended with these outcomes.
pub fn summarize(outcomes: &Vec<FileOutcome>) -> (r: BatchTotals)
    requires
        saved_total(outcomes@) <= u64::MAX,
    ensures
        r.processed == processed_count(outcomes@),
        r.skipped == skipped_count(outcomes@),
        r.total_saved == saved_total(outcomes@),
{
    let mut t = BatchTotals::new();
    let mut i: usize = 0;
    while i < outcomes.len()
        invariant
            i <= outcomes@.len(),
            saved_total(outcomes@) <= u64::MAX,
            t.processed == processed_count(outcomes@.take(i as int)),
            t.skipped == skipped_count(outcomes@.take(i as int)),
            t.total_saved == saved_total(outcomes@.take(i as int)),
        decreases outcomes@.len() - i,
    {
        let ghost pre = outcomes@.take(i as int);
        let ghost next = outcomes@.take(i + 1);
        assert(next.drop_last() =~= pre);
        proof {
            lemma_counts_bounded(pre);
            lemma_saved_total_prefix(outcomes@, i + 1);
        }
        t.record(outcomes[i]);
        i = i + 1;
    }
    assert(outcomes@.take(i as int) =~= outcomes@);
    t
}

/// "Processed <n> files".
pub open spec fn processed_line(n: nat) -> Seq<char> {
    "Processed "@ + dec_digits(n) + " files"@
}

/// "Skipped <n> files (optimization would increase size)".
pub open spec fn skipped_line(n: nat) -> Seq<char> {
    "Skipped "@ + dec_digits(n) + " files (optimization would increase size)"@
}

/// "Total space saved: <size>".
pub open spec fn saved_line(bytes: nat) -> Seq<char> {
    "Total space saved: "@ + byte_text(bytes)
}

/// The lines of the final report: the processed count always, the skipped count
/// when some were skipped, the space saved when some was.
pub open spec fn summary_of(t: BatchTotals) -> Seq<Seq<char>> {
    seq![processed_line(t.processed as nat)]
        + (if t.skipped > 0 { seq![skipped_line(t.skipped as nat)] } else { Seq::empty() })
        + (if t.total_saved > 0 { seq![saved_line(t.total_saved as nat)] } else { Seq::empty() })
}

impl BatchTotals {
    /// The lines of the final report.
    pub fn summary_lines(&self) -> (r: Vec<String>)
        ensures
            r@.map_values(|l: String| l@) == summary_of(*self),
    {
        let mut lines: Vec<String> = Vec::new();
        let mut p = String::from_str("Processed ");
        append_decimal(&mut p, self.processed as u64);
        p.append(" files");
        lines.push(p);
        if self.skipped > 0 {
            let mut s = String::from_str("Skipped ");
            append_decimal(&mut s, self.skipped as u64);
            s.append(" files (optimization would increase size)");
            lines.push(s);
        }
        if self.total_saved > 0 {
            let mut s = String::from_str("Total space saved: ");
            let b = format_bytes(self.total_saved);
            s.append(b.as_str());
            lines.push(s);
        }
        assert(lines@.map_values(|l: String| l@) =~= summary_of(*self));
        lines
    }
}

/// What to say about the files found: how many, or why there are none.
pub open spec fn discovery_text(count: nat, input_is_file: bool) -> Seq<char> {
    if count > 0 {
        "Found "@ + dec_digits(count) + " image files"@
    } else if input_is_file {
        "The specified file is not a supported image format"@
    } else {
        "No image files found in the specified directory"@
    }
}

/// The message about discovered files.
pub fn discovery_message(count: usize, input_is_file: bool) -> (r: String)
    ensures
        r@ == discovery_text(count as nat, input_is_file),
{
    if count > 0 {
        let mut s = String::from_str("Found ");
        append_decimal(&mut s, count as u64);
        s.append(" image files");
        s
    } else if input_is_file {
        String::from_str("The specified file is not a supported image format")
    } else {
        String::from_str("No image files found in the specified directory")
    }
}

} // verus!
