//! Progress accounting: how many files and bytes a phase expects, and how
//! many of them succeeded, were skipped or failed.

use crate::text::{chars_of, decimal, decimal_text, push_all, text_of};
use vstd::prelude::*;

verus! {

/// The width of a text in terminal columns, as `console::measure_text_width`
/// counts it.
pub uninterp spec fn console_text_width(text: Seq<char>) -> nat;

/// A text with blanks before it up to a width in terminal columns; as it
/// is where it is that wide or wider.
pub open spec fn right_aligned(text: Seq<char>, width: nat) -> Seq<char> {
    if console_text_width(text) >= width {
        text
    } else {
        Seq::new((width - console_text_width(text)) as nat, |i: int| ' ') + text
    }
}

/// Calls `console::pad_str` with right alignment and no truncation.
/// Trusted: a text narrower than the width gets the missing columns as
/// blanks before it; any other comes back as it is.
#[verifier::external_body]
fn console_pad_right(text: &str, width: usize) -> (r: String)
    ensures
        console_text_width(text@) >= width ==> r@ == text@,
        console_text_width(text@) < width ==> r@ == Seq::new(
            (width - console_text_width(text@)) as nat,
            |i: int| ' ',
        ) + text@,
{
    console::pad_str(text, width, console::Alignment::Right, None).to_string()
}

/// The sum of two counters as a counter: it wraps at `u64::MAX`.
pub open spec fn wrapped(a: u64, b: u64) -> u64 {
    if a + b > u64::MAX {
        (a + b - u64::MAX - 1) as u64
    } else {
        (a + b) as u64
    }
}

/// Four counters of one kind of thing.
#[derive(Debug, Clone, Copy, PartialEq, Eq, Structural)]
pub struct ProgressPart {
    total: u64,
    success: u64,
    skipped: u64,
    failed: u64,
}

impl Default for ProgressPart {
    fn default() -> (r: Self)
        ensures
            r == Self::zero(),
    {
        Self::new()
    }
}

impl ProgressPart {
    /// The counters at zero.
    pub closed spec fn zero() -> ProgressPart {
        ProgressPart { total: 0, success: 0, skipped: 0, failed: 0 }
    }

    /// How many are expected.
    pub closed spec fn spec_total(&self) -> u64 {
        self.total
    }

    /// How many succeeded.
    pub closed spec fn spec_success(&self) -> u64 {
        self.success
    }

    /// How many were skipped.
    pub closed spec fn spec_skipped(&self) -> u64 {
        self.skipped
    }

    /// How many failed.
    pub closed spec fn spec_failed(&self) -> u64 {
        self.failed
    }

    /// How many are settled: succeeded, skipped or failed.
    pub open spec fn spec_settled(&self) -> int {
        self.spec_success() + self.spec_skipped() + self.spec_failed()
    }

    /// How many are still to come.
    pub open spec fn spec_remaining(&self) -> int {
        self.spec_total() - self.spec_settled()
    }

    /// The counters of `zero` are zero, each of them.
    pub proof fn lemma_zero()
        ensures
            Self::zero().spec_total() == 0,
            Self::zero().spec_success() == 0,
            Self::zero().spec_skipped() == 0,
            Self::zero().spec_failed() == 0,
            Self::zero().spec_remaining() == 0,
    {
    }

    /// The counters at zero.
    pub fn new() -> (r: Self)
        ensures
            r == Self::zero(),
            r.spec_total() == 0,
            r.spec_success() == 0,
            r.spec_skipped() == 0,
            r.spec_failed() == 0,
    {
        Self { total: 0, success: 0, skipped: 0, failed: 0 }
    }

    /// Expects `count` more.
    pub fn inc_total(&mut self, count: u64)
        ensures
            final(self).spec_total() == wrapped(old(self).spec_total(), count),
            final(self).spec_success() == old(self).spec_success(),
            final(self).spec_skipped() == old(self).spec_skipped(),
            final(self).spec_failed() == old(self).spec_failed(),
    {
        self.total = self.total.wrapping_add(count);
    }

    /// Counts `count` more as succeeded.
    pub fn inc_success(&mut self, count: u64)
        ensures
            final(self).spec_total() == old(self).spec_total(),
            final(self).spec_success() == wrapped(old(self).spec_success(), count),
            final(self).spec_skipped() == old(self).spec_skipped(),
            final(self).spec_failed() == old(self).spec_failed(),
    {
        self.success = self.success.wrapping_add(count);
    }

    /// Counts `count` more as skipped.
    pub fn inc_skipped(&mut self, count: u64)
        ensures
            final(self).spec_total() == old(self).spec_total(),
            final(self).spec_success() == old(self).spec_success(),
            final(self).spec_skipped() == wrapped(old(self).spec_skipped(), count),
            final(self).spec_failed() == old(self).spec_failed(),
    {
        self.skipped = self.skipped.wrapping_add(count);
    }

    /// Counts `count` more as failed.
    pub fn inc_failed(&mut self, count: u64)
        ensures
            final(self).spec_total() == old(self).spec_total(),
            final(self).spec_success() == old(self).spec_success(),
            final(self).spec_skipped() == old(self).spec_skipped(),
            final(self).spec_failed() == wrapped(old(self).spec_failed(), count),
    {
        self.failed = self.failed.wrapping_add(count);
    }

    /// How many are expected.
    pub fn total(&self) -> (r: u64)
        ensures
            r == self.spec_total(),
    {
        self.total
    }

    /// How many succeeded.
    pub fn success(&self) -> (r: u64)
        ensures
            r == self.spec_success(),
    {
        self.success
    }

    /// How many were skipped.
    pub fn skipped(&self) -> (r: u64)
        ensures
            r == self.spec_skipped(),
    {
        self.skipped
    }

    /// How many failed.
    pub fn failed(&self) -> (r: u64)
        ensures
            r == self.spec_failed(),
    {
        self.failed
    }

    /// How many are still to come: the total less those that succeeded,
    /// were skipped or failed.
    pub fn remaining(&self) -> (r: u64)
        requires
            self.spec_settled() <= self.spec_total(),
        ensures
            r == self.spec_remaining(),
    {
        self.total - self.success - self.skipped - self.failed
    }

    /// How the counters read: those that succeeded, were skipped and
    /// failed.
    pub open spec fn spec_to_string(&self) -> Seq<char> {
        decimal_text(self.spec_success() as nat) + " succeeded, "@ + decimal_text(self.spec_skipped() as nat)
            + " skipped, "@ + decimal_text(self.spec_failed() as nat) + " failed"@
    }

    /// How the counters read.
    pub fn to_string(&self) -> (r: String)
        ensures
            r@ == self.spec_to_string(),
    {
        let mut out = decimal(self.success);
        let a = chars_of(" succeeded, ");
        push_all(&mut out, &a);
        let skipped = decimal(self.skipped);
        push_all(&mut out, &skipped);
        let b = chars_of(" skipped, ");
        push_all(&mut out, &b);
        let failed = decimal(self.failed);
        push_all(&mut out, &failed);
        let c = chars_of(" failed");
        push_all(&mut out, &c);
        let n = out.len();
        let r = text_of(&out, 0, n);
        assert(out@.subrange(0, n as int) =~= out@);
        r
    }

    /// Sets the counters to zero.
    pub fn reset(&mut self)
        ensures
            *final(self) == Self::zero(),
            final(self).spec_remaining() == 0,
    {
        self.total = 0;
        self.success = 0;
        self.skipped = 0;
        self.failed = 0;
    }
}

/// Settling never raises what remains: while no counter wraps, counting
/// `count` more as succeeded, skipped or failed lowers what remains by
/// `count`, and only expecting more raises it.
pub proof fn law_remaining_falls(before: ProgressPart, after: ProgressPart, count: u64)
    requires
        after.spec_total() == before.spec_total(),
        before.spec_settled() + count <= u64::MAX,
        ({
            ||| (after.spec_success() == wrapped(before.spec_success(), count) && after.spec_skipped()
                == before.spec_skipped() && after.spec_failed() == before.spec_failed())
            ||| (after.spec_success() == before.spec_success() && after.spec_skipped() == wrapped(
                before.spec_skipped(),
                count,
            ) && after.spec_failed() == before.spec_failed())
            ||| (after.spec_success() == before.spec_success() && after.spec_skipped()
                == before.spec_skipped() && after.spec_failed() == wrapped(before.spec_failed(), count))
        }),
    ensures
        after.spec_remaining() == before.spec_remaining() - count,
        after.spec_remaining() <= before.spec_remaining(),
{
}

/// What a progress bar is to show.
#[derive(Debug, Clone, Copy, PartialEq, Eq, Structural)]
pub struct BarUpdate {
    /// The bar's length: the files expected.
    pub length: u64,
    /// The bar's position: the files settled.
    pub position: u64,
    /// The bytes received, for the bar's message.
    pub received: u64,
    /// Whether the bar's prefix is the label alone, as before the first
    /// step.
    pub stepless: bool,
}

/// The progress of a phase: its step, its label, and the counters for
/// files and for bytes.
#[derive(Debug)]
pub struct Progress {
    /// The number of the current step.
    pub step: u8,
    /// The label of the current step.
    pub step_name: String,
    /// The files of the current step.
    pub files: ProgressPart,
    /// The bytes of the current step.
    pub bytes: ProgressPart,
    /// The bytes received in the steps that were completed.
    pub total_bytes: u64,
    /// The number of steps in all.
    pub total_steps: u8,
}

impl Clone for Progress {
    fn clone(&self) -> (r: Self)
        ensures
            r.step == self.step,
            r.spec_step_name() == self.spec_step_name(),
            r.files == self.files,
            r.bytes == self.bytes,
            r.total_bytes == self.total_bytes,
            r.spec_total_steps() == self.spec_total_steps(),
    {
        Progress {
            step: self.step,
            step_name: self.step_name.clone(),
            files: self.files,
            bytes: self.bytes,
            total_bytes: self.total_bytes,
            total_steps: self.total_steps,
        }
    }
}

impl Default for Progress {
    fn default() -> (r: Self)
        ensures
            r.step == 0,
            r.spec_step_name() == Seq::<char>::empty(),
            r.files == ProgressPart::zero(),
            r.bytes == ProgressPart::zero(),
            r.total_bytes == 0,
            r.spec_total_steps() == 0,
    {
        Progress {
            step: 0,
            step_name: String::new(),
            files: ProgressPart::new(),
            bytes: ProgressPart::new(),
            total_bytes: 0,
            total_steps: 0,
        }
    }
}

impl Progress {
    /// The label of the current step.
    pub open spec fn spec_step_name(&self) -> Seq<char> {
        self.step_name@
    }

    /// The number of steps in all.
    pub open spec fn spec_total_steps(&self) -> u8 {
        self.total_steps
    }

    /// Progress before the first step, of four, without a label.
    pub fn new() -> (r: Self)
        ensures
            r.step == 0,
            r.spec_step_name() == Seq::<char>::empty(),
            r.files == ProgressPart::zero(),
            r.bytes == ProgressPart::zero(),
            r.total_bytes == 0,
            r.spec_total_steps() == 4,
    {
        Self {
            step_name: String::new(),
            step: 0,
            files: ProgressPart::new(),
            bytes: ProgressPart::new(),
            total_bytes: 0,
            total_steps: 4,
        }
    }

    /// Progress before the first step, of four, with a label.
    pub fn with_step(step: &str) -> (r: Self)
        ensures
            r.step == 0,
            r.spec_step_name() == step@,
            r.files == ProgressPart::zero(),
            r.bytes == ProgressPart::zero(),
            r.total_bytes == 0,
            r.spec_total_steps() == 4,
    {
        Self {
            step_name: String::from_str(step),
            step: 0,
            files: ProgressPart::new(),
            bytes: ProgressPart::new(),
            total_bytes: 0,
            total_steps: 4,
        }
    }

    /// The label of the current step.
    pub fn step_name(&self) -> (r: &str)
        ensures
            r@ == self.spec_step_name(),
    {
        self.step_name.as_str()
    }

    /// The number of steps in all.
    pub fn total_steps(&self) -> (r: u8)
        ensures
            r == self.spec_total_steps(),
    {
        self.total_steps
    }

    /// Sets the number of steps.
    pub fn set_total_steps(&mut self, num_steps: u8)
        ensures
            final(self).spec_total_steps() == num_steps,
            final(self).step == old(self).step,
            final(self).spec_step_name() == old(self).spec_step_name(),
            final(self).files == old(self).files,
            final(self).bytes == old(self).bytes,
            final(self).total_bytes == old(self).total_bytes,
    {
        self.total_steps = num_steps;
    }

    /// Gives the current step another label.
    pub fn set_step(&mut self, step_name: &str)
        ensures
            final(self).spec_step_name() == step_name@,
            final(self).step == old(self).step,
            final(self).spec_total_steps() == old(self).spec_total_steps(),
            final(self).files == old(self).files,
            final(self).bytes == old(self).bytes,
            final(self).total_bytes == old(self).total_bytes,
    {
        self.step_name = String::from_str(step_name);
    }

    /// Begins the next step: it gets the label, and the counters for files
    /// and bytes start at zero. The step's number wraps at 255.
    pub fn next_step(&mut self, step_name: &str)
        ensures
            final(self).spec_step_name() == step_name@,
            final(self).step == (if old(self).step == u8::MAX {
                0u8
            } else {
                (old(self).step + 1) as u8
            }),
            final(self).spec_total_steps() == old(self).spec_total_steps(),
            final(self).files == ProgressPart::zero(),
            final(self).bytes == ProgressPart::zero(),
            final(self).total_bytes == old(self).total_bytes,
    {
        self.step_name = String::from_str(step_name);
        self.bytes.reset();
        self.files.reset();
        self.step = self.step.wrapping_add(1);
    }

    /// The prefix of a download bar, before styling: step and number of
    /// steps, then the label, right-aligned in seventeen columns.
    pub open spec fn spec_prefix(&self) -> Seq<char> {
        seq!['['] + decimal_text(self.step as nat) + seq!['/'] + decimal_text(self.total_steps as nat)
            + seq![']', ' '] + right_aligned(self.step_name@, 17)
    }

    /// The prefix of a download bar, before styling.
    pub fn create_prefix(&self) -> (r: String)
        ensures
            r@ == self.spec_prefix(),
    {
        let mut out: Vec<char> = Vec::new();
        out.push('[');
        let step = decimal(self.step as u64);
        push_all(&mut out, &step);
        out.push('/');
        let total = decimal(self.total_steps as u64);
        push_all(&mut out, &total);
        out.push(']');
        out.push(' ');
        let label = chars_of(console_pad_right(self.step_name.as_str(), 17).as_str());
        push_all(&mut out, &label);
        let n = out.len();
        let r = text_of(&out, 0, n);
        assert(out@.subrange(0, n as int) =~= out@);
        assert(out@ =~= self.spec_prefix());
        r
    }

    /// The prefix of a bar without steps, before styling: the label,
    /// right-aligned in fourteen columns.
    pub fn create_prefix_stepless(&self) -> (r: String)
        ensures
            r@ == right_aligned(self.step_name@, 14),
    {
        console_pad_right(self.step_name.as_str(), 14)
    }

    /// What a bar for the files is to show.
    pub fn update_for_files(&self) -> (r: BarUpdate)
        requires
            self.files.spec_settled() <= self.files.spec_total(),
        ensures
            r == (BarUpdate {
                length: self.files.spec_total(),
                position: self.files.spec_settled() as u64,
                received: self.bytes.spec_success(),
                stepless: self.step == 0,
            }),
    {
        BarUpdate {
            length: self.files.total(),
            position: self.files.total() - self.files.remaining(),
            received: self.bytes.success(),
            stepless: self.step == 0,
        }
    }

    /// Whether no file is still to come.
    pub fn is_idle(&self) -> (r: bool)
        requires
            self.files.spec_settled() <= self.files.spec_total(),
        ensures
            r == (self.files.spec_remaining() == 0),
    {
        self.files.remaining() == 0
    }

    /// How many files are settled: the position of a progress bar whose
    /// length is the total.
    pub fn position(&self) -> (r: u64)
        requires
            self.files.spec_settled() <= self.files.spec_total(),
        ensures
            r == self.files.spec_settled(),
    {
        self.files.total() - self.files.remaining()
    }

    /// Closes the current step: the bytes that it received are added to
    /// those of the steps before. The sum wraps at `u64::MAX`.
    pub fn complete_step(&mut self)
        ensures
            final(self).total_bytes == wrapped(old(self).total_bytes, old(self).bytes.spec_success()),
            final(self).step == old(self).step,
            final(self).spec_step_name() == old(self).spec_step_name(),
            final(self).spec_total_steps() == old(self).spec_total_steps(),
            final(self).files == old(self).files,
            final(self).bytes == old(self).bytes,
    {
        self.total_bytes = self.total_bytes.wrapping_add(self.bytes.success());
    }
}

} // verus!
