//! The editor: the state one waveform session owns, and the edits on it.

use vstd::prelude::*;
use crate::amplitude::{
    clamp_unit, divide_by_peak, magnitude_of, nearest_index, quotient, UNIT,
};
use crate::decimal::push_decimal;
use crate::mode::Mode;
use crate::waveform::{
    anchored, dragged, drag_index, effective_len, exported, in_range, lemma_edits_keep_anchors,
    lemma_edits_keep_range, lemma_peak_bounds, lemma_scaled, peak, resized, scaled, wiped,
    MIN_SAMPLES,
};

verus! {

/// How the last export went.
#[derive(Clone, Copy, Debug, PartialEq, Eq, Structural)]
pub enum ExportStatus {
    /// Nothing has been exported since the editor was made.
    Idle,
    /// The last export reached its file.
    Written,
    /// The last export could not be written.
    Failed,
}

/// A pointer position in data space.
#[derive(Clone, Copy, Debug, PartialEq, Eq, Structural)]
pub struct Pointer {
    /// Position along the waveform, in steps of one `UNIT`-th of a sample.
    pub x: i64,
    /// Amplitude, in steps.
    pub y: i64,
}

/// The part of data space the plot shows.
#[derive(Clone, Copy, Debug, PartialEq, Eq, Structural)]
pub struct Viewport {
    /// First sample position shown.
    pub x_min: usize,
    /// Last sample position shown.
    pub x_max: usize,
    /// Lowest amplitude shown, in steps.
    pub y_min: i64,
    /// Highest amplitude shown, in steps.
    pub y_max: i64,
}

/// The sample count a fresh editor asks for.
pub const DEFAULT_SAMPLES: i32 = 100;

/// The export path a fresh editor starts with.
pub const DEFAULT_PATH: &'static str = "samples.csv";

/// One waveform session.
#[derive(Debug)]
pub struct Editor {
    /// The sample count the user asked for.
    pub num_samples: i32,
    /// The amplitudes, in steps, in position order.
    pub samples: Vec<i64>,
    /// Where an export goes. Empty means export is switched off.
    pub path: String,
    /// The polarity constraint in force.
    pub mode: Mode,
    /// How the last export went.
    pub status: ExportStatus,
}

/// An editor as contracts see it.
pub struct EditorView {
    /// The sample count the user asked for.
    pub num_samples: int,
    /// The amplitudes, in steps, in position order.
    pub wave: Seq<int>,
    /// The export path.
    pub path: Seq<char>,
    /// The polarity constraint in force.
    pub mode: Mode,
    /// How the last export went.
    pub status: ExportStatus,
}

impl View for Editor {
    type V = EditorView;

    open spec fn view(&self) -> EditorView {
        EditorView {
            num_samples: self.num_samples as int,
            wave: self.samples@.map_values(|v: i64| v as int),
            path: self.path@,
            mode: self.mode,
            status: self.status,
        }
    }
}

/// What the host reports for one update cycle.
#[derive(Debug)]
pub struct FrameInput {
    /// The primary pointer button is held down.
    pub button_down: bool,
    /// Where the pointer is, if it is over the plot.
    pub pointer: Option<Pointer>,
    /// The sample count as the user has edited it.
    pub num_samples: i32,
    /// The mode the user has selected.
    pub mode: Mode,
    /// The export path as the user has edited it.
    pub path: String,
    /// The scale button was clicked.
    pub scale_clicked: bool,
    /// The export button was clicked.
    pub export_clicked: bool,
}

/// A file the host is asked to write, replacing what is there.
#[derive(Debug)]
pub struct ExportRequest {
    /// Where to write.
    pub path: String,
    /// The whole content of the file.
    pub text: String,
}

/// What the host gets back from one update cycle.
#[derive(Debug)]
pub struct FrameOutput {
    /// The part of data space to plot.
    pub viewport: Viewport,
    /// The export to carry out, if one is due.
    pub export: Option<ExportRequest>,
}

/// The waveform one cycle leaves behind: resized to the requested count,
/// wiped for the mode, then edited by the pointer and normalised, each only
/// if the input asks for it.
pub open spec fn stepped(wave: Seq<int>, input: FrameInput) -> Seq<int> {
    let sized = resized(wave, effective_len(input.num_samples as int));
    let wiped = wiped(sized, input.mode.polarity_of());
    let drawn = if input.button_down && input.pointer is Some {
        dragged(wiped, input.pointer.unwrap().x as int, input.pointer.unwrap().y as int)
    } else {
        wiped
    };
    if input.scale_clicked {
        scaled(drawn)
    } else {
        drawn
    }
}

impl EditorView {
    /// What holds of an editor between cycles: the waveform has the length
    /// the count says, which is at least the minimum; every sample is within
    /// full scale; and the boundary samples are zero.
    pub open spec fn settled(self) -> bool {
        &&& self.num_samples >= MIN_SAMPLES
        &&& self.wave.len() == self.num_samples
        &&& in_range(self.wave)
        &&& anchored(self.wave)
    }
}

/// A cycle always leaves the waveform at the effective length. If it found
/// the waveform within full scale it leaves it so, and likewise for the
/// zero boundary samples, whatever the input.
pub proof fn lemma_stepped(wave: Seq<int>, input: FrameInput)
    ensures
        stepped(wave, input).len() == effective_len(input.num_samples as int),
        in_range(wave) ==> in_range(stepped(wave, input)),
        anchored(wave) ==> anchored(stepped(wave, input)),
{
    let len = effective_len(input.num_samples as int);
    let polarity = input.mode.polarity_of();
    let sized = resized(wave, len);
    let wiped = wiped(sized, polarity);
    let (x, y) = if input.pointer is Some {
        (input.pointer.unwrap().x as int, input.pointer.unwrap().y as int)
    } else {
        (0, 0)
    };
    let drawn = if input.button_down && input.pointer is Some {
        dragged(wiped, x, y)
    } else {
        wiped
    };
    lemma_scaled(drawn);
    if in_range(wave) {
        lemma_edits_keep_range(wave, len, polarity, x, y);
        lemma_edits_keep_range(sized, len, polarity, x, y);
        lemma_edits_keep_range(wiped, len, polarity, x, y);
        lemma_edits_keep_range(drawn, len, polarity, x, y);
    }
    if anchored(wave) {
        lemma_edits_keep_anchors(wave, len, polarity, x, y);
        lemma_edits_keep_anchors(sized, len, polarity, x, y);
        lemma_edits_keep_anchors(wiped, len, polarity, x, y);
        lemma_edits_keep_anchors(drawn, len, polarity, x, y);
    }
}

/// Whether a cycle's input calls for an export: the button was clicked and
/// there is a path to write to.
pub open spec fn export_due(input: FrameInput) -> bool {
    input.export_clicked && input.path@.len() > 0
}

/// The interior index a pointer at `x` edits.
fn drag_target(x: i64, len: usize) -> (i: usize)
    requires
        len >= 3,
    ensures
        i as int == drag_index(x as int, len as int),
        1 <= i <= len - 2,
{
    if x < 0 {
        assert(nearest_index(x as int) <= 0);
        1
    } else {
        let unit: u128 = UNIT as u128;
        let n: u128 = (2 * (x as u128) + unit) / (2 * unit);
        assert(n as int == nearest_index(x as int));
        if n < 1 {
            1
        } else if n > (len - 2) as u128 {
            len - 2
        } else {
            n as usize
        }
    }
}

impl Editor {
    /// A fresh session: the default count of samples, all zero, no
    /// constraint on polarity, and the default export path.
    pub fn new() -> (e: Editor)
        ensures
            e@ == (EditorView {
                num_samples: DEFAULT_SAMPLES as int,
                wave: Seq::new(DEFAULT_SAMPLES as nat, |i: int| 0int),
                path: DEFAULT_PATH@,
                mode: Mode::Biphasic,
                status: ExportStatus::Idle,
            }),
            e@.settled(),
    {
        let mut samples: Vec<i64> = Vec::new();
        samples.resize(DEFAULT_SAMPLES as usize, 0);
        let e = Editor {
            num_samples: DEFAULT_SAMPLES,
            samples,
            path: DEFAULT_PATH.to_owned(),
            mode: Mode::Biphasic,
            status: ExportStatus::Idle,
        };
        assert(e@.wave =~= Seq::new(DEFAULT_SAMPLES as nat, |i: int| 0int));
        e
    }

    /// Runs one update cycle. The user's settings are taken over first. The
    /// waveform is then resized, wiped for the mode, edited by the pointer if
    /// the button is held over the plot, and normalised if that was asked
    /// for. An export is handed back exactly when its button was clicked and
    /// the path is not empty; it carries the waveform as this cycle left it.
    pub fn update(&mut self, input: FrameInput) -> (out: FrameOutput)
        ensures
            final(self)@ == (EditorView {
                num_samples: effective_len(input.num_samples as int),
                wave: stepped(old(self)@.wave, input),
                path: input.path@,
                mode: input.mode,
                status: old(self).status,
            }),
            final(self)@.wave.len() == effective_len(input.num_samples as int),
            in_range(old(self)@.wave) && anchored(old(self)@.wave) ==> final(self)@.settled(),
            out.viewport.x_min == 0,
            out.viewport.x_max == final(self)@.wave.len(),
            out.viewport.y_min as int == input.mode.polarity_of().y_min_of(),
            out.viewport.y_max as int == input.mode.polarity_of().y_max_of(),
            out.export is Some <==> export_due(input),
            out.export matches Some(request) ==> request.path@ == input.path@ && request.text@
                == exported(final(self)@.wave),
    {
        let FrameInput { button_down, pointer, num_samples, mode, path, scale_clicked, export_clicked } =
            input;
        self.num_samples = num_samples;
        self.mode = mode;
        self.path = path;
        self.truncate_samples();
        self.wipe_on_mode();
        self.drag(button_down, pointer);
        if scale_clicked {
            self.scale_samples();
        }
        proof {
            lemma_stepped(old(self)@.wave, input);
        }
        let export = if export_clicked && !self.path.as_str().is_empty() {
            Some(ExportRequest { path: self.path.clone(), text: self.export_text() })
        } else {
            None
        };
        FrameOutput { viewport: self.viewport(), export }
    }

    /// Brings the waveform to the requested length. A request below the
    /// minimum is first raised to it, in place. Cutting anchors the new last
    /// sample at zero; padding appends zeros.
    pub fn truncate_samples(&mut self)
        ensures
            final(self)@ == (EditorView {
                num_samples: effective_len(old(self)@.num_samples),
                wave: resized(old(self)@.wave, effective_len(old(self)@.num_samples)),
                ..old(self)@
            }),
            final(self)@.wave.len() == effective_len(old(self)@.num_samples),
            old(self).num_samples < MIN_SAMPLES ==> final(self)@.wave.len() == MIN_SAMPLES,
            old(self).num_samples >= MIN_SAMPLES ==> final(self)@.wave.len() == old(
                self,
            ).num_samples,
            final(self)@.wave.len() < old(self)@.wave.len() ==> final(self)@.wave.last() == 0,
    {
        if self.num_samples < MIN_SAMPLES {
            self.num_samples = MIN_SAMPLES;
        }
        let target = self.num_samples as usize;
        if target < self.samples.len() {
            self.samples.truncate(target);
            self.samples.set(target - 1, 0);
        } else {
            self.samples.resize(target, 0);
        }
        assert(self@.wave =~= resized(old(self)@.wave, effective_len(old(self)@.num_samples)));
    }

    /// Sets every sample whose sign the mode forbids to zero.
    pub fn wipe_on_mode(&mut self)
        ensures
            final(self)@ == (EditorView {
                wave: wiped(old(self)@.wave, old(self).mode.polarity_of()),
                ..old(self)@
            }),
            old(self).mode == Mode::Negative ==> forall|i: int|
                0 <= i < final(self)@.wave.len() ==> #[trigger] final(self)@.wave[i] <= 0,
            old(self).mode == Mode::Positive ==> forall|i: int|
                0 <= i < final(self)@.wave.len() ==> #[trigger] final(self)@.wave[i] >= 0,
            old(self).mode == Mode::Biphasic ==> final(self)@ == old(self)@,
    {
        let polarity = self.mode.polarity();
        let n = self.samples.len();
        let mut i: usize = 0;
        while i < n
            invariant
                i <= n,
                n == self.samples.len(),
                n == old(self).samples.len(),
                polarity == old(self).mode.polarity_of(),
                self.num_samples == old(self).num_samples,
                self.path == old(self).path,
                self.mode == old(self).mode,
                self.status == old(self).status,
                forall|j: int|
                    0 <= j < i ==> #[trigger] self.samples[j] as int == polarity.constrained(
                        old(self).samples[j] as int,
                    ),
                forall|j: int| i <= j < n ==> #[trigger] self.samples[j] == old(self).samples[j],
            decreases n - i,
        {
            let v = self.samples[i];
            self.samples.set(i, polarity.constrain(v));
            i += 1;
        }
        assert(self@.wave =~= wiped(old(self)@.wave, polarity));
        assert(old(self).mode == Mode::Biphasic ==> self@.wave =~= old(self)@.wave);
    }

    /// Applies one cycle's pointer report. While the primary button is held
    /// and the pointer is over the plot, the interior sample nearest to the
    /// pointer takes the pointer's amplitude, limited to full scale.
    /// Otherwise, and in a waveform with no interior, nothing changes.
    pub fn drag(&mut self, button_down: bool, pointer: Option<Pointer>)
        ensures
            final(self)@ == (EditorView {
                wave: if button_down && pointer is Some {
                    dragged(old(self)@.wave, pointer.unwrap().x as int, pointer.unwrap().y as int)
                } else {
                    old(self)@.wave
                },
                ..old(self)@
            }),
    {
        if !button_down {
            return ;
        }
        match pointer {
            None => {},
            Some(p) => {
                let len = self.samples.len();
                if len >= 3 {
                    let i = drag_target(p.x, len);
                    self.samples.set(i, clamp_unit(p.y));
                }
                assert(self@.wave =~= dragged(old(self)@.wave, p.x as int, p.y as int));
            },
        }
    }

    /// The largest magnitude among the samples; zero where there are none.
    pub fn peak(&self) -> (m: u64)
        ensures
            m as int == peak(self@.wave),
    {
        let n = self.samples.len();
        let mut m: u64 = 0;
        let mut i: usize = 0;
        while i < n
            invariant
                i <= n,
                n == self.samples.len(),
                m as int == peak(self@.wave.subrange(0, i as int)),
            decreases n - i,
        {
            assert(self@.wave.subrange(0, i + 1).drop_last() =~= self@.wave.subrange(0, i as int));
            let a = magnitude_of(self.samples[i]);
            if a > m {
                m = a;
            }
            i += 1;
        }
        assert(self@.wave.subrange(0, n as int) =~= self@.wave);
        m
    }

    /// Normalises the waveform to its peak: every interior sample is divided
    /// by the largest magnitude present, so that an interior sample holding
    /// it ends at full scale. The boundary samples keep their values. A
    /// waveform that is empty or all zero is left alone.
    pub fn scale_samples(&mut self)
        ensures
            final(self)@ == (EditorView { wave: scaled(old(self)@.wave), ..old(self)@ }),
    {
        let m = self.peak();
        if m == 0 {
            return ;
        }
        let n = self.samples.len();
        if n < 3 {
            assert(self@.wave =~= scaled(self@.wave));
            return ;
        }
        let mut i: usize = 1;
        while i < n - 1
            invariant
                1 <= i <= n - 1,
                n == self.samples.len(),
                n == old(self).samples.len(),
                m > 0,
                m as int == peak(old(self)@.wave),
                self.num_samples == old(self).num_samples,
                self.path == old(self).path,
                self.mode == old(self).mode,
                self.status == old(self).status,
                forall|j: int|
                    0 < j < i ==> #[trigger] self.samples[j] as int == quotient(
                        old(self).samples[j] as int,
                        m as int,
                    ),
                forall|j: int|
                    0 <= j < n && !(0 < j < i) ==> #[trigger] self.samples[j] == old(
                        self,
                    ).samples[j],
            decreases n - i,
        {
            let v = self.samples[i];
            proof {
                lemma_peak_bounds(old(self)@.wave, i as int);
            }
            self.samples.set(i, divide_by_peak(v, m));
            i += 1;
        }
        assert(self@.wave =~= scaled(old(self)@.wave));
    }

    /// The part of data space to plot: every sample position, and the
    /// amplitudes the mode allows with headroom.
    pub fn viewport(&self) -> (v: Viewport)
        ensures
            v.x_min == 0,
            v.x_max == self@.wave.len(),
            v.y_min as int == self.mode.polarity_of().y_min_of(),
            v.y_max as int == self.mode.polarity_of().y_max_of(),
    {
        let polarity = self.mode.polarity();
        Viewport {
            x_min: 0,
            x_max: self.samples.len(),
            y_min: polarity.y_min(),
            y_max: polarity.y_max(),
        }
    }

    /// The export text: every sample's decimal text followed by a comma, in
    /// position order, and nothing else.
    pub fn export_text(&self) -> (text: String)
        ensures
            text@ == exported(self@.wave),
    {
        let mut text = String::new();
        let n = self.samples.len();
        let mut i: usize = 0;
        proof {
            reveal_strlit(",");
        }
        while i < n
            invariant
                i <= n,
                n == self.samples.len(),
                ","@ == seq![','],
                text@ == exported(self@.wave.subrange(0, i as int)),
            decreases n - i,
        {
            assert(self@.wave.subrange(0, i + 1).drop_last() =~= self@.wave.subrange(0, i as int));
            push_decimal(&mut text, self.samples[i]);
            text.append(",");
            i += 1;
        }
        assert(self@.wave.subrange(0, n as int) =~= self@.wave);
        text
    }

    /// Takes note of how an export went. The waveform and the settings are
    /// not touched, whichever way it went.
    pub fn export_finished(&mut self, written: bool)
        ensures
            final(self)@ == (EditorView {
                status: if written {
                    ExportStatus::Written
                } else {
                    ExportStatus::Failed
                },
                ..old(self)@
            }),
    {
        self.status = if written {
            ExportStatus::Written
        } else {
            ExportStatus::Failed
        };
    }
}

} // verus!
