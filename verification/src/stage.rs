//! The stages of a job, the presets and the kinds of job, each with the
//! integer by which it is stored.

use vstd::prelude::*;

verus! {

/// Where a job stands. The main chain runs from `Queued` to `Uploaded`;
/// `Failed`, `Declined` and `Cancelled` are ends beside it.
#[derive(Copy, Clone, Debug, PartialEq, Eq, Structural)]
pub enum Stage {
    Queued,
    Downloading,
    Downloaded,
    Encoding,
    Encoded,
    Uploading,
    Uploaded,
    Failed,
    Declined,
    Cancelled,
}

impl Stage {
    /// The integer by which the stage is stored and ordered.
    pub open spec fn ordinal_spec(self) -> int {
        match self {
            Stage::Queued => 0,
            Stage::Downloading => 1,
            Stage::Downloaded => 2,
            Stage::Encoding => 3,
            Stage::Encoded => 4,
            Stage::Uploading => 5,
            Stage::Uploaded => 6,
            Stage::Failed => 7,
            Stage::Declined => 8,
            Stage::Cancelled => 9,
        }
    }

    /// The stage stored as `v`; an integer that names no stage reads as
    /// `Failed`.
    pub open spec fn of_ordinal(v: int) -> Stage {
        if v == 0 {
            Stage::Queued
        } else if v == 1 {
            Stage::Downloading
        } else if v == 2 {
            Stage::Downloaded
        } else if v == 3 {
            Stage::Encoding
        } else if v == 4 {
            Stage::Encoded
        } else if v == 5 {
            Stage::Uploading
        } else if v == 6 {
            Stage::Uploaded
        } else if v == 8 {
            Stage::Declined
        } else if v == 9 {
            Stage::Cancelled
        } else {
            Stage::Failed
        }
    }

    /// No stage follows this one.
    pub open spec fn is_terminal_spec(self) -> bool {
        self == Stage::Uploaded || self == Stage::Failed || self == Stage::Declined || self
            == Stage::Cancelled
    }

    /// The next stage on the main chain.
    pub open spec fn successor_spec(self) -> Option<Stage> {
        match self {
            Stage::Queued => Some(Stage::Downloading),
            Stage::Downloading => Some(Stage::Downloaded),
            Stage::Downloaded => Some(Stage::Encoding),
            Stage::Encoding => Some(Stage::Encoded),
            Stage::Encoded => Some(Stage::Uploading),
            Stage::Uploading => Some(Stage::Uploaded),
            _ => None,
        }
    }

    /// A job may pass from `self` to `to`: one step along the main chain, or
    /// from any stage that is not an end to `Failed` or `Cancelled`, or from
    /// `Queued` to `Declined`.
    pub open spec fn allows_spec(self, to: Stage) -> bool {
        ||| self.successor_spec() == Some(to)
        ||| !self.is_terminal_spec() && (to == Stage::Failed || to == Stage::Cancelled)
        ||| self == Stage::Queued && to == Stage::Declined
    }

    /// The integer by which the stage is stored.
    pub fn ordinal(self) -> (r: i16)
        ensures
            r == self.ordinal_spec(),
    {
        match self {
            Stage::Queued => 0,
            Stage::Downloading => 1,
            Stage::Downloaded => 2,
            Stage::Encoding => 3,
            Stage::Encoded => 4,
            Stage::Uploading => 5,
            Stage::Uploaded => 6,
            Stage::Failed => 7,
            Stage::Declined => 8,
            Stage::Cancelled => 9,
        }
    }

    /// Reads a stored stage.
    pub fn decode(v: i16) -> (r: Stage)
        ensures
            r == Stage::of_ordinal(v as int),
    {
        match v {
            0 => Stage::Queued,
            1 => Stage::Downloading,
            2 => Stage::Downloaded,
            3 => Stage::Encoding,
            4 => Stage::Encoded,
            5 => Stage::Uploading,
            6 => Stage::Uploaded,
            8 => Stage::Declined,
            9 => Stage::Cancelled,
            _ => Stage::Failed,
        }
    }

    /// Whether no stage follows this one.
    #[verifier::when_used_as_spec(is_terminal_spec)]
    pub fn is_terminal(self) -> (r: bool)
        ensures
            r == self.is_terminal_spec(),
    {
        match self {
            Stage::Uploaded | Stage::Failed | Stage::Declined | Stage::Cancelled => true,
            _ => false,
        }
    }

    /// The next stage on the main chain, if there is one.
    #[verifier::when_used_as_spec(successor_spec)]
    pub fn successor(self) -> (r: Option<Stage>)
        ensures
            r == self.successor_spec(),
    {
        match self {
            Stage::Queued => Some(Stage::Downloading),
            Stage::Downloading => Some(Stage::Downloaded),
            Stage::Downloaded => Some(Stage::Encoding),
            Stage::Encoding => Some(Stage::Encoded),
            Stage::Encoded => Some(Stage::Uploading),
            Stage::Uploading => Some(Stage::Uploaded),
            _ => None,
        }
    }

    /// Whether a job may pass from this stage to `to`.
    #[verifier::when_used_as_spec(allows_spec)]
    pub fn allows(self, to: Stage) -> (r: bool)
        ensures
            r == self.allows_spec(to),
    {
        if self.successor() == Some(to) {
            true
        } else if !self.is_terminal() && (to == Stage::Failed || to == Stage::Cancelled) {
            true
        } else {
            self == Stage::Queued && to == Stage::Declined
        }
    }
}

/// Each stage in `path` is allowed after the one before it.
pub open spec fn follows_stages(path: Seq<Stage>) -> bool {
    forall|i: int| 0 <= i < path.len() - 1 ==> (#[trigger] path[i]).allows_spec(path[i + 1])
}

/// Reading a stored stage gives the stage.
pub proof fn lemma_stage_ordinal_round_trip(stage: Stage)
    ensures
        0 <= stage.ordinal_spec() <= 9,
        Stage::of_ordinal(stage.ordinal_spec()) == stage,
{
}

/// Every allowed step goes to a stage with a larger ordinal, and none leaves an
/// end.
pub proof fn lemma_step_increases(from: Stage, to: Stage)
    requires
        from.allows_spec(to),
    ensures
        from.ordinal_spec() < to.ordinal_spec(),
        !from.is_terminal_spec(),
{
}

/// Along a path of allowed steps the ordinals increase, so that no stage
/// occurs twice and nothing follows an end.
pub proof fn lemma_path_is_monotone(path: Seq<Stage>, i: int, j: int)
    requires
        follows_stages(path),
        0 <= i < j < path.len(),
    ensures
        path[i].ordinal_spec() < path[j].ordinal_spec(),
        path[i] != path[j],
        !path[i].is_terminal_spec(),
    decreases j - i,
{
    lemma_step_increases(path[i], path[i + 1]);
    if i + 1 < j {
        lemma_path_is_monotone(path, i + 1, j);
    }
}

/// An encoder preset, with the optional id of an intro clip to put in front.
#[derive(Copy, Clone, Debug, PartialEq, Eq, Structural)]
pub enum Preset {
    PseudoLossless(Option<i16>),
    Standard(Option<i16>),
    Gpu(Option<i16>),
}

impl Preset {
    /// The id of the intro clip, if the preset asks for one.
    pub open spec fn concat_spec(self) -> Option<i16> {
        match self {
            Preset::PseudoLossless(c) => c,
            Preset::Standard(c) => c,
            Preset::Gpu(c) => c,
        }
    }

    /// The integer by which the kind of preset is stored.
    pub open spec fn kind_spec(self) -> i16 {
        match self {
            Preset::PseudoLossless(_) => 0,
            Preset::Standard(_) => 1,
            Preset::Gpu(_) => 2,
        }
    }

    /// The preset stored as `kind` and `concat`; a kind that names no preset
    /// reads as `Standard` with the intro id 0.
    pub open spec fn decoded(kind: i16, concat: Option<i16>) -> Preset {
        if kind == 0 {
            Preset::PseudoLossless(concat)
        } else if kind == 1 {
            Preset::Standard(concat)
        } else if kind == 2 {
            Preset::Gpu(concat)
        } else {
            Preset::Standard(Some(0i16))
        }
    }

    /// The id of the intro clip, if the preset asks for one.
    #[verifier::when_used_as_spec(concat_spec)]
    pub fn concat(self) -> (r: Option<i16>)
        ensures
            r == self.concat_spec(),
    {
        match self {
            Preset::PseudoLossless(c) => c,
            Preset::Standard(c) => c,
            Preset::Gpu(c) => c,
        }
    }

    /// The stored form of the preset: its kind and its intro id.
    pub fn encode_preset(&self) -> (r: (i16, Option<i16>))
        ensures
            r.0 == self.kind_spec(),
            r.1 == self.concat_spec(),
    {
        match self {
            Preset::PseudoLossless(i) => (0, *i),
            Preset::Standard(i) => (1, *i),
            Preset::Gpu(i) => (2, *i),
        }
    }

    /// Reads a stored preset.
    pub fn decode_preset(preset: i16, concat: Option<i16>) -> (r: Preset)
        ensures
            r == Preset::decoded(preset, concat),
    {
        match preset {
            0 => Preset::PseudoLossless(concat),
            1 => Preset::Standard(concat),
            2 => Preset::Gpu(concat),
            _ => Preset::Standard(Some(0)),
        }
    }
}

/// Reading a stored preset gives the preset.
pub proof fn lemma_preset_round_trip(preset: Preset)
    ensures
        Preset::decoded(preset.kind_spec(), preset.concat_spec()) == preset,
{
}

/// The kind of work that a job asks for.
#[derive(Copy, Clone, Debug, PartialEq, Eq, Structural)]
pub enum JobType {
    Encode,
}

impl JobType {
    /// The integer by which the kind of job is stored.
    pub fn code(self) -> (r: i16)
        ensures
            r == 1,
    {
        1
    }

    /// Reads a stored kind of job. There is one kind, and every integer reads as
    /// it.
    pub fn decode_job_type(job_type: i16) -> (r: JobType)
        ensures
            r == JobType::Encode,
    {
        match job_type {
            1 => JobType::Encode,
            _ => JobType::Encode,
        }
    }
}

} // verus!
