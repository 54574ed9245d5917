//! Static descriptions of typed questions, the traits that carry them, and
//! the checks that a description is well formed.

use vstd::prelude::*;
use crate::text::{has_text, has_text_spec, same_text, trim, trimmed};

verus! {

/// Maximum number of options a [`Choice`] may have.
pub const MAX_CHOICE_OPTIONS: usize = 255;

/// Minimum number of levels a [`Score`] may have.
pub const MIN_SCORE_LEVELS: usize = 2;

/// Maximum number of levels a [`Score`] may have.
pub const MAX_SCORE_LEVELS: usize = 10;

/// The text shown for an option or a level: its trimmed description, or
/// `fallback` when the description is blank.
pub open spec fn described(fallback: Seq<char>, description: Seq<char>) -> Seq<char> {
    if trimmed(description).len() == 0 {
        fallback
    } else {
        trimmed(description)
    }
}

/// One option of a [`Choice`] question.
#[derive(Debug, Clone, Copy, PartialEq, Eq)]
pub struct ChoiceOption {
    /// Stable machine label, e.g. `"billing"`.
    pub label: &'static str,
    /// What this option means; may be empty.
    pub description: &'static str,
}

impl ChoiceOption {
    /// Create an option.
    pub fn new(label: &'static str, description: &'static str) -> (r: Self)
        ensures
            r == (ChoiceOption { label, description }),
    {
        ChoiceOption { label, description }
    }

    /// Stable machine label, e.g. `"billing"`.
    pub fn label(&self) -> (r: &'static str)
        ensures
            r == self.label,
    {
        self.label
    }

    /// What this option means, shown to the model. Falls back to the label
    /// when no description was given.
    pub fn description(&self) -> (r: &'static str)
        ensures
            r@ == described(self.label@, self.description@),
    {
        let d = trim(self.description);
        if d.is_empty() {
            self.label
        } else {
            d
        }
    }
}

/// Static description of a [`Choice`] question.
#[derive(Debug, Clone, Copy, PartialEq, Eq)]
pub struct ChoiceSpec {
    /// Question identifier, unique within one request.
    pub name: &'static str,
    /// The question text, untrimmed.
    pub question: &'static str,
    /// The options, in declaration order.
    pub options: &'static [ChoiceOption],
}

impl ChoiceSpec {
    /// Create a spec.
    pub fn new(
        name: &'static str,
        question: &'static str,
        options: &'static [ChoiceOption],
    ) -> (r: Self)
        ensures
            r == (ChoiceSpec { name, question, options }),
    {
        ChoiceSpec { name, question, options }
    }

    /// Question identifier, unique within one request.
    pub fn name(&self) -> (r: &'static str)
        ensures
            r == self.name,
    {
        self.name
    }

    /// The question text.
    pub fn question(&self) -> (r: &'static str)
        ensures
            r@ == trimmed(self.question@),
    {
        trim(self.question)
    }

    /// The options, in declaration order.
    pub fn options(&self) -> (r: &'static [ChoiceOption])
        ensures
            r == self.options,
    {
        self.options
    }
}

/// One level of a [`Score`] question.
#[derive(Debug, Clone, Copy, PartialEq, Eq)]
pub struct ScoreLevel {
    /// The variant name of this level.
    pub name: &'static str,
    /// What this level means; may be empty.
    pub description: &'static str,
}

impl ScoreLevel {
    /// Create a level.
    pub fn new(name: &'static str, description: &'static str) -> (r: Self)
        ensures
            r == (ScoreLevel { name, description }),
    {
        ScoreLevel { name, description }
    }

    /// The variant name of this level.
    pub fn name(&self) -> (r: &'static str)
        ensures
            r == self.name,
    {
        self.name
    }

    /// What this level means, shown to the model. Falls back to the name.
    pub fn description(&self) -> (r: &'static str)
        ensures
            r@ == described(self.name@, self.description@),
    {
        let d = trim(self.description);
        if d.is_empty() {
            self.name
        } else {
            d
        }
    }
}

/// Static description of a [`Score`] question.
#[derive(Debug, Clone, Copy, PartialEq, Eq)]
pub struct ScoreSpec {
    /// Question identifier, unique within one request.
    pub name: &'static str,
    /// The question text, untrimmed.
    pub question: &'static str,
    /// The levels, lowest first.
    pub levels: &'static [ScoreLevel],
}

impl ScoreSpec {
    /// Create a spec.
    pub fn new(
        name: &'static str,
        question: &'static str,
        levels: &'static [ScoreLevel],
    ) -> (r: Self)
        ensures
            r == (ScoreSpec { name, question, levels }),
    {
        ScoreSpec { name, question, levels }
    }

    /// Question identifier, unique within one request.
    pub fn name(&self) -> (r: &'static str)
        ensures
            r == self.name,
    {
        self.name
    }

    /// The question text.
    pub fn question(&self) -> (r: &'static str)
        ensures
            r@ == trimmed(self.question@),
    {
        trim(self.question)
    }

    /// The levels, lowest first.
    pub fn levels(&self) -> (r: &'static [ScoreLevel])
        ensures
            r == self.levels,
    {
        self.levels
    }
}

/// Static description of a [`Noul`] (yes/no) question.
#[derive(Debug, Clone, Copy, PartialEq, Eq)]
pub struct NoulSpec {
    /// Question identifier, unique within one request.
    pub name: &'static str,
    /// The question text, untrimmed.
    pub question: &'static str,
    /// What "yes" means; may be empty.
    pub yes: &'static str,
    /// What "no" means; may be empty.
    pub no: &'static str,
}

impl NoulSpec {
    /// Create a spec.
    pub fn new(
        name: &'static str,
        question: &'static str,
        yes: &'static str,
        no: &'static str,
    ) -> (r: Self)
        ensures
            r == (NoulSpec { name, question, yes, no }),
    {
        NoulSpec { name, question, yes, no }
    }

    /// Question identifier, unique within one request.
    pub fn name(&self) -> (r: &'static str)
        ensures
            r == self.name,
    {
        self.name
    }

    /// The question text.
    pub fn question(&self) -> (r: &'static str)
        ensures
            r@ == trimmed(self.question@),
    {
        trim(self.question)
    }

    /// What "yes" means; empty if not described.
    pub fn yes(&self) -> (r: &'static str)
        ensures
            r@ == trimmed(self.yes@),
    {
        trim(self.yes)
    }

    /// What "no" means; empty if not described.
    pub fn no(&self) -> (r: &'static str)
        ensures
            r@ == trimmed(self.no@),
    {
        trim(self.no)
    }
}

/// A pick-one question, usually an enum with one variant per option.
pub trait Choice: Sized {
    /// The question description to send.
    const SPEC: ChoiceSpec;

    /// The machine label of this value.
    fn label(&self) -> &'static str;

    /// Parse a label returned by the API.
    fn from_label(label: &str) -> Option<Self>;
}

/// An ordered rating question; the variants are the levels, lowest first.
pub trait Score: Sized {
    /// The question description to send.
    const SPEC: ScoreSpec;

    /// Zero-based level index of this value.
    fn index(&self) -> usize;

    /// Build a value from a zero-based level index.
    fn from_index(index: usize) -> Option<Self>;
}

/// A yes/no question.
pub trait Noul: Sized {
    /// The question description to send.
    const SPEC: NoulSpec;

    /// `true` for the "yes" variant.
    fn as_bool(&self) -> bool;

    /// Build the "yes" variant from `true`, the "no" variant from `false`.
    fn from_bool(value: bool) -> Self;
}

/// Why a question description is not well formed.
#[derive(Debug, Clone, Copy, PartialEq, Eq)]
pub enum SpecError {
    /// The question name is empty or blank.
    MissingName,
    /// The question text is empty or blank.
    MissingQuestion,
    /// A choice has fewer than 2 or more than 255 options.
    OptionCount {
        /// Options found.
        found: usize,
    },
    /// A choice label is empty or blank.
    EmptyLabel {
        /// Position of the option.
        index: usize,
    },
    /// Two options share a label.
    DuplicateLabel {
        /// Position of the first option with the label.
        first: usize,
        /// Position of the next option with the same label.
        second: usize,
    },
    /// A score has fewer than 2 or more than 10 levels.
    LevelCount {
        /// Levels found.
        found: usize,
    },
}

/// The first problem with a question's name and text, if any.
pub open spec fn question_problem(name: Seq<char>, question: Seq<char>) -> Option<SpecError> {
    if !has_text_spec(name) {
        Some(SpecError::MissingName)
    } else if !has_text_spec(question) {
        Some(SpecError::MissingQuestion)
    } else {
        None
    }
}

/// The labels of `options`, in order.
pub open spec fn option_labels(options: Seq<ChoiceOption>) -> Seq<Seq<char>> {
    options.map_values(|o: ChoiceOption| o.label@)
}

/// The first position `k >= j` whose label repeats the label at `i`.
pub open spec fn repeat_from(labels: Seq<Seq<char>>, i: int, j: int) -> Option<int>
    decreases labels.len() - j,
{
    if j >= labels.len() || j < 0 {
        None
    } else if labels[j] == labels[i] {
        Some(j)
    } else {
        repeat_from(labels, i, j + 1)
    }
}

/// The problem with the label at `i`: blank, or repeated later on.
pub open spec fn label_problem(labels: Seq<Seq<char>>, i: int) -> Option<SpecError> {
    if !has_text_spec(labels[i]) {
        Some(SpecError::EmptyLabel { index: i as usize })
    } else {
        match repeat_from(labels, i, i + 1) {
            Some(j) => Some(SpecError::DuplicateLabel { first: i as usize, second: j as usize }),
            None => None,
        }
    }
}

/// The first label problem at a position `>= i`.
pub open spec fn labels_problem(labels: Seq<Seq<char>>, i: int) -> Option<SpecError>
    decreases labels.len() - i,
{
    if i >= labels.len() || i < 0 {
        None
    } else if label_problem(labels, i) is Some {
        label_problem(labels, i)
    } else {
        labels_problem(labels, i + 1)
    }
}

/// The first problem of a choice description, in the order the checks run.
pub open spec fn choice_problem(spec: ChoiceSpec) -> Option<SpecError> {
    let n = spec.options@.len();
    if question_problem(spec.name@, spec.question@) is Some {
        question_problem(spec.name@, spec.question@)
    } else if n < 2 || n > MAX_CHOICE_OPTIONS {
        Some(SpecError::OptionCount { found: n as usize })
    } else {
        labels_problem(option_labels(spec.options@), 0)
    }
}

/// The first problem of a score description.
pub open spec fn score_problem(spec: ScoreSpec) -> Option<SpecError> {
    let n = spec.levels@.len();
    if question_problem(spec.name@, spec.question@) is Some {
        question_problem(spec.name@, spec.question@)
    } else if n < MIN_SCORE_LEVELS || n > MAX_SCORE_LEVELS {
        Some(SpecError::LevelCount { found: n as usize })
    } else {
        None
    }
}

/// A well-formed choice description: a name and a question with text,
/// 2 to 255 options, every label with text, no label twice.
pub open spec fn choice_spec_valid(spec: ChoiceSpec) -> bool {
    let labels = option_labels(spec.options@);
    &&& has_text_spec(spec.name@)
    &&& has_text_spec(spec.question@)
    &&& 2 <= labels.len() <= MAX_CHOICE_OPTIONS
    &&& forall|i: int| 0 <= i < labels.len() ==> has_text_spec(#[trigger] labels[i])
    &&& forall|i: int, j: int| 0 <= i < j < labels.len() ==> labels[i] != labels[j]
}

/// A well-formed score description: a name and a question with text,
/// 2 to 10 levels.
pub open spec fn score_spec_valid(spec: ScoreSpec) -> bool {
    &&& has_text_spec(spec.name@)
    &&& has_text_spec(spec.question@)
    &&& MIN_SCORE_LEVELS <= spec.levels@.len() <= MAX_SCORE_LEVELS
}

/// A well-formed yes/no description: a name and a question with text.
pub open spec fn noul_spec_valid(spec: NoulSpec) -> bool {
    has_text_spec(spec.name@) && has_text_spec(spec.question@)
}

/// As a `Result`.
pub open spec fn as_check(problem: Option<SpecError>) -> Result<(), SpecError> {
    match problem {
        Some(e) => Err(e),
        None => Ok(()),
    }
}

proof fn lemma_repeat_from(labels: Seq<Seq<char>>, i: int, j: int)
    requires
        0 <= i < labels.len(),
        0 <= j,
    ensures
        repeat_from(labels, i, j) is None <==> forall|k: int| j <= k < labels.len() ==> labels[k] != labels[i],
        repeat_from(labels, i, j) matches Some(k) ==> j <= k < labels.len() && labels[k] == labels[i],
    decreases labels.len() - j,
{
    if j < labels.len() {
        lemma_repeat_from(labels, i, j + 1);
    }
}

proof fn lemma_labels_problem(labels: Seq<Seq<char>>, i: int)
    requires
        0 <= i <= labels.len(),
    ensures
        labels_problem(labels, i) is None <==> forall|k: int|
            i <= k < labels.len() ==> #[trigger] label_problem(labels, k) is None,
    decreases labels.len() - i,
{
    if i < labels.len() {
        lemma_labels_problem(labels, i + 1);
    }
}

proof fn lemma_choice_problem_valid(spec: ChoiceSpec)
    ensures
        choice_problem(spec) is None <==> choice_spec_valid(spec),
{
    let labels = option_labels(spec.options@);
    let n = labels.len();
    lemma_labels_problem(labels, 0);
    assert forall|k: int| 0 <= k < n implies (#[trigger] label_problem(labels, k) is None <==> (
    has_text_spec(labels[k]) && forall|m: int| k < m < n ==> labels[m] != labels[k])) by {
        lemma_repeat_from(labels, k, k + 1);
    }
    if choice_spec_valid(spec) {
        assert forall|k: int| 0 <= k < n implies #[trigger] label_problem(labels, k) is None by {
            assert forall|m: int| k < m < n implies labels[m] != labels[k] by {
                assert(labels[k] != labels[m]);
            }
        }
    }
    if choice_problem(spec) is None {
        assert forall|a: int, b: int| 0 <= a < b < n implies labels[a] != labels[b] by {
            assert(label_problem(labels, a) is None);
        }
        assert forall|a: int| 0 <= a < n implies has_text_spec(#[trigger] labels[a]) by {
            assert(label_problem(labels, a) is None);
        }
    }
}

fn check_question(name: &str, question: &str) -> (r: Result<(), SpecError>)
    ensures
        r == as_check(question_problem(name@, question@)),
{
    if !has_text(name) {
        return Err(SpecError::MissingName);
    }
    if !has_text(question) {
        return Err(SpecError::MissingQuestion);
    }
    Ok(())
}

/// Look for a problem in a choice description: name and question with
/// text, 2 to 255 options, no blank and no repeated label. Reports the
/// first problem.
pub fn find_choice_problem(spec: &ChoiceSpec) -> (r: Result<(), SpecError>)
    ensures
        r == as_check(choice_problem(*spec)),
        r is Ok <==> choice_spec_valid(*spec),
{
    proof {
        lemma_choice_problem_valid(*spec);
    }
    let q = check_question(spec.name, spec.question);
    if q.is_err() {
        return q;
    }
    let o = spec.options;
    let n = o.len();
    if n < 2 || n > MAX_CHOICE_OPTIONS {
        return Err(SpecError::OptionCount { found: n });
    }
    let ghost labels = option_labels(o@);
    let mut i: usize = 0;
    while i < n
        invariant
            n == o@.len(),
            o == spec.options,
            labels == option_labels(o@),
            i <= n,
            choice_problem(*spec) == labels_problem(labels, 0),
            choice_problem(*spec) is None <==> choice_spec_valid(*spec),
            labels_problem(labels, 0) == labels_problem(labels, i as int),
        decreases n - i,
    {
        assert(labels[i as int] == o@[i as int].label@);
        if !has_text(o[i].label) {
            return Err(SpecError::EmptyLabel { index: i });
        }
        let mut j: usize = i + 1;
        while j < n
            invariant
                n == o@.len(),
                labels == option_labels(o@),
                i < j <= n,
                has_text_spec(labels[i as int]),
                choice_problem(*spec) == labels_problem(labels, 0),
                choice_problem(*spec) is None <==> choice_spec_valid(*spec),
                labels_problem(labels, 0) == labels_problem(labels, i as int),
                repeat_from(labels, i as int, i + 1) == repeat_from(labels, i as int, j as int),
            decreases n - j,
        {
            assert(labels[j as int] == o@[j as int].label@);
            if same_text(o[i].label, o[j].label) {
                return Err(SpecError::DuplicateLabel { first: i, second: j });
            }
            j = j + 1;
        }
        i = i + 1;
    }
    Ok(())
}

/// Look for a problem in a score description: name and question with
/// text, 2 to 10 levels. Reports the first problem.
pub fn find_score_problem(spec: &ScoreSpec) -> (r: Result<(), SpecError>)
    ensures
        r == as_check(score_problem(*spec)),
        r is Ok <==> score_spec_valid(*spec),
{
    let q = check_question(spec.name, spec.question);
    if q.is_err() {
        return q;
    }
    let n = spec.levels.len();
    if n < MIN_SCORE_LEVELS || n > MAX_SCORE_LEVELS {
        return Err(SpecError::LevelCount { found: n });
    }
    Ok(())
}

/// Look for a problem in a yes/no description: name and question with
/// text.
pub fn find_noul_problem(spec: &NoulSpec) -> (r: Result<(), SpecError>)
    ensures
        r == as_check(question_problem(spec.name@, spec.question@)),
        r is Ok <==> noul_spec_valid(*spec),
{
    check_question(spec.name, spec.question)
}

/// The check behind a choice description: only a well-formed one is
/// accepted (a name and a question with text, 2 to 255 options, no blank
/// and no repeated label); any other is refused before it can be used.
pub fn check_choice(spec: &ChoiceSpec)
    requires
        choice_spec_valid(*spec),
{
    let r = find_choice_problem(spec);
    assert(r is Ok);
}

/// The check behind a score description: only one with a name and a
/// question with text and 2 to 10 levels is accepted.
pub fn check_score(spec: &ScoreSpec)
    requires
        score_spec_valid(*spec),
{
    let r = find_score_problem(spec);
    assert(r is Ok);
}

/// The check behind a yes/no description: only one with a name and a
/// question with text is accepted.
pub fn check_noul(spec: &NoulSpec)
    requires
        noul_spec_valid(*spec),
{
    let r = find_noul_problem(spec);
    assert(r is Ok);
}

} // verus!
