use jevkit::{
    check_choice, check_noul, check_score, find_choice_problem, find_noul_problem,
    find_score_problem, Choice, ChoiceOption, ChoiceSpec, Noul, NoulSpec, Score,
    ScoreLevel, ScoreSpec, SpecError,
};

#[derive(Debug, Clone, Copy, PartialEq, Eq, Hash)]
enum Team {
    Billing,
    TechnicalSupport,
    Other,
}

impl Choice for Team {
    const SPEC: ChoiceSpec = ChoiceSpec {
        name: "Team",
        question: " Which team should handle this? Pick the closest match.",
        options: &[
            ChoiceOption { label: "Billing", description: " Payments" },
            ChoiceOption { label: "TechnicalSupport", description: "" },
            ChoiceOption { label: "misc", description: "Everything else" },
        ],
    };

    fn label(&self) -> &'static str {
        match self {
            Team::Billing => "Billing",
            Team::TechnicalSupport => "TechnicalSupport",
            Team::Other => "misc",
        }
    }

    fn from_label(label: &str) -> Option<Self> {
        match label {
            "Billing" => Some(Team::Billing),
            "TechnicalSupport" => Some(Team::TechnicalSupport),
            "misc" => Some(Team::Other),
            _ => None,
        }
    }
}

#[derive(Debug, Clone, Copy, PartialEq, Eq, Hash, PartialOrd, Ord)]
enum Frustration {
    Calm,
    Annoyed,
    Furious,
}

impl Score for Frustration {
    const SPEC: ScoreSpec = ScoreSpec {
        name: "frustration",
        question: " How frustrated is the customer?",
        levels: &[
            ScoreLevel { name: "Calm", description: "" },
            ScoreLevel { name: "Annoyed", description: "Visibly annoyed" },
            ScoreLevel { name: "Furious", description: "" },
        ],
    };

    fn index(&self) -> usize {
        *self as usize
    }

    fn from_index(index: usize) -> Option<Self> {
        [Frustration::Calm, Frustration::Annoyed, Frustration::Furious].get(index).copied()
    }
}

#[derive(Debug, Clone, Copy, PartialEq, Eq, Hash)]
enum Urgent {
    Yes,
    No,
}

impl Noul for Urgent {
    const SPEC: NoulSpec = NoulSpec {
        name: "urgent",
        question: " Is this urgent?",
        yes: " There is a deadline",
        no: " Routine",
    };

    fn as_bool(&self) -> bool {
        matches!(self, Urgent::Yes)
    }

    fn from_bool(value: bool) -> Self {
        if value {
            Urgent::Yes
        } else {
            Urgent::No
        }
    }
}

#[derive(Debug, Clone, Copy, PartialEq, Eq, Hash)]
enum Spam {
    Ham,
    Junk,
}

impl Noul for Spam {
    const SPEC: NoulSpec = NoulSpec { name: "Spam", question: " Is this spam?", yes: "", no: "" };

    fn as_bool(&self) -> bool {
        matches!(self, Spam::Junk)
    }

    fn from_bool(value: bool) -> Self {
        if value {
            Spam::Junk
        } else {
            Spam::Ham
        }
    }
}

#[test]
fn noul_specs_in_either_order() {
    let s = Urgent::SPEC;
    assert_eq!(
        (s.name(), s.yes(), s.no()),
        ("urgent", "There is a deadline", "Routine")
    );
    assert!(Urgent::Yes.as_bool());
    assert_eq!(Urgent::from_bool(false), Urgent::No);

    assert_eq!(Spam::SPEC.name(), "Spam");
    assert_eq!((Spam::SPEC.yes(), Spam::SPEC.no()), ("", ""));
    assert!(Spam::Junk.as_bool());
    assert_eq!(Spam::from_bool(false), Spam::Ham);
}

#[test]
fn choice_spec_uses_docs_labels_and_fallbacks() {
    let spec = Team::SPEC;
    assert_eq!(spec.name(), "Team");
    assert_eq!(
        spec.question(),
        "Which team should handle this? Pick the closest match."
    );
    let labels: Vec<_> = spec.options().iter().map(|o| o.label()).collect();
    assert_eq!(labels, ["Billing", "TechnicalSupport", "misc"]);
    assert_eq!(spec.options()[0].description(), "Payments");
    assert_eq!(spec.options()[1].description(), "TechnicalSupport");
    assert_eq!(spec.options()[2].description(), "Everything else");
}

#[test]
fn spec_is_const_usable() {
    const SPEC: ChoiceSpec = Team::SPEC;
    assert_eq!(SPEC.options().len(), 3);
}

#[test]
fn score_levels_fall_back_to_their_names() {
    let spec = Frustration::SPEC;
    assert_eq!(spec.name(), "frustration");
    assert_eq!(spec.question(), "How frustrated is the customer?");
    let descriptions: Vec<_> = spec.levels().iter().map(|l| l.description()).collect();
    assert_eq!(descriptions, ["Calm", "Visibly annoyed", "Furious"]);
    assert_eq!(spec.levels()[1].name(), "Annoyed");
    assert_eq!(Frustration::Furious.index(), 2);
    assert_eq!(Frustration::from_index(1), Some(Frustration::Annoyed));
    assert_eq!(Frustration::from_index(3), None);
}

#[test]
fn constructors_keep_their_fields() {
    let o = ChoiceOption::new("a", "  meaning \n");
    assert_eq!(o, ChoiceOption { label: "a", description: "  meaning \n" });
    assert_eq!(o.description(), "meaning");
    let l = ScoreLevel::new("Low", "\u{a0}\u{2003} ");
    assert_eq!(l.description(), "Low");
    const OPTIONS: &[ChoiceOption] = &[ChoiceOption { label: "x", description: "" }];
    let c = ChoiceSpec::new("n", "q", OPTIONS);
    assert_eq!(c.options().len(), 1);
    let s = ScoreSpec::new("n", "\tq\t", &[]);
    assert_eq!(s.question(), "q");
    let n = NoulSpec::new("n", "q", " y ", "");
    assert_eq!((n.yes(), n.no()), ("y", ""));
}

#[test]
fn valid_specs_pass_the_checks() {
    assert_eq!(find_choice_problem(&Team::SPEC), Ok(()));
    check_choice(&Team::SPEC);
    check_score(&Frustration::SPEC);
    check_noul(&Urgent::SPEC);
    assert_eq!(find_score_problem(&Frustration::SPEC), Ok(()));
    assert_eq!(find_noul_problem(&Urgent::SPEC), Ok(()));
    assert_eq!(find_noul_problem(&Spam::SPEC), Ok(()));
}

#[test]
fn choice_check_reports_the_first_problem() {
    const ONE: &[ChoiceOption] = &[ChoiceOption { label: "A", description: "" }];
    assert_eq!(
        find_choice_problem(&ChoiceSpec::new("Pick", " Pick one", ONE)),
        Err(SpecError::OptionCount { found: 1 })
    );
    const DUPES: &[ChoiceOption] = &[
        ChoiceOption { label: "x", description: "" },
        ChoiceOption { label: "y", description: "" },
        ChoiceOption { label: "x", description: "" },
    ];
    assert_eq!(
        find_choice_problem(&ChoiceSpec::new("Dupes", "Pick one", DUPES)),
        Err(SpecError::DuplicateLabel { first: 0, second: 2 })
    );
    const BLANK: &[ChoiceOption] = &[
        ChoiceOption { label: "x", description: "" },
        ChoiceOption { label: " \t", description: "" },
    ];
    assert_eq!(
        find_choice_problem(&ChoiceSpec::new("Blank", "Pick one", BLANK)),
        Err(SpecError::EmptyLabel { index: 1 })
    );
    assert_eq!(
        find_choice_problem(&ChoiceSpec::new("NoQuestion", "", DUPES)),
        Err(SpecError::MissingQuestion)
    );
    assert_eq!(
        find_choice_problem(&ChoiceSpec::new(" ", "q", DUPES)),
        Err(SpecError::MissingName)
    );
}

#[test]
fn score_and_noul_checks() {
    const ONE: &[ScoreLevel] = &[ScoreLevel { name: "Only", description: "" }];
    assert_eq!(
        find_score_problem(&ScoreSpec::new("One", "Too few", ONE)),
        Err(SpecError::LevelCount { found: 1 })
    );
    assert_eq!(
        find_noul_problem(&NoulSpec::new("n", "\n\r", "", "")),
        Err(SpecError::MissingQuestion)
    );
}

#[test]
fn descriptions_are_trimmed_of_unicode_white_space() {
    let o = ChoiceOption::new("x", "\u{3000} Payments\u{a0}\u{2028}\n");
    assert_eq!(o.description(), "Payments");
    let blank = ChoiceOption::new("fallback", "\u{85}\u{2000}\t ");
    assert_eq!(blank.description(), "fallback");
    let inner = NoulSpec::new("n", "\u{205f}Is it\u{a0}urgent?\u{202f}", "", "");
    assert_eq!(inner.question(), "Is it\u{a0}urgent?");
    assert_eq!(inner.yes(), "");
}
