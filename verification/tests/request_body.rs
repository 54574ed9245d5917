use jevkit::{
    Choice, ChoiceOption, ChoiceSpec, Error, Noul, NoulSpec, Request, Score, ScoreLevel, ScoreSpec,
};
use serde_json::Value;

#[derive(Debug, Clone, Copy, PartialEq, Eq, Hash)]
enum Department {
    Billing,
    Technical,
    Sales,
}

impl Choice for Department {
    const SPEC: ChoiceSpec = ChoiceSpec {
        name: "department",
        question: " Which team should handle this?",
        options: &[
            ChoiceOption { label: "billing", description: " Payments, invoicing, refunds" },
            ChoiceOption { label: "technical", description: " Bugs, outages, integrations" },
            ChoiceOption { label: "sales", description: " Pricing, upgrades, new accounts" },
        ],
    };

    fn label(&self) -> &'static str {
        match self {
            Department::Billing => "billing",
            Department::Technical => "technical",
            Department::Sales => "sales",
        }
    }

    fn from_label(label: &str) -> Option<Self> {
        match label {
            "billing" => Some(Department::Billing),
            "technical" => Some(Department::Technical),
            "sales" => Some(Department::Sales),
            _ => None,
        }
    }
}

#[derive(Debug, Clone, Copy, PartialEq, Eq, Hash)]
enum Frustration {
    Calm,
    Frustrated,
    Angry,
}

impl Score for Frustration {
    const SPEC: ScoreSpec = ScoreSpec {
        name: "frustration",
        question: " How frustrated is the customer?",
        levels: &[
            ScoreLevel { name: "Calm", description: "" },
            ScoreLevel { name: "Frustrated", description: "" },
            ScoreLevel { name: "Angry", description: "Very angry" },
        ],
    };

    fn index(&self) -> usize {
        *self as usize
    }

    fn from_index(index: usize) -> Option<Self> {
        [Frustration::Calm, Frustration::Frustrated, Frustration::Angry].get(index).copied()
    }
}

#[derive(Debug, Clone, Copy, PartialEq, Eq, Hash)]
enum Urgent {
    Yes,
    No,
}

impl Noul for Urgent {
    const SPEC: NoulSpec = NoulSpec {
        name: "is_urgent",
        question: " Does this convey urgency?",
        yes: " Explicitly time-sensitive",
        no: " No urgency expressed",
    };

    fn as_bool(&self) -> bool {
        matches!(self, Urgent::Yes)
    }

    fn from_bool(value: bool) -> Self {
        if value {
            Urgent::Yes
        } else {
            Urgent::No
        }
    }
}

#[derive(Debug, Clone, Copy, PartialEq, Eq, Hash)]
enum Bare {
    Yes,
    No,
}

impl Noul for Bare {
    const SPEC: NoulSpec = NoulSpec { name: "bare", question: "Is it?", yes: "", no: " " };

    fn as_bool(&self) -> bool {
        matches!(self, Bare::Yes)
    }

    fn from_bool(value: bool) -> Self {
        if value {
            Bare::Yes
        } else {
            Bare::No
        }
    }
}

#[derive(Debug, Clone, Copy, PartialEq, Eq, Hash)]
enum Lonely {
    Only,
}

impl Choice for Lonely {
    const SPEC: ChoiceSpec = ChoiceSpec {
        name: "lonely",
        question: "Pick",
        options: &[ChoiceOption { label: "only", description: "" }],
    };

    fn label(&self) -> &'static str {
        "only"
    }

    fn from_label(label: &str) -> Option<Self> {
        if label == "only" {
            Some(Lonely::Only)
        } else {
            None
        }
    }
}

#[derive(Debug, Clone, Copy, PartialEq, Eq, Hash)]
enum Repeats {
    A,
    B,
}

impl Choice for Repeats {
    const SPEC: ChoiceSpec = ChoiceSpec {
        name: "repeats",
        question: "Pick",
        options: &[
            ChoiceOption { label: "a", description: "first" },
            ChoiceOption { label: "b", description: "" },
            ChoiceOption { label: "a", description: "again" },
        ],
    };

    fn label(&self) -> &'static str {
        match self {
            Repeats::A => "a",
            Repeats::B => "b",
        }
    }

    fn from_label(label: &str) -> Option<Self> {
        match label {
            "a" => Some(Repeats::A),
            "b" => Some(Repeats::B),
            _ => None,
        }
    }
}

fn full_request() -> Request {
    Request::new("Help! My payouts have been failing for 3 days.".into())
        .choice::<Department>()
        .score::<Frustration>()
        .noul::<Urgent>()
}

fn json(text: &str) -> Value {
    serde_json::from_str(text).unwrap()
}

#[test]
fn request_body_matches_the_documented_wire_format() {
    let body = full_request().to_json("jev-latest").unwrap();
    let got: Value = serde_json::from_slice(&body).unwrap();
    let want = json(
        r#"{
        "state": "Help! My payouts have been failing for 3 days.",
        "model": "jev-latest",
        "questions": {
            "department": {
                "type": "choice",
                "instructions": "Which team should handle this?",
                "criteria": {
                    "billing": "Payments, invoicing, refunds",
                    "technical": "Bugs, outages, integrations",
                    "sales": "Pricing, upgrades, new accounts"
                }
            },
            "frustration": {
                "type": "score",
                "instructions": "How frustrated is the customer?",
                "criteria": ["Calm", "Frustrated", "Very angry"]
            },
            "is_urgent": {
                "type": "noul",
                "instructions": "Does this convey urgency?",
                "criteria": {"true": "Explicitly time-sensitive", "false": "No urgency expressed"}
            }
        }
    }"#,
    );
    assert_eq!(got, want);
}

#[test]
fn request_body_is_compact_json_with_keys_in_order() {
    let body = Request::new("s".into()).noul::<Urgent>().to_json("m").unwrap();
    assert_eq!(
        String::from_utf8(body).unwrap(),
        r#"{"state":"s","model":"m","questions":{"is_urgent":{"type":"noul","instructions":"Does this convey urgency?","criteria":{"true":"Explicitly time-sensitive","false":"No urgency expressed"}}}}"#
    );
}

#[test]
fn declared_order_is_preserved_on_the_wire() {
    let body = String::from_utf8(full_request().to_json("m").unwrap()).unwrap();
    let (b, t, s) = (
        body.find("\"billing\"").unwrap(),
        body.find("\"technical\"").unwrap(),
        body.find("\"sales\"").unwrap(),
    );
    assert!(b < t && t < s);
    let ids: Vec<_> = full_request().question_ids();
    assert_eq!(ids, ["department", "frustration", "is_urgent"]);
}

#[test]
fn request_model_overrides_default_and_structured_state_works() {
    let req = Request::new(json(r#"{"subject": "refund"}"#))
        .noul::<Urgent>()
        .model("jev-1.13.0");
    let v: Value = serde_json::from_slice(&req.to_json("jev-latest").unwrap()).unwrap();
    assert_eq!(v["model"], "jev-1.13.0");
    assert_eq!(v["state"], json(r#"{"subject": "refund"}"#));
}

#[test]
fn noul_without_meanings_has_no_criteria() {
    let body = Request::new(Value::Null).noul::<Bare>().to_json("m").unwrap();
    assert_eq!(
        String::from_utf8(body).unwrap(),
        r#"{"state":null,"model":"m","questions":{"bare":{"type":"noul","instructions":"Is it?"}}}"#
    );
}

#[test]
fn repeated_label_keeps_its_place_and_last_meaning() {
    let body = Request::new("x".into()).choice::<Repeats>().to_json("m").unwrap();
    let text = String::from_utf8(body).unwrap();
    assert!(
        text.contains(r#""criteria":{"a":"again","b":"b"}"#),
        "{text}"
    );
}

#[test]
fn strings_are_escaped_by_serde_json() {
    let body = Request::new("say \"hi\"\n".into()).noul::<Urgent>().to_json("m\\1").unwrap();
    let text = String::from_utf8(body).unwrap();
    assert!(text.starts_with(r#"{"state":"say \"hi\"\n","model":"m\\1","#), "{text}");
}

#[test]
fn empty_and_duplicate_requests_are_invalid() {
    let empty = Request::new("x".into()).validate().unwrap_err();
    assert!(matches!(&empty, Error::InvalidRequest(_)));
    assert_eq!(
        empty.text(),
        "invalid request: add at least one question (.choice::<T>(), .score::<T>() or .noul::<T>())"
    );
    let dupes = Request::new("x".into()).noul::<Urgent>().noul::<Bare>().noul::<Urgent>();
    match dupes.to_json("m").unwrap_err() {
        Error::InvalidRequest(m) => assert_eq!(
            m,
            "duplicate question id `is_urgent`; give each type a distinct #[jev(name = \"...\")]"
        ),
        other => panic!("{other:?}"),
    }
    assert!(full_request().validate().is_ok());
}

#[test]
fn wrong_option_count_is_recorded_and_rejected() {
    let req = Request::new("x".into()).noul::<Urgent>().choice::<Lonely>();
    match req.validate().unwrap_err() {
        Error::InvalidRequest(m) => {
            assert_eq!(m, "`lonely`: a choice needs 2 to 255 options, found 1")
        }
        other => panic!("{other:?}"),
    }
}
