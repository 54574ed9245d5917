//! A request: one state plus any number of typed questions, its checks,
//! and the JSON body that is sent for it.

use vstd::prelude::*;
use vstd::string::*;
use crate::error::Error;
use crate::json::{
    array_value, entries_insert, json_array, json_bytes, json_map_entries, json_object,
    json_string, map_insert, map_new, object_value, string_value, to_bytes,
};
use crate::spec::{
    described, Choice, ChoiceOption, ChoiceSpec, Noul, NoulSpec, Score, ScoreLevel, ScoreSpec,
    MAX_CHOICE_OPTIONS, MAX_SCORE_LEVELS, MIN_SCORE_LEVELS,
};
use crate::text::{concat, decimal, push_decimal, trimmed};

verus! {

/// A request: one state plus any number of typed questions.
///
/// All questions in one request are answered against the same state, and
/// the state is billed once, so batch your questions.
#[derive(Debug, Clone)]
pub struct Request {
    state: serde_json::Value,
    model: Option<String>,
    questions: Vec<(String, serde_json::Value)>,
    problems: Vec<String>,
}

/// What a request holds.
#[verifier::ext_equal]
pub struct RequestModel {
    /// The state the questions are about.
    pub state: serde_json::Value,
    /// The model chosen for this request, if any.
    pub model: Option<Seq<char>>,
    /// `(id, body)` of each question, in the order they were added.
    pub questions: Seq<(Seq<char>, serde_json::Value)>,
    /// Problems found while adding questions, in order.
    pub problems: Seq<Seq<char>>,
}

impl View for Request {
    type V = RequestModel;

    closed spec fn view(&self) -> RequestModel {
        RequestModel {
            state: self.state,
            model: match self.model {
                Some(m) => Some(m@),
                None => None,
            },
            questions: self.questions@.map_values(|p: (String, serde_json::Value)| (p.0@, p.1)),
            problems: self.problems@.map_values(|p: String| p@),
        }
    }
}

/// The criteria of a choice, as the entries of a JSON object: each option's
/// label with its meaning as a string, inserted in declaration order (a
/// repeated label keeps its first place and takes its last meaning).
pub open spec fn choice_criteria(options: Seq<ChoiceOption>) -> Seq<(Seq<char>, serde_json::Value)>
    decreases options.len(),
{
    if options.len() == 0 {
        Seq::empty()
    } else {
        let o = options.last();
        entries_insert(
            choice_criteria(options.drop_last()),
            o.label@,
            json_string(described(o.label@, o.description@)),
        )
    }
}

/// The body of a question: `type`, then `instructions`, then `criteria`
/// when there is one.
pub open spec fn question_value(
    kind: Seq<char>,
    instructions: Seq<char>,
    criteria: Option<serde_json::Value>,
) -> serde_json::Value {
    let head = seq![("type"@, json_string(kind)), ("instructions"@, json_string(instructions))];
    json_object(
        match criteria {
            Some(c) => head.push(("criteria"@, c)),
            None => head,
        },
    )
}

/// The body of a choice question: its criteria are an object of the
/// options' meanings by label.
pub open spec fn choice_value(spec: ChoiceSpec) -> serde_json::Value {
    question_value("choice"@, trimmed(spec.question@), Some(json_object(choice_criteria(spec.options@))))
}

/// The meanings of a score's levels as JSON strings, lowest level first.
pub open spec fn score_criteria(levels: Seq<ScoreLevel>) -> Seq<serde_json::Value> {
    levels.map_values(|l: ScoreLevel| json_string(described(l.name@, l.description@)))
}

/// The body of a score question: its criteria are an array of the levels'
/// meanings.
pub open spec fn score_value(spec: ScoreSpec) -> serde_json::Value {
    question_value("score"@, trimmed(spec.question@), Some(json_array(score_criteria(spec.levels@))))
}

/// The criteria of a yes/no question: `true` with what yes means when it is
/// described, then `false` with what no means when it is described.
pub open spec fn noul_criteria(yes: Seq<char>, no: Seq<char>) -> Seq<(Seq<char>, serde_json::Value)> {
    let with_yes = if yes.len() == 0 {
        Seq::empty()
    } else {
        seq![("true"@, json_string(yes))]
    };
    if no.len() == 0 {
        with_yes
    } else {
        with_yes.push(("false"@, json_string(no)))
    }
}

/// The body of a yes/no question: it has criteria only when yes or no is
/// described.
pub open spec fn noul_value(spec: NoulSpec) -> serde_json::Value {
    let c = noul_criteria(trimmed(spec.yes@), trimmed(spec.no@));
    question_value(
        "noul"@,
        trimmed(spec.question@),
        if c.len() == 0 {
            None
        } else {
            Some(json_object(c))
        },
    )
}

/// The value sent for a request: `state`, then `model` (the request's own,
/// else `default_model`), then `questions`, an object of the question
/// bodies by id in the order they were added.
pub open spec fn request_value(m: RequestModel, default_model: Seq<char>) -> serde_json::Value {
    let model = match m.model {
        Some(x) => x,
        None => default_model,
    };
    json_object(
        seq![
            ("state"@, m.state),
            ("model"@, json_string(model)),
            ("questions"@, json_object(m.questions)),
        ],
    )
}

/// The bytes sent for a request: the compact JSON text of its value.
pub open spec fn request_body(m: RequestModel, default_model: Seq<char>) -> Seq<u8> {
    json_bytes(request_value(m, default_model))
}



/// The problem recorded when a choice does not have 2 to 255 options.
pub open spec fn choice_count_problem(spec: ChoiceSpec) -> Option<Seq<char>> {
    let n = spec.options@.len();
    if n < 2 || n > MAX_CHOICE_OPTIONS {
        Some("`"@ + spec.name@ + "`: a choice needs 2 to 255 options, found "@ + decimal(n))
    } else {
        None
    }
}

/// The problem recorded when a score does not have 2 to 10 levels.
pub open spec fn score_count_problem(spec: ScoreSpec) -> Option<Seq<char>> {
    let n = spec.levels@.len();
    if n < MIN_SCORE_LEVELS || n > MAX_SCORE_LEVELS {
        Some("`"@ + spec.name@ + "`: a score needs 2 to 10 levels, found "@ + decimal(n))
    } else {
        None
    }
}

/// `problems` with `p` added when there is one.
pub open spec fn with_problem(problems: Seq<Seq<char>>, p: Option<Seq<char>>) -> Seq<Seq<char>> {
    match p {
        Some(m) => problems.push(m),
        None => problems,
    }
}

/// The ids of the questions, in order.
pub open spec fn question_ids(m: RequestModel) -> Seq<Seq<char>> {
    m.questions.map_values(|q: (Seq<char>, serde_json::Value)| q.0)
}

/// The first position `>= j` whose id already occurred before it.
pub open spec fn repeated_id_from(ids: Seq<Seq<char>>, j: int) -> Option<int>
    decreases ids.len() - j,
{
    if j < 0 || j >= ids.len() {
        None
    } else if exists|i: int| 0 <= i < j && ids[i] == ids[j] {
        Some(j)
    } else {
        repeated_id_from(ids, j + 1)
    }
}

/// Why a request may not be sent, as the message of the error: its first
/// recorded problem, else no question at all, else the first id asked
/// twice.
pub open spec fn request_problem(m: RequestModel) -> Option<Seq<char>> {
    let ids = question_ids(m);
    if m.problems.len() > 0 {
        Some(m.problems[0])
    } else if m.questions.len() == 0 {
        Some("add at least one question (.choice::<T>(), .score::<T>() or .noul::<T>())"@)
    } else {
        match repeated_id_from(ids, 0) {
            Some(j) => Some("duplicate question id `"@ + ids[j]
                + "`; give each type a distinct #[jev(name = \"...\")]"@),
            None => None,
        }
    }
}

proof fn lemma_repeated_id_from(ids: Seq<Seq<char>>, k: int)
    requires
        0 <= k <= ids.len(),
    ensures
        repeated_id_from(ids, k) is None <==> forall|i: int, j: int|
            0 <= i < j < ids.len() && k <= j ==> ids[i] != ids[j],
    decreases ids.len() - k,
{
    if k < ids.len() {
        lemma_repeated_id_from(ids, k + 1);
        if repeated_id_from(ids, k) is None {
            assert forall|i: int, j: int| 0 <= i < j < ids.len() && k <= j implies ids[i] != ids[j] by {
                if j == k {
                    assert(!(exists|i2: int| 0 <= i2 < k && ids[i2] == ids[k]));
                }
            }
        }
    }
}

/// A request may be sent exactly when no problem was recorded while adding
/// questions, it has at least one question, and no two questions share an
/// id; in particular two questions with the same id are rejected before
/// anything is sent.
pub proof fn lemma_request_accepted(m: RequestModel)
    ensures
        request_problem(m) is None <==> {
            &&& m.problems.len() == 0
            &&& m.questions.len() > 0
            &&& forall|i: int, j: int|
                0 <= i < j < m.questions.len() ==> (#[trigger] m.questions[i]).0 != (#[trigger] m.questions[j]).0
        },
{
    let ids = question_ids(m);
    lemma_repeated_id_from(ids, 0);
    if m.problems.len() == 0 && m.questions.len() > 0 {
        if repeated_id_from(ids, 0) is None {
            assert forall|i: int, j: int| 0 <= i < j < m.questions.len() implies (#[trigger] m.questions[i]).0
                != (#[trigger] m.questions[j]).0 by {
                assert(ids[i] == m.questions[i].0 && ids[j] == m.questions[j].0);
            }
        } else {
            let w = choose|i: int, j: int| 0 <= i < j < ids.len() && 0 <= j && ids[i] == ids[j];
            assert(ids[w.0] == m.questions[w.0].0 && ids[w.1] == m.questions[w.1].0);
        }
    }
}

/// Inserting a key that the entries do not hold adds it last.
proof fn lemma_insert_new(e: Seq<(Seq<char>, serde_json::Value)>, k: Seq<char>, v: serde_json::Value)
    requires
        forall|i: int| 0 <= i < e.len() ==> (#[trigger] e[i]).0 != k,
    ensures
        entries_insert(e, k, v) == e.push((k, v)),
{
}

/// The literal keys of the bodies differ from one another.
proof fn lemma_literal_keys()
    ensures
        "type"@ != "instructions"@,
        "type"@ != "criteria"@,
        "instructions"@ != "criteria"@,
        "true"@ != "false"@,
        "state"@ != "model"@,
        "state"@ != "questions"@,
        "model"@ != "questions"@,
{
    reveal_strlit("type");
    reveal_strlit("instructions");
    reveal_strlit("criteria");
    reveal_strlit("true");
    reveal_strlit("false");
    reveal_strlit("state");
    reveal_strlit("model");
    reveal_strlit("questions");
    assert("type"@.len() != "instructions"@.len());
    assert("type"@.len() != "criteria"@.len());
    assert("instructions"@.len() != "criteria"@.len());
    assert("true"@.len() != "false"@.len());
    assert("state"@[0] != "model"@[0]);
    assert("state"@.len() != "questions"@.len());
    assert("model"@.len() != "questions"@.len());
}

/// Inserting into no entries gives the one entry.
proof fn lemma_insert_first(k: Seq<char>, v: serde_json::Value)
    ensures
        entries_insert(Seq::empty(), k, v) == seq![(k, v)],
{
    lemma_insert_new(Seq::empty(), k, v);
    assert(Seq::<(Seq<char>, serde_json::Value)>::empty().push((k, v)) =~= seq![(k, v)]);
}

/// Inserting a new key after one entry.
proof fn lemma_insert_second(a: (Seq<char>, serde_json::Value), k: Seq<char>, v: serde_json::Value)
    requires
        a.0 != k,
    ensures
        entries_insert(seq![a], k, v) == seq![a, (k, v)],
{
    let e = seq![a];
    assert forall|i: int| 0 <= i < e.len() implies (#[trigger] e[i]).0 != k by {
        assert(e[i] == a);
    }
    lemma_insert_new(e, k, v);
    assert(e.push((k, v)) =~= seq![a, (k, v)]);
}

/// Inserting a new key after two entries.
proof fn lemma_insert_third(
    a: (Seq<char>, serde_json::Value),
    b: (Seq<char>, serde_json::Value),
    k: Seq<char>,
    v: serde_json::Value,
)
    requires
        a.0 != k,
        b.0 != k,
    ensures
        entries_insert(seq![a, b], k, v) == seq![a, b, (k, v)],
{
    let e = seq![a, b];
    assert forall|i: int| 0 <= i < e.len() implies (#[trigger] e[i]).0 != k by {
        assert(e[i] == a || e[i] == b);
    }
    lemma_insert_new(e, k, v);
    assert(e.push((k, v)) =~= seq![a, b, (k, v)]);
}

/// A choice records a problem exactly when it has fewer than 2 or more than
/// 255 options; with 2 to 255 options it records none.
pub proof fn lemma_choice_count_problem(spec: ChoiceSpec)
    ensures
        choice_count_problem(spec) is Some <==> (spec.options@.len() < 2 || spec.options@.len() > 255),
        2 <= spec.options@.len() <= 255 ==> with_problem(Seq::empty(), choice_count_problem(spec)).len() == 0,
{
}

/// A score records a problem exactly when it has fewer than 2 or more than
/// 10 levels; with 2 to 10 levels it records none.
pub proof fn lemma_score_count_problem(spec: ScoreSpec)
    ensures
        score_count_problem(spec) is Some <==> (spec.levels@.len() < 2 || spec.levels@.len() > 10),
        2 <= spec.levels@.len() <= 10 ==> with_problem(Seq::empty(), score_count_problem(spec)).len() == 0,
{
}

/// The criteria of a yes/no question hold `true` with the meaning of yes
/// exactly when yes is described, and `false` with the meaning of no
/// exactly when no is described, each whatever the other is; `true` comes
/// first, and nothing else is there.
pub proof fn lemma_noul_criteria(yes: Seq<char>, no: Seq<char>)
    ensures
        noul_criteria(yes, no).contains(("true"@, json_string(yes))) <==> yes.len() > 0,
        noul_criteria(yes, no).contains(("false"@, json_string(no))) <==> no.len() > 0,
        noul_criteria(yes, no).len() == (if yes.len() > 0 { 1int } else { 0int }) + (if no.len() > 0 {
            1int
        } else {
            0int
        }),
        yes.len() > 0 ==> noul_criteria(yes, no)[0] == ("true"@, json_string(yes)),
{
    lemma_literal_keys();
    let c = noul_criteria(yes, no);
    if yes.len() > 0 {
        assert(c[0] == ("true"@, json_string(yes)));
    } else {
        assert forall|i: int| 0 <= i < c.len() implies c[i] != ("true"@, json_string(yes)) by {
            assert(c[i].0 == "false"@);
        }
    }
    if no.len() > 0 {
        assert(c[c.len() - 1] == ("false"@, json_string(no)));
    } else {
        assert forall|i: int| 0 <= i < c.len() implies c[i] != ("false"@, json_string(no)) by {
            assert(c[i].0 == "true"@);
        }
    }
}

/// No label occurs twice among `options`.
pub open spec fn distinct_labels(options: Seq<ChoiceOption>) -> bool {
    forall|a: int, b: int| 0 <= a < b < options.len() ==> (#[trigger] options[a]).label@ != (#[trigger] options[b]).label@
}

/// With distinct labels, the criteria sent for a choice are its options in
/// declaration order, each label with its meaning.
pub proof fn lemma_choice_criteria_in_order(options: Seq<ChoiceOption>)
    requires
        distinct_labels(options),
    ensures
        choice_criteria(options) == options.map_values(
            |o: ChoiceOption| (o.label@, json_string(described(o.label@, o.description@))),
        ),
    decreases options.len(),
{
    let expect = options.map_values(
        |o: ChoiceOption| (o.label@, json_string(described(o.label@, o.description@))),
    );
    if options.len() == 0 {
        assert(expect =~= Seq::empty());
    } else {
        let rest = options.drop_last();
        assert forall|a: int, b: int| 0 <= a < b < rest.len() implies (#[trigger] rest[a]).label@ != (#[trigger] rest[b]).label@ by {
            assert(rest[a] == options[a] && rest[b] == options[b]);
        }
        lemma_choice_criteria_in_order(rest);
        let c = choice_criteria(rest);
        let o = options.last();
        assert forall|i: int| 0 <= i < c.len() implies (#[trigger] c[i]).0 != o.label@ by {
            assert(c[i].0 == rest[i].label@);
            assert(rest[i] == options[i]);
            assert(options[i].label@ != options[options.len() - 1].label@);
        }
        lemma_insert_new(c, o.label@, json_string(described(o.label@, o.description@)));
        assert(choice_criteria(options) =~= expect);
    }
}

/// The object body of a question with these parts.
fn question_object(kind: &str, instructions: &str, criteria: Option<serde_json::Value>) -> (r: serde_json::Value)
    ensures
        r == question_value(kind@, instructions@, criteria),
{
    let ghost t = ("type"@, json_string(kind@));
    let ghost ins = ("instructions"@, json_string(instructions@));
    proof {
        lemma_literal_keys();
        lemma_insert_first(t.0, t.1);
        lemma_insert_second(t, ins.0, ins.1);
    }
    let mut q = map_new();
    map_insert(&mut q, "type".to_owned(), string_value(kind));
    map_insert(&mut q, "instructions".to_owned(), string_value(instructions));
    match criteria {
        Some(c) => {
            proof {
                lemma_insert_third(t, ins, "criteria"@, c);
            }
            map_insert(&mut q, "criteria".to_owned(), c);
        },
        None => {},
    }
    object_value(q)
}

/// The criteria object of a choice: each option's meaning inserted under
/// its label, in declaration order.
fn choice_criteria_object(options: &'static [ChoiceOption]) -> (r: serde_json::Value)
    ensures
        r == json_object(choice_criteria(options@)),
{
    let n = options.len();
    let mut crit = map_new();
    let mut i: usize = 0;
    while i < n
        invariant
            n == options@.len(),
            i <= n,
            json_map_entries(crit) == choice_criteria(options@.take(i as int)),
        decreases n - i,
    {
        proof {
            assert(options@.take(i + 1).drop_last() =~= options@.take(i as int));
            assert(options@.take(i + 1).last() == options@[i as int]);
        }
        let o = &options[i];
        map_insert(&mut crit, o.label().to_owned(), string_value(o.description()));
        i = i + 1;
    }
    assert(options@.take(n as int) =~= options@);
    object_value(crit)
}

/// The criteria array of a score: each level's meaning, lowest first.
fn score_criteria_array(levels: &'static [ScoreLevel]) -> (r: serde_json::Value)
    ensures
        r == json_array(score_criteria(levels@)),
{
    let n = levels.len();
    let mut crit: Vec<serde_json::Value> = Vec::new();
    let mut i: usize = 0;
    while i < n
        invariant
            n == levels@.len(),
            i <= n,
            crit@.len() == i,
            forall|k: int| 0 <= k < i ==> #[trigger] crit@[k] == json_string(
                described(levels@[k].name@, levels@[k].description@),
            ),
        decreases n - i,
    {
        crit.push(string_value(levels[i].description()));
        i = i + 1;
    }
    assert(crit@ =~= score_criteria(levels@));
    array_value(crit)
}

/// The criteria object of a yes/no question, `None` when neither yes nor
/// no is described.
fn noul_criteria_object(yes: &str, no: &str) -> (r: Option<serde_json::Value>)
    ensures
        r == (if noul_criteria(yes@, no@).len() == 0 {
            None
        } else {
            Some(json_object(noul_criteria(yes@, no@)))
        }),
{
    let has_yes = !yes.is_empty();
    let has_no = !no.is_empty();
    let mut c = map_new();
    if has_yes {
        proof {
            lemma_insert_first("true"@, json_string(yes@));
        }
        map_insert(&mut c, "true".to_owned(), string_value(yes));
    }
    if has_no {
        proof {
            lemma_literal_keys();
            if has_yes {
                lemma_insert_second(("true"@, json_string(yes@)), "false"@, json_string(no@));
            } else {
                lemma_insert_first("false"@, json_string(no@));
            }
        }
        map_insert(&mut c, "false".to_owned(), string_value(no));
    }
    assert(json_map_entries(c) =~= noul_criteria(yes@, no@));
    if has_yes || has_no {
        Some(object_value(c))
    } else {
        None
    }
}

impl Request {
    /// Start a request about `state` (a JSON value; text becomes a JSON
    /// string).
    pub fn new(state: serde_json::Value) -> (r: Self)
        ensures
            r@ == (RequestModel {
                state,
                model: None,
                questions: Seq::empty(),
                problems: Seq::empty(),
            }),
    {
        let r = Request { state, model: None, questions: Vec::new(), problems: Vec::new() };
        assert(r@.questions =~= Seq::empty());
        assert(r@.problems =~= Seq::empty());
        r
    }

    /// Override the client's default model for this request.
    pub fn model(self, model: &str) -> (r: Self)
        ensures
            r@ == (RequestModel { model: Some(model@), ..self@ }),
    {
        let mut this = self;
        this.model = Some(model.to_owned());
        this
    }

    /// Ask a pick-one question.
    pub fn choice<T: Choice>(self) -> (r: Self)
        ensures
            r@ == (RequestModel {
                questions: self@.questions.push((T::SPEC.name@, choice_value(T::SPEC))),
                problems: with_problem(self@.problems, choice_count_problem(T::SPEC)),
                ..self@
            }),
    {
        let spec = T::SPEC;
        let mut this = self;
        let n = spec.options.len();
        if n < 2 || n > MAX_CHOICE_OPTIONS {
            let mut m = concat("`", spec.name);
            m.append("`: a choice needs 2 to 255 options, found ");
            push_decimal(&mut m, n as u64);
            this.problems.push(m);
        }
        let criteria = choice_criteria_object(spec.options);
        let body = question_object("choice", spec.question(), Some(criteria));
        this.questions.push((spec.name.to_owned(), body));
        assert(this@.questions =~= self@.questions.push((T::SPEC.name@, choice_value(T::SPEC))));
        assert(this@.problems =~= with_problem(self@.problems, choice_count_problem(T::SPEC)));
        this
    }

    /// Ask an ordered rating question.
    pub fn score<T: Score>(self) -> (r: Self)
        ensures
            r@ == (RequestModel {
                questions: self@.questions.push((T::SPEC.name@, score_value(T::SPEC))),
                problems: with_problem(self@.problems, score_count_problem(T::SPEC)),
                ..self@
            }),
    {
        let spec = T::SPEC;
        let mut this = self;
        let n = spec.levels.len();
        if n < MIN_SCORE_LEVELS || n > MAX_SCORE_LEVELS {
            let mut m = concat("`", spec.name);
            m.append("`: a score needs 2 to 10 levels, found ");
            push_decimal(&mut m, n as u64);
            this.problems.push(m);
        }
        let criteria = score_criteria_array(spec.levels);
        let body = question_object("score", spec.question(), Some(criteria));
        this.questions.push((spec.name.to_owned(), body));
        assert(this@.questions =~= self@.questions.push((T::SPEC.name@, score_value(T::SPEC))));
        assert(this@.problems =~= with_problem(self@.problems, score_count_problem(T::SPEC)));
        this
    }

    /// Ask a yes/no question.
    pub fn noul<T: Noul>(self) -> (r: Self)
        ensures
            r@ == (RequestModel {
                questions: self@.questions.push((T::SPEC.name@, noul_value(T::SPEC))),
                ..self@
            }),
    {
        let spec = T::SPEC;
        let mut this = self;
        let criteria = noul_criteria_object(spec.yes(), spec.no());
        let body = question_object("noul", spec.question(), criteria);
        this.questions.push((spec.name.to_owned(), body));
        assert(this@.questions =~= self@.questions.push((T::SPEC.name@, noul_value(T::SPEC))));
        assert(this@.problems =~= self@.problems);
        this
    }

    /// The question ids in this request, in the order they were added.
    pub fn question_ids(&self) -> (r: Vec<String>)
        ensures
            r@.map_values(|s: String| s@) == question_ids(self@),
    {
        let n = self.questions.len();
        let mut ids: Vec<String> = Vec::new();
        let mut i: usize = 0;
        while i < n
            invariant
                n == self.questions@.len(),
                i <= n,
                ids@.len() == i,
                forall|k: int| 0 <= k < i ==> #[trigger] ids@[k]@ == self.questions@[k].0@,
            decreases n - i,
        {
            ids.push(self.questions[i].0.clone());
            i = i + 1;
        }
        assert(ids@.map_values(|s: String| s@) =~= question_ids(self@));
        ids
    }

    /// Check the request without sending it: no problem recorded while
    /// adding questions, at least one question, no question id twice.
    pub fn validate(&self) -> (r: Result<(), Error>)
        ensures
            match request_problem(self@) {
                Some(m) => r matches Err(Error::InvalidRequest(x)) && x@ == m,
                None => r is Ok,
            },
    {
        if self.problems.len() > 0 {
            return Err(Error::InvalidRequest(self.problems[0].clone()));
        }
        let n = self.questions.len();
        if n == 0 {
            return Err(
                Error::InvalidRequest(
                    "add at least one question (.choice::<T>(), .score::<T>() or .noul::<T>())".to_owned(),
                ),
            );
        }
        let ghost ids = question_ids(self@);
        let mut j: usize = 0;
        while j < n
            invariant
                n == self.questions@.len(),
                n > 0,
                self.problems@.len() == 0,
                ids == question_ids(self@),
                j <= n,
                repeated_id_from(ids, 0) == repeated_id_from(ids, j as int),
            decreases n - j,
        {
            let mut i: usize = 0;
            while i < j
                invariant
                    n == self.questions@.len(),
                    n > 0,
                    self.problems@.len() == 0,
                    ids == question_ids(self@),
                    repeated_id_from(ids, 0) == repeated_id_from(ids, j as int),
                    i <= j < n,
                    forall|k: int| 0 <= k < i ==> ids[k] != ids[j as int],
                decreases j - i,
            {
                if self.questions[i].0 == self.questions[j].0 {
                    assert(ids[i as int] == ids[j as int]);
                    assert(repeated_id_from(ids, j as int) == Some(j as int));
                    let mut m = concat("duplicate question id `", self.questions[j].0.as_str());
                    m.append("`; give each type a distinct #[jev(name = \"...\")]");
                    return Err(Error::InvalidRequest(m));
                }
                i = i + 1;
            }
            j = j + 1;
        }
        Ok(())
    }

    /// The JSON body to `POST` to `/v1/systemone`, after [`validate`](Self::validate).
    pub fn to_json(&self, default_model: &str) -> (r: Result<Vec<u8>, Error>)
        ensures
            match request_problem(self@) {
                Some(m) => r matches Err(Error::InvalidRequest(x)) && x@ == m,
                None => r matches Ok(b) && b@ == request_body(self@, default_model@),
            },
    {
        let checked = self.validate();
        match checked {
            Err(e) => {
                return Err(e);
            },
            Ok(()) => {},
        }
        proof {
            lemma_request_accepted(self@);
        }
        let ghost qs = self@.questions;
        let n = self.questions.len();
        let mut questions = map_new();
        let mut i: usize = 0;
        while i < n
            invariant
                n == self.questions@.len(),
                qs == self@.questions,
                i <= n,
                forall|a: int, b: int| 0 <= a < b < qs.len() ==> (#[trigger] qs[a]).0 != (#[trigger] qs[b]).0,
                json_map_entries(questions) == qs.take(i as int),
            decreases n - i,
        {
            proof {
                let before = qs.take(i as int);
                assert forall|k: int| 0 <= k < before.len() implies (#[trigger] before[k]).0 != qs[i as int].0 by {
                    assert(before[k] == qs[k]);
                }
                lemma_insert_new(before, qs[i as int].0, qs[i as int].1);
                assert(qs.take(i + 1) =~= before.push(qs[i as int]));
            }
            let id = self.questions[i].0.clone();
            let body = self.questions[i].1.clone();
            map_insert(&mut questions, id, body);
            i = i + 1;
        }
        assert(qs.take(n as int) =~= qs);
        let model: &str = match &self.model {
            Some(m) => m.as_str(),
            None => default_model,
        };
        let ghost entries = seq![
            ("state"@, self@.state),
            ("model"@, json_string(model@)),
            ("questions"@, json_object(qs)),
        ];
        proof {
            lemma_literal_keys();
            lemma_insert_first(entries[0].0, entries[0].1);
            lemma_insert_second(entries[0], entries[1].0, entries[1].1);
            lemma_insert_third(entries[0], entries[1], entries[2].0, entries[2].1);
            assert(seq![entries[0], entries[1], entries[2]] =~= entries);
        }
        let mut body = map_new();
        map_insert(&mut body, "state".to_owned(), self.state.clone());
        map_insert(&mut body, "model".to_owned(), string_value(model));
        map_insert(&mut body, "questions".to_owned(), object_value(questions));
        let value = object_value(body);
        match to_bytes(&value) {
            Ok(b) => Ok(b),
            Err(e) => Err(Error::Json(e)),
        }
    }
}

} // verus!
