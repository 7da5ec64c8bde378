//! Questions to the user: going through them, answering them, and sending the answers.

use vstd::prelude::*;
use crate::app::AppState;
use crate::arguments::as_flag;
use crate::arguments::as_text;
use crate::arguments::field;
use crate::arguments::json_object;
use crate::collections::TextMap;
use crate::events::Outbox;
use crate::events::OutputEvent;
use crate::message::Message;
use crate::message::MessageContent;
use crate::message::find_message;
use crate::message::message_at;
use crate::message::pushed;
use crate::message::remove_message;
use crate::message::set_content;
use crate::message::without;
use crate::json::JsonField;
use crate::json::JsonLeaf;
use crate::json::LeafView;
use crate::json::leaf_views;
use crate::json::names_differ;
use crate::json::object_text;
use crate::json::object_views;
use crate::json::read_as;
use crate::json::reads_back;
use crate::json::write_object;
use crate::models::ToolCall;
use crate::models::ToolCallResult;
use crate::models::ToolCallResultStatus;
use crate::models::copy_text;
use crate::models::text_of;
use crate::text::same_text;
use crate::text::texts;
use crate::types::AskUserState;
use crate::types::MessagesScrollingState;
use crate::types::ToolCallState;

verus! {

// ----- questions and answers -----

/// An option of a question.
#[derive(Debug)]
pub struct AskUserOption {
    pub value: String,
    pub label: String,
    pub description: Option<String>,
    pub selected: bool,
}

impl Clone for AskUserOption {
    fn clone(&self) -> (r: AskUserOption)
        ensures
            r == *self,
    {
        AskUserOption {
            value: self.value.clone(),
            label: self.label.clone(),
            description: copy_text(&self.description),
            selected: self.selected,
        }
    }
}

/// A question to the user.
#[derive(Debug)]
pub struct AskUserQuestion {
    pub label: String,
    pub question: String,
    pub options: Vec<AskUserOption>,
    pub allow_custom: bool,
    pub multi_select: bool,
}

/// What a question asks.
pub struct QuestionView {
    pub label: Seq<char>,
    pub question: Seq<char>,
    pub options: Seq<AskUserOption>,
    pub allow_custom: bool,
    pub multi_select: bool,
}

impl View for AskUserQuestion {
    type V = QuestionView;

    open spec fn view(&self) -> QuestionView {
        QuestionView {
            label: self.label@,
            question: self.question@,
            options: self.options@,
            allow_custom: self.allow_custom,
            multi_select: self.multi_select,
        }
    }
}

impl Clone for AskUserQuestion {
    fn clone(&self) -> (r: AskUserQuestion)
        ensures
            r@ == self@,
    {
        let options: Vec<AskUserOption> = self.options.clone();
        assert(options@ =~= self.options@);
        AskUserQuestion {
            label: self.label.clone(),
            question: self.question.clone(),
            options,
            allow_custom: self.allow_custom,
            multi_select: self.multi_select,
        }
    }
}

/// What questions ask.
pub open spec fn question_views(v: Seq<AskUserQuestion>) -> Seq<QuestionView> {
    v.map_values(|q: AskUserQuestion| q@)
}

fn copy_questions(v: &Vec<AskUserQuestion>) -> (r: Vec<AskUserQuestion>)
    ensures
        question_views(r@) == question_views(v@),
{
    let mut r: Vec<AskUserQuestion> = Vec::new();
    let mut i: usize = 0;
    while i < v.len()
        invariant
            i <= v@.len(),
            i == r@.len(),
            forall|j: int| 0 <= j < i ==> (#[trigger] r@[j])@ == v@[j]@,
        decreases v@.len() - i,
    {
        r.push(v[i].clone());
        i += 1;
    }
    assert(question_views(r@) =~= question_views(v@));
    r
}

/// The user's answer to a question.
#[derive(Debug)]
pub struct AskUserAnswer {
    pub question_label: String,
    pub answer: String,
    pub is_custom: bool,
    pub selected_values: Vec<String>,
}

/// What an answer says.
#[verifier::ext_equal]
pub struct AnswerView {
    pub label: Seq<char>,
    pub answer: Seq<char>,
    pub is_custom: bool,
    pub selected: Seq<Seq<char>>,
}

impl View for AskUserAnswer {
    type V = AnswerView;

    open spec fn view(&self) -> AnswerView {
        AnswerView {
            label: self.question_label@,
            answer: self.answer@,
            is_custom: self.is_custom,
            selected: texts(self.selected_values@),
        }
    }
}

impl Clone for AskUserAnswer {
    fn clone(&self) -> (r: AskUserAnswer)
        ensures
            r@ == self@,
    {
        let selected_values: Vec<String> = self.selected_values.clone();
        assert(selected_values@ =~= self.selected_values@);
        AskUserAnswer {
            question_label: self.question_label.clone(),
            answer: self.answer.clone(),
            is_custom: self.is_custom,
            selected_values,
        }
    }
}

/// The answers to all questions.
#[derive(Debug)]
pub struct AskUserResult {
    pub answers: Vec<AskUserAnswer>,
    pub completed: bool,
    pub reason: Option<String>,
}

/// The fields of an answer, as it goes out.
pub open spec fn answer_fields(a: AnswerView) -> Seq<(Seq<char>, LeafView)> {
    seq![
        ("question_label"@, LeafView::Text(a.label)),
        ("answer"@, LeafView::Text(a.answer)),
        ("is_custom"@, LeafView::Flag(a.is_custom)),
        ("selected_values"@, LeafView::Texts(a.selected)),
    ]
}

/// The fields beside the answers.
pub open spec fn result_fields(completed: bool, reason: Option<Seq<char>>) -> Seq<
    (Seq<char>, LeafView),
> {
    seq![
        ("completed"@, LeafView::Flag(completed)),
        (
            "reason"@,
            match reason {
                Some(text) => LeafView::Text(text),
                None => LeafView::Null,
            },
        ),
    ]
}

/// The text that goes out, given what the answers are as JSON text or why there is none.
pub open spec fn said_or_failed(json: Result<Seq<char>, Seq<char>>) -> Seq<char> {
    match json {
        Ok(text) => text,
        Err(e) => "{\"error\": \"Failed to serialize result: "@ + e + "\"}"@,
    }
}

/// The answers as JSON text, or why there is none.
pub open spec fn result_json(
    answers: Seq<AnswerView>,
    completed: bool,
    reason: Option<Seq<char>>,
) -> Result<Seq<char>, Seq<char>> {
    object_text(
        result_fields(completed, reason),
        "answers"@,
        answers.map_values(|a: AnswerView| answer_fields(a)),
    )
}

/// What goes out for the answers.
pub open spec fn result_text(
    answers: Seq<AnswerView>,
    completed: bool,
    reason: Option<Seq<char>>,
) -> Seq<char> {
    said_or_failed(result_json(answers, completed, reason))
}

/// Whether the text is what goes out for the answers. Where it is JSON text, it reads as an object
/// that says whether all is answered, and the reason.
pub open spec fn is_result_text(
    text: Seq<char>,
    answers: Seq<AnswerView>,
    completed: bool,
    reason: Option<Seq<char>>,
) -> bool {
    &&& text == result_text(answers, completed, reason)
    &&& result_json(answers, completed, reason) is Ok ==> reads_back(
        text,
        result_fields(completed, reason),
    )
}

/// The text that goes out, given the JSON text of the answers or why there is none.
pub fn say_or_fail(json: Result<String, String>) -> (r: String)
    ensures
        r@ == said_or_failed(
            match json {
                Ok(t) => Ok(t@),
                Err(e) => Err(e@),
            },
        ),
{
    match json {
        Ok(text) => text,
        Err(e) => {
            let mut r: String = "{\"error\": \"Failed to serialize result: ".to_owned();
            r.push_str(e.as_str());
            r.push_str("\"}");
            r
        },
    }
}

fn list_fields(a: AskUserAnswer) -> (r: Vec<JsonField>)
    ensures
        leaf_views(r@) == answer_fields(a@),
{
    let mut r: Vec<JsonField> = Vec::new();
    r.push(
        JsonField { name: "question_label".to_owned(), value: JsonLeaf::Text(a.question_label) },
    );
    r.push(JsonField { name: "answer".to_owned(), value: JsonLeaf::Text(a.answer) });
    r.push(JsonField { name: "is_custom".to_owned(), value: JsonLeaf::Flag(a.is_custom) });
    r.push(
        JsonField { name: "selected_values".to_owned(), value: JsonLeaf::Texts(a.selected_values) },
    );
    assert(leaf_views(r@) =~= answer_fields(a@));
    r
}

fn list_answers(v: &Vec<AskUserAnswer>) -> (r: Vec<Vec<JsonField>>)
    ensures
        object_views(r@) == answer_views(v@).map_values(|a: AnswerView| answer_fields(a)),
{
    let ghost all = answer_views(v@).map_values(|a: AnswerView| answer_fields(a));
    let mut r: Vec<Vec<JsonField>> = Vec::new();
    let mut i: usize = 0;
    assert(object_views(r@) =~= all.take(0));
    while i < v.len()
        invariant
            i <= v@.len(),
            all == answer_views(v@).map_values(|a: AnswerView| answer_fields(a)),
            object_views(r@) == all.take(i as int),
        decreases v@.len() - i,
    {
        let ghost before = r@;
        let fields: Vec<JsonField> = list_fields(v[i].clone());
        let ghost shown = leaf_views(fields@);
        r.push(fields);
        assert(object_views(r@) =~= object_views(before).push(shown));
        assert(all.take(i + 1) =~= all.take(i as int).push(all[i as int]));
        i += 1;
    }
    assert(all.take(i as int) =~= all);
    r
}

/// What goes out for the answers: they are written as JSON text.
pub fn write_result(result: AskUserResult) -> (r: String)
    ensures
        is_result_text(
            r@,
            answer_views(result.answers@),
            result.completed,
            text_of(result.reason),
        ),
{
    let objects: Vec<Vec<JsonField>> = list_answers(&result.answers);
    let mut fields: Vec<JsonField> = Vec::new();
    fields.push(JsonField { name: "completed".to_owned(), value: JsonLeaf::Flag(result.completed) });
    let reason: JsonLeaf = match result.reason {
        Some(text) => JsonLeaf::Text(text),
        None => JsonLeaf::Null,
    };
    fields.push(JsonField { name: "reason".to_owned(), value: reason });
    proof {
        reveal_strlit("answers");
        reveal_strlit("completed");
        reveal_strlit("reason");
        assert(leaf_views(fields@) =~= result_fields(result.completed, text_of(result.reason)));
        assert("completed"@.len() == 9 && "answers"@.len() == 7 && "reason"@.len() == 6);
        assert(names_differ(leaf_views(fields@), "answers"@));
    }
    say_or_fail(write_object(fields, "answers".to_owned(), objects))
}

/// What answers say.
pub open spec fn answer_views(v: Seq<AskUserAnswer>) -> Seq<AnswerView> {
    v.map_values(|a: AskUserAnswer| a@)
}

/// What the answers say, by the labels of their questions.
pub open spec fn answer_map(m: Map<Seq<char>, AskUserAnswer>) -> Map<Seq<char>, AnswerView> {
    m.map_values(|a: AskUserAnswer| a@)
}

/// The selections, by the labels of their questions.
pub open spec fn selection_map(m: Map<Seq<char>, Vec<String>>) -> Map<Seq<char>, Seq<Seq<char>>> {
    m.map_values(|v: Vec<String>| texts(v@))
}

fn copy_answer(a: &AskUserAnswer) -> (r: AskUserAnswer)
    ensures
        r@ == a@,
{
    a.clone()
}

fn copy_answers(m: &TextMap<AskUserAnswer>) -> (r: TextMap<AskUserAnswer>)
    ensures
        answer_map(r@) == answer_map(m@),
{
    let r: TextMap<AskUserAnswer> = m.copied(copy_answer);
    assert forall|k: Seq<char>| #[trigger] m@.contains_key(k) implies r@[k]@ == m@[k]@ by {
        assert(call_ensures(copy_answer, (&m@[k],), r@[k]));
    }
    assert(answer_map(r@) =~= answer_map(m@));
    r
}

proof fn lemma_answer_insert(m: Map<Seq<char>, AskUserAnswer>, k: Seq<char>, a: AskUserAnswer)
    ensures
        answer_map(m.insert(k, a)) == answer_map(m).insert(k, a@),
        answer_map(m.remove(k)) == answer_map(m).remove(k),
{
    assert(answer_map(m.insert(k, a)) =~= answer_map(m).insert(k, a@));
    assert(answer_map(m.remove(k)) =~= answer_map(m).remove(k));
}

proof fn lemma_selection_insert(m: Map<Seq<char>, Vec<String>>, k: Seq<char>, v: Vec<String>)
    ensures
        selection_map(m.insert(k, v)) == selection_map(m).insert(k, texts(v@)),
{
    assert(selection_map(m.insert(k, v)) =~= selection_map(m).insert(k, texts(v@)));
}

/// A list of texts as JSON text.
pub uninterp spec fn json_list(v: Seq<Seq<char>>) -> Option<Seq<char>>;

/// `serde_json::to_string` on a list of texts: whether it gives a text, and which, is a function of
/// the texts alone.
#[verifier::external_body]
fn list_to_json(v: &Vec<String>) -> (r: Option<String>)
    ensures
        text_of(r) == json_list(texts(v@)),
{
    serde_json::to_string(v).ok()
}

/// How a selection is written as an answer.
pub open spec fn selection_text(v: Seq<Seq<char>>) -> Seq<char> {
    match json_list(v) {
        Some(t) => t,
        None => "[]"@,
    }
}

/// The answer that a selection of several options stands for.
pub open spec fn selection_answer(label: Seq<char>, v: Seq<Seq<char>>) -> AnswerView {
    AnswerView { label, answer: selection_text(v), is_custom: false, selected: v }
}

fn answer_selection(label: &str, v: &Vec<String>) -> (r: AskUserAnswer)
    ensures
        r@ == selection_answer(label@, texts(v@)),
{
    let selected_values: Vec<String> = v.clone();
    assert(selected_values@ =~= v@);
    let answer: String = match list_to_json(v) {
        Some(t) => t,
        None => "[]".to_owned(),
    };
    AskUserAnswer { question_label: label.to_owned(), answer, is_custom: false, selected_values }
}

/// The answer of one option or of the user's own words.
pub open spec fn plain_answer(label: Seq<char>, answer: Seq<char>, is_custom: bool) -> AnswerView {
    AnswerView { label, answer, is_custom, selected: Seq::empty() }
}

fn answer_plain(label: &str, answer: &str, is_custom: bool) -> (r: AskUserAnswer)
    ensures
        r@ == plain_answer(label@, answer@, is_custom),
{
    let r: AskUserAnswer = AskUserAnswer {
        question_label: label.to_owned(),
        answer: answer.to_owned(),
        is_custom,
        selected_values: Vec::new(),
    };
    assert(r@.selected =~= Seq::<Seq<char>>::empty());
    r
}

// ----- the model -----

/// What is asked, what is answered, and where the user is.
#[verifier::ext_equal]
pub struct AskView {
    pub visible: bool,
    pub focused: bool,
    pub questions: Seq<QuestionView>,
    pub answers: Map<Seq<char>, AnswerView>,
    /// The question that is shown; the number of questions stands for the page that submits.
    pub tab: int,
    pub option: int,
    pub custom: Seq<char>,
    pub tool_call: Option<ToolCall>,
    pub message_id: Option<u128>,
    pub selections: Map<Seq<char>, Seq<Seq<char>>>,
}

impl View for AskUserState {
    type V = AskView;

    open spec fn view(&self) -> AskView {
        AskView {
            visible: self.is_visible,
            focused: self.is_focused,
            questions: question_views(self.questions@),
            answers: answer_map(self.answers@),
            tab: self.current_tab as int,
            option: self.selected_option as int,
            custom: self.custom_input@,
            tool_call: self.tool_call,
            message_id: self.message_id,
            selections: selection_map(self.multi_selections@),
        }
    }
}

impl QuestionView {
    /// How many places a question offers: its options, and one for the user's own words. With
    /// several choices there is no such place.
    pub open spec fn places(self) -> int {
        if self.allow_custom && !self.multi_select {
            (self.options.len() + 1) as int
        } else {
            self.options.len() as int
        }
    }
}

impl AskView {
    /// Whether a question is shown, not the page that submits.
    pub open spec fn on_question(self) -> bool {
        self.visible && 0 <= self.tab < self.questions.len()
    }

    /// The question that is shown.
    pub open spec fn current(self) -> QuestionView {
        self.questions[self.tab]
    }

    /// Whether the place for the user's own words is selected.
    pub open spec fn on_custom(self) -> bool {
        self.on_question() && self.current().allow_custom && self.option
            == self.current().options.len()
    }

    /// Whether user and questions fit: the page is one of the questions or the last one, and the
    /// selected place is one of the question's (the first where it has none).
    pub open spec fn fits(self) -> bool {
        &&& 0 <= self.tab <= self.questions.len()
        &&& 0 <= self.option
        &&& self.tab < self.questions.len() ==> self.option <= self.current().options.len()
        &&& self.tab == self.questions.len() ==> self.option == 0
    }

    /// The view with an answer to the shown question.
    pub open spec fn answered(self, a: AnswerView) -> AskView {
        AskView { answers: self.answers.insert(self.current().label, a), ..self }
    }
}

/// Where the option with the value is.
pub open spec fn option_index(options: Seq<AskUserOption>, value: Seq<char>, from: int) -> Option<
    int,
>
    decreases options.len() - from,
{
    if from < 0 || from >= options.len() {
        None
    } else if options[from].value@ == value {
        Some(from)
    } else {
        option_index(options, value, from + 1)
    }
}

fn find_option(options: &Vec<AskUserOption>, value: &str) -> (r: Option<usize>)
    ensures
        r is Some <==> option_index(options@, value@, 0) is Some,
        r is Some ==> option_index(options@, value@, 0) == Some(r->0 as int) && r->0
            < options@.len(),
{
    let mut i: usize = 0;
    while i < options.len()
        invariant
            i <= options@.len(),
            option_index(options@, value@, 0) == option_index(options@, value@, i as int),
        decreases options@.len() - i,
    {
        if same_text(options[i].value.as_str(), value) {
            return Some(i);
        }
        i += 1;
    }
    None
}

/// A page as it looks when the user comes to it: on the answer that was given, else on the first
/// place. An answer in the user's own words is back in its place.
pub open spec fn restored(v: AskView) -> AskView {
    let clean = AskView { custom: Seq::empty(), option: 0, ..v };
    if v.tab >= v.questions.len() || !v.answers.contains_key(v.current().label) {
        clean
    } else {
        let q = v.current();
        let a = v.answers[q.label];
        if a.is_custom {
            AskView { option: q.options.len() as int, custom: a.answer, ..clean }
        } else {
            match option_index(q.options, a.answer, 0) {
                Some(i) => AskView { option: i, ..clean },
                None => clean,
            }
        }
    }
}

/// One page on; the last page stays.
pub open spec fn tab_right(v: AskView) -> AskView {
    if v.tab < v.questions.len() {
        restored(AskView { tab: v.tab + 1, ..v })
    } else {
        v
    }
}

/// One page back; the first page stays.
pub open spec fn tab_left(v: AskView) -> AskView {
    if v.tab > 0 {
        restored(AskView { tab: v.tab - 1, ..v })
    } else {
        v
    }
}

/// The selection without the value where it holds it, else with it behind the others.
pub open spec fn toggled(s: Seq<Seq<char>>, value: Seq<char>) -> Seq<Seq<char>> {
    if s.contains(value) {
        dropped(s, value)
    } else {
        s.push(value)
    }
}

/// The selection without the value.
pub open spec fn dropped(s: Seq<Seq<char>>, value: Seq<char>) -> Seq<Seq<char>>
    decreases s.len(),
{
    if s.len() == 0 {
        Seq::empty()
    } else if s.last() == value {
        dropped(s.drop_last(), value)
    } else {
        dropped(s.drop_last(), value).push(s.last())
    }
}

/// What is selected of a question with several choices.
pub open spec fn chosen(v: AskView, label: Seq<char>) -> Seq<Seq<char>> {
    if v.selections.contains_key(label) {
        v.selections[label]
    } else {
        Seq::empty()
    }
}

/// The selected option of the shown question is chosen, or with several choices turned on or off.
/// An empty choice is no answer; nor is a place for the user's own words that is empty.
pub open spec fn picked(v: AskView) -> AskView {
    let q = v.current();
    if q.multi_select {
        if v.option < q.options.len() {
            let s = toggled(chosen(v, q.label), q.options[v.option].value@);
            let w = AskView { selections: v.selections.insert(q.label, s), ..v };
            if s.len() == 0 {
                AskView { answers: v.answers.remove(q.label), ..w }
            } else {
                w.answered(selection_answer(q.label, s))
            }
        } else {
            v
        }
    } else if q.allow_custom && v.option == q.options.len() {
        if v.custom.len() > 0 {
            v.answered(plain_answer(q.label, v.custom, true))
        } else {
            v
        }
    } else if v.option < q.options.len() {
        v.answered(plain_answer(q.label, q.options[v.option].value@, false))
    } else {
        v
    }
}

/// The user's own words, where that place is selected and holds any, are the answer.
pub open spec fn own_words_kept(v: AskView) -> AskView {
    let q = v.current();
    if !q.multi_select && q.allow_custom && v.option == q.options.len() && v.custom.len() > 0 {
        v.answered(plain_answer(q.label, v.custom, true))
    } else {
        v
    }
}

/// Nothing is asked.
pub open spec fn closed_view() -> AskView {
    AskView {
        visible: false,
        focused: false,
        questions: Seq::empty(),
        answers: Map::empty(),
        tab: 0,
        option: 0,
        custom: Seq::empty(),
        tool_call: None,
        message_id: None,
        selections: Map::empty(),
    }
}

/// The values of the options that are selected from the start, of the first `n` options.
pub open spec fn default_values(options: Seq<AskUserOption>, n: int) -> Seq<Seq<char>>
    decreases n,
{
    if n <= 0 || n > options.len() {
        Seq::empty()
    } else if options[n - 1].selected {
        default_values(options, n - 1).push(options[n - 1].value@)
    } else {
        default_values(options, n - 1)
    }
}

/// The view after the first `n` questions have taken over what is selected from the start.
pub open spec fn with_defaults(v: AskView, n: int) -> AskView
    decreases n,
{
    if n <= 0 || n > v.questions.len() {
        v
    } else {
        let w = with_defaults(v, n - 1);
        let q = v.questions[n - 1];
        let d = default_values(q.options, q.options.len() as int);
        if q.multi_select && d.len() > 0 {
            AskView {
                selections: w.selections.insert(q.label, d),
                answers: w.answers.insert(q.label, selection_answer(q.label, d)),
                ..w
            }
        } else {
            w
        }
    }
}

/// The questions as they are first shown, before the message that shows them.
pub open spec fn opened(call: ToolCall, questions: Seq<QuestionView>, id: Option<u128>) -> AskView {
    with_defaults(
        AskView {
            visible: true,
            focused: true,
            questions,
            tool_call: Some(call),
            message_id: id,
            ..closed_view()
        },
        questions.len() as int,
    )
}

/// The answers that were given, in the order of the first `n` questions.
pub open spec fn given_answers(v: AskView, n: int) -> Seq<AnswerView>
    decreases n,
{
    if n <= 0 || n > v.questions.len() {
        Seq::empty()
    } else if v.answers.contains_key(v.questions[n - 1].label) {
        given_answers(v, n - 1).push(v.answers[v.questions[n - 1].label])
    } else {
        given_answers(v, n - 1)
    }
}

// ----- the message that shows the questions -----

/// Whether the content shows the questions as the view has them.
pub open spec fn shows(c: MessageContent, v: AskView) -> bool {
    c matches MessageContent::RenderAskUserBlock {
        questions,
        answers,
        current_tab,
        selected_option,
        custom_input,
        focused,
    } && question_views(questions@) == v.questions && answer_map(answers@) == v.answers
        && current_tab == v.tab && selected_option == v.option && custom_input@ == v.custom
        && focused == v.focused
}

fn block_content(a: &AskUserState) -> (c: MessageContent)
    ensures
        shows(c, a@),
{
    MessageContent::RenderAskUserBlock {
        questions: copy_questions(&a.questions),
        answers: copy_answers(&a.answers),
        current_tab: a.current_tab,
        selected_option: a.selected_option,
        custom_input: a.custom_input.clone(),
        focused: a.is_focused,
    }
}

/// The conversation after its message with the questions was drawn anew.
pub open spec fn redrawn(
    pre: MessagesScrollingState,
    post: MessagesScrollingState,
    v: AskView,
) -> bool {
    match v.message_id {
        None => post == pre,
        Some(id) => {
            &&& post == (MessagesScrollingState {
                messages: post.messages,
                message_lines_cache: None,
                collapsed_message_lines_cache: None,
                assembled_lines_cache: None,
                lines_stale: true,
                ..pre
            })
            &&& match message_at(pre.messages@, id, 0) {
                None => post.messages@ == pre.messages@,
                Some(i) => {
                    &&& 0 <= i < pre.messages@.len()
                    &&& post.messages@ == pre.messages@.update(
                        i,
                        Message { content: post.messages@[i].content, ..pre.messages@[i] },
                    )
                    &&& shows(post.messages@[i].content, v)
                },
            }
        },
    }
}

/// The state after the questions changed and their message was drawn anew.
pub open spec fn asked(pre: AppState, post: AppState, v: AskView) -> bool {
    &&& post == (AppState {
        ask_user_state: post.ask_user_state,
        messages_scrolling_state: post.messages_scrolling_state,
        ..pre
    })
    &&& post.ask_user_state@ == v
    &&& redrawn(pre.messages_scrolling_state, post.messages_scrolling_state, v)
}

/// Draws the message with the questions anew.
pub fn refresh_ask_user_block_pub(state: &mut AppState)
    ensures
        asked(*old(state), *final(state), old(state).ask_user_state@),
{
    match state.ask_user_state.message_id {
        Some(id) => {
            match find_message(&state.messages_scrolling_state.messages, id) {
                Some(i) => {
                    let content: MessageContent = block_content(&state.ask_user_state);
                    set_content(&mut state.messages_scrolling_state.messages, i, content);
                },
                None => {},
            }
            state.messages_scrolling_state.assembled_lines_cache = None;
            state.messages_scrolling_state.message_lines_cache = None;
            state.messages_scrolling_state.collapsed_message_lines_cache = None;
            state.messages_scrolling_state.lines_stale = true;
        },
        None => {},
    }
}

// ----- showing questions -----

/// What a call that asks nothing is answered.
pub open spec fn empty_answered(tool_call: ToolCall, sent: Outbox, out: Outbox) -> bool {
    sent.outputs(
        out,
        |e: OutputEvent|
            e matches OutputEvent::AskUserResponse(r) && r.call == tool_call && r.status
                == ToolCallResultStatus::Error && is_result_text(
                r.result@,
                Seq::empty(),
                false,
                Some("ask_user tool was called with no questions"@),
            ),
    )
}

/// Answers a call that asks nothing, so that nobody waits for an answer.
pub fn send_empty_questions_error(tool_call: ToolCall, out: &mut Outbox)
    ensures
        empty_answered(tool_call, *old(out), *final(out)),
{
    let result: AskUserResult = AskUserResult {
        answers: Vec::new(),
        completed: false,
        reason: Some("ask_user tool was called with no questions".to_owned()),
    };
    assert(answer_views(result.answers@) =~= Seq::<AnswerView>::empty());
    let result: ToolCallResult = ToolCallResult {
        call: tool_call,
        result: write_result(result),
        status: ToolCallResultStatus::Error,
    };
    let _sent: bool = out.send_output(OutputEvent::AskUserResponse(result));
}

/// The conversation without the message that waits for an approval.
pub open spec fn without_pending(t: ToolCallState, messages: Seq<Message>) -> Seq<Message> {
    match t.pending_bash_message_id {
        Some(id) => without(messages, id),
        None => messages,
    }
}

/// What showing questions does. Without questions nothing happens. The message that waited for an
/// approval of the call gives way to the message with the questions, and the view goes to the end.
pub open spec fn popup_shown(
    pre: AppState,
    post: AppState,
    call: ToolCall,
    questions: Seq<AskUserQuestion>,
) -> bool {
    if questions.len() == 0 {
        post == pre
    } else {
        let m = pre.messages_scrolling_state;
        let n = post.messages_scrolling_state;
        &&& post == (AppState {
            ask_user_state: post.ask_user_state,
            messages_scrolling_state: n,
            tool_call_state: ToolCallState { pending_bash_message_id: None, ..pre.tool_call_state },
            ..pre
        })
        &&& n == (MessagesScrollingState {
            messages: n.messages,
            lines_stale: true,
            stay_at_bottom: true,
            ..m
        })
        &&& n.messages@.len() > 0
        &&& post.ask_user_state@ == opened(
            call,
            question_views(questions),
            Some(n.messages@.last().id),
        )
        &&& pushed(
            without_pending(pre.tool_call_state, m.messages@),
            n.messages@,
            |c: MessageContent| shows(c, post.ask_user_state@),
        )
    }
}

fn selected_defaults(options: &Vec<AskUserOption>) -> (r: Vec<String>)
    ensures
        texts(r@) == default_values(options@, options@.len() as int),
{
    let mut r: Vec<String> = Vec::new();
    let mut i: usize = 0;
    assert(texts(r@) =~= Seq::<Seq<char>>::empty());
    while i < options.len()
        invariant
            i <= options@.len(),
            texts(r@) == default_values(options@, i as int),
        decreases options@.len() - i,
    {
        if options[i].selected {
            let value: String = options[i].value.clone();
            proof {
                crate::text::lemma_texts_push(r@, value);
            }
            r.push(value);
        }
        i += 1;
    }
    r
}

fn take_defaults(a: &mut AskUserState)
    ensures
        final(a)@ == with_defaults(old(a)@, old(a)@.questions.len() as int),
{
    let ghost start = a@;
    let mut i: usize = 0;
    while i < a.questions.len()
        invariant
            i <= a.questions@.len(),
            start == old(a)@,
            a.questions == old(a).questions,
            a@ == with_defaults(start, i as int),
        decreases a.questions@.len() - i,
    {
        let defaults: Vec<String> = selected_defaults(&a.questions[i].options);
        assert(start.questions[i as int] == a.questions@[i as int]@);
        assert(texts(defaults@).len() == defaults@.len());
        if a.questions[i].multi_select && defaults.len() > 0 {
            let label: String = a.questions[i].label.clone();
            let answer: AskUserAnswer = answer_selection(label.as_str(), &defaults);
            proof {
                lemma_answer_insert(a.answers@, label@, answer);
                lemma_selection_insert(a.multi_selections@, label@, defaults);
            }
            a.answers.insert(label.clone(), answer);
            a.multi_selections.insert(label, defaults);
        }
        i += 1;
        assert(a@ =~= with_defaults(start, i as int));
    }
}

/// Shows questions to the user.
pub fn handle_show_ask_user_popup(
    state: &mut AppState,
    tool_call: ToolCall,
    questions: Vec<AskUserQuestion>,
)
    ensures
        popup_shown(*old(state), *final(state), tool_call, questions@),
{
    if questions.len() == 0 {
        return;
    }
    match state.tool_call_state.pending_bash_message_id {
        Some(id) => {
            remove_message(&mut state.messages_scrolling_state.messages, id);
            state.tool_call_state.pending_bash_message_id = None;
        },
        None => {},
    }
    let mut custom_input: String = String::new();
    assert(custom_input@ =~= Seq::<char>::empty());
    let mut a: AskUserState = AskUserState {
        is_visible: true,
        questions,
        answers: TextMap::new(),
        current_tab: 0,
        selected_option: 0,
        custom_input,
        tool_call: Some(tool_call),
        message_id: None,
        is_focused: true,
        multi_selections: TextMap::new(),
    };
    let ghost start = a@;
    proof {
        assert(a@.answers =~= Map::<Seq<char>, AnswerView>::empty());
        assert(a@.selections =~= Map::<Seq<char>, Seq<Seq<char>>>::empty());
        lemma_defaults_keep_id(start, start.questions.len() as int);
    }
    take_defaults(&mut a);
    let m: Message = Message::new(block_content(&a));
    let ghost before = a@;
    a.message_id = Some(m.id);
    proof {
        lemma_defaults_with_id(start, Some(m.id), start.questions.len() as int);
        assert(a@ =~= (AskView { message_id: Some(m.id), ..before }));
        assert((AskView { message_id: Some(m.id), ..start }) =~= (AskView {
            visible: true,
            focused: true,
            questions: question_views(questions@),
            tool_call: Some(tool_call),
            message_id: Some(m.id),
            ..closed_view()
        }));
        assert(shows(m.content, a@));
    }
    state.ask_user_state = a;
    let ghost messages = state.messages_scrolling_state.messages@;
    state.messages_scrolling_state.messages.push(m);
    assert(state.messages_scrolling_state.messages@.drop_last() =~= messages);
    state.messages_scrolling_state.lines_stale = true;
    state.messages_scrolling_state.stay_at_bottom = true;
}

proof fn lemma_defaults_keep_id(v: AskView, n: int)
    ensures
        with_defaults(v, n).questions == v.questions,
    decreases n,
{
    if 0 < n <= v.questions.len() {
        lemma_defaults_keep_id(v, n - 1);
    }
}

proof fn lemma_defaults_with_id(v: AskView, id: Option<u128>, n: int)
    ensures
        with_defaults(AskView { message_id: id, ..v }, n) == (AskView {
            message_id: id,
            ..with_defaults(v, n)
        }),
    decreases n,
{
    if 0 < n <= v.questions.len() {
        lemma_defaults_with_id(v, id, n - 1);
    }
}

// ----- going through the questions -----

fn restore_selection_for_current_tab(a: &mut AskUserState)
    ensures
        final(a)@ == restored(old(a)@),
{
    let ghost pre = a@;
    a.custom_input.clear();
    assert(a.custom_input@ =~= Seq::<char>::empty());
    a.selected_option = 0;
    if a.current_tab >= a.questions.len() {
        assert(a@ =~= restored(pre));
        return;
    }
    let tab: usize = a.current_tab;
    assert(pre.current() == a.questions@[tab as int]@);
    let mut option: usize = 0;
    let mut words: String = String::new();
    assert(words@ =~= Seq::<char>::empty());
    match a.answers.get(a.questions[tab].label.as_str()) {
        Some(answer) => {
            assert(pre.answers[pre.current().label] == answer@);
            if answer.is_custom {
                option = a.questions[tab].options.len();
                words = answer.answer.clone();
            } else {
                match find_option(&a.questions[tab].options, answer.answer.as_str()) {
                    Some(i) => {
                        option = i;
                    },
                    None => {},
                }
            }
        },
        None => {},
    }
    a.selected_option = option;
    a.custom_input = words;
    assert(a@ =~= restored(pre));
}

/// Whether the message with the questions was drawn anew; where they are not shown, nothing happened.
pub open spec fn stepped(pre: AppState, post: AppState, w: AskView) -> bool {
    if pre.ask_user_state@.visible {
        asked(pre, post, w)
    } else {
        post == pre
    }
}

/// Goes one page on.
pub fn handle_ask_user_next_tab(state: &mut AppState)
    ensures
        stepped(*old(state), *final(state), tab_right(old(state).ask_user_state@)),
{
    if !state.ask_user_state.is_visible {
        return;
    }
    if state.ask_user_state.current_tab < state.ask_user_state.questions.len() {
        let ghost pre = state.ask_user_state@;
        state.ask_user_state.current_tab = state.ask_user_state.current_tab + 1;
        assert(state.ask_user_state@ =~= (AskView { tab: pre.tab + 1, ..pre }));
        restore_selection_for_current_tab(&mut state.ask_user_state);
    }
    refresh_ask_user_block_pub(state);
}

/// Goes one page back.
pub fn handle_ask_user_prev_tab(state: &mut AppState)
    ensures
        stepped(*old(state), *final(state), tab_left(old(state).ask_user_state@)),
{
    if !state.ask_user_state.is_visible {
        return;
    }
    if state.ask_user_state.current_tab > 0 {
        let ghost pre = state.ask_user_state@;
        state.ask_user_state.current_tab = state.ask_user_state.current_tab - 1;
        assert(state.ask_user_state@ =~= (AskView { tab: pre.tab - 1, ..pre }));
        restore_selection_for_current_tab(&mut state.ask_user_state);
    }
    refresh_ask_user_block_pub(state);
}

/// Whether the user can go one place down.
pub open spec fn can_go_down(v: AskView) -> bool {
    v.on_question() && v.option + 1 < v.current().places()
}

/// Whether the user can go one place up.
pub open spec fn can_go_up(v: AskView) -> bool {
    v.on_question() && v.option > 0
}

/// How many places a question offers, as far as the machine counts.
pub fn get_total_options(question: &AskUserQuestion) -> (n: usize)
    ensures
        n == question@.places() || (n == usize::MAX && question@.places() > usize::MAX),
{
    let n: usize = question.options.len();
    if question.allow_custom && !question.multi_select && n < usize::MAX {
        n + 1
    } else {
        n
    }
}

/// Whether a place of the question follows the selected one.
fn has_next_place(q: &AskUserQuestion, selected: usize) -> (r: bool)
    ensures
        r == (selected + 1 < q@.places()),
        r ==> selected < usize::MAX,
{
    let n: usize = q.options.len();
    if q.allow_custom && !q.multi_select {
        selected < n
    } else {
        n > 0 && selected < n - 1
    }
}

/// The state after the step to the place below.
pub open spec fn gone_down(pre: AppState, post: AppState) -> bool {
    let v = pre.ask_user_state@;
    if can_go_down(v) {
        asked(pre, post, AskView { option: v.option + 1, ..v })
    } else {
        post == pre
    }
}

/// The state after the step to the place above.
pub open spec fn gone_up(pre: AppState, post: AppState) -> bool {
    let v = pre.ask_user_state@;
    if can_go_up(v) {
        asked(pre, post, AskView { option: v.option - 1, ..v })
    } else {
        post == pre
    }
}

/// Goes one place down. Whether there was one.
pub fn handle_ask_user_next_option(state: &mut AppState) -> (moved: bool)
    ensures
        moved == can_go_down(old(state).ask_user_state@),
        gone_down(*old(state), *final(state)),
{
    if !state.ask_user_state.is_visible {
        return false;
    }
    let tab: usize = state.ask_user_state.current_tab;
    if tab >= state.ask_user_state.questions.len() {
        return false;
    }
    let ghost pre = state.ask_user_state@;
    assert(pre.current() == state.ask_user_state.questions@[tab as int]@);
    if has_next_place(
        &state.ask_user_state.questions[tab],
        state.ask_user_state.selected_option,
    ) {
        state.ask_user_state.selected_option = state.ask_user_state.selected_option + 1;
        assert(state.ask_user_state@ =~= (AskView { option: pre.option + 1, ..pre }));
        refresh_ask_user_block_pub(state);
        true
    } else {
        false
    }
}

/// Goes one place up. Whether there was one.
pub fn handle_ask_user_prev_option(state: &mut AppState) -> (moved: bool)
    ensures
        moved == can_go_up(old(state).ask_user_state@),
        gone_up(*old(state), *final(state)),
{
    if !state.ask_user_state.is_visible {
        return false;
    }
    if state.ask_user_state.current_tab >= state.ask_user_state.questions.len() {
        return false;
    }
    let ghost pre = state.ask_user_state@;
    if state.ask_user_state.selected_option > 0 {
        state.ask_user_state.selected_option = state.ask_user_state.selected_option - 1;
        assert(state.ask_user_state@ =~= (AskView { option: pre.option - 1, ..pre }));
        refresh_ask_user_block_pub(state);
        true
    } else {
        false
    }
}

// ----- answering -----

fn holds(v: &Vec<String>, value: &str) -> (r: bool)
    ensures
        r == texts(v@).contains(value@),
{
    let mut i: usize = 0;
    while i < v.len()
        invariant
            i <= v@.len(),
            forall|j: int| 0 <= j < i ==> texts(v@)[j] != value@,
        decreases v@.len() - i,
    {
        if same_text(v[i].as_str(), value) {
            assert(texts(v@)[i as int] == value@);
            return true;
        }
        i += 1;
    }
    assert(!texts(v@).contains(value@)) by {
        if texts(v@).contains(value@) {
            let j = choose|j: int| 0 <= j < texts(v@).len() && texts(v@)[j] == value@;
            assert(texts(v@)[j] != value@);
        }
    }
    false
}

fn toggle_value(v: &Vec<String>, value: &str) -> (r: Vec<String>)
    ensures
        texts(r@) == toggled(texts(v@), value@),
{
    if !holds(v, value) {
        let mut r: Vec<String> = v.clone();
        assert(r@ =~= v@);
        let s: String = value.to_owned();
        proof {
            crate::text::lemma_texts_push(r@, s);
        }
        r.push(s);
        return r;
    }
    let mut r: Vec<String> = Vec::new();
    let mut i: usize = 0;
    let ghost all = texts(v@);
    assert(texts(r@) =~= Seq::<Seq<char>>::empty());
    assert(all.take(0) =~= Seq::<Seq<char>>::empty());
    while i < v.len()
        invariant
            i <= v@.len(),
            all == texts(v@),
            texts(r@) == dropped(all.take(i as int), value@),
        decreases v@.len() - i,
    {
        assert(all.take(i + 1).drop_last() =~= all.take(i as int));
        assert(all[i as int] == v@[i as int]@);
        if !same_text(v[i].as_str(), value) {
            let s: String = v[i].clone();
            proof {
                crate::text::lemma_texts_push(r@, s);
            }
            r.push(s);
        }
        i += 1;
    }
    assert(all.take(i as int) =~= all);
    r
}

fn pick(a: &mut AskUserState)
    requires
        old(a)@.on_question(),
    ensures
        final(a)@ == picked(old(a)@),
{
    let ghost pre = a@;
    let tab: usize = a.current_tab;
    let option: usize = a.selected_option;
    assert(pre.current() == a.questions@[tab as int]@);
    let label: String = a.questions[tab].label.clone();
    let n: usize = a.questions[tab].options.len();
    if a.questions[tab].multi_select {
        if option < n {
            let value: String = a.questions[tab].options[option].value.clone();
            let next: Vec<String> = match a.multi_selections.get(label.as_str()) {
                Some(v) => {
                    assert(chosen(pre, label@) == texts(v@));
                    toggle_value(v, value.as_str())
                },
                None => {
                    let none: Vec<String> = Vec::new();
                    assert(texts(none@) =~= chosen(pre, label@));
                    toggle_value(&none, value.as_str())
                },
            };
            assert(texts(next@).len() == next@.len());
            let answer: AskUserAnswer = answer_selection(label.as_str(), &next);
            proof {
                lemma_answer_insert(a.answers@, label@, answer);
                lemma_selection_insert(a.multi_selections@, label@, next);
            }
            if next.len() == 0 {
                a.answers.remove(label.as_str());
            } else {
                a.answers.insert(label.clone(), answer);
            }
            a.multi_selections.insert(label, next);
            assert(a@ =~= picked(pre));
        }
        return;
    }
    if a.questions[tab].allow_custom && option == n {
        keep_own_words(a);
        return;
    }
    if option < n {
        let answer: AskUserAnswer = answer_plain(
            label.as_str(),
            a.questions[tab].options[option].value.as_str(),
            false,
        );
        proof {
            lemma_answer_insert(a.answers@, label@, answer);
        }
        a.answers.insert(label, answer);
        assert(a@ =~= picked(pre));
    }
}

fn keep_own_words(a: &mut AskUserState)
    requires
        old(a)@.on_question(),
    ensures
        final(a)@ == own_words_kept(old(a)@),
{
    let ghost pre = a@;
    let tab: usize = a.current_tab;
    assert(pre.current() == a.questions@[tab as int]@);
    if !a.questions[tab].multi_select && a.questions[tab].allow_custom && a.selected_option
        == a.questions[tab].options.len() && !crate::app::is_empty(a.custom_input.as_str()) {
        let label: String = a.questions[tab].label.clone();
        let answer: AskUserAnswer = answer_plain(label.as_str(), a.custom_input.as_str(), true);
        proof {
            lemma_answer_insert(a.answers@, label@, answer);
        }
        a.answers.insert(label, answer);
        assert(a@ =~= own_words_kept(pre));
    }
}

/// Chooses the selected option, or turns it on or off where several can be chosen; the page stays.
/// On the last page it submits.
pub fn handle_ask_user_select_option(state: &mut AppState, out: &mut Outbox)
    ensures
        selected(*old(state), *final(state), *old(out), *final(out)),
{
    if !state.ask_user_state.is_visible {
        return;
    }
    if state.ask_user_state.current_tab >= state.ask_user_state.questions.len() {
        handle_ask_user_submit(state, out);
        return;
    }
    pick(&mut state.ask_user_state);
    refresh_ask_user_block_pub(state);
}

/// What choosing does.
pub open spec fn selected(pre: AppState, post: AppState, sent: Outbox, out: Outbox) -> bool {
    let v = pre.ask_user_state@;
    if !v.visible {
        post == pre && out == sent
    } else if v.tab >= v.questions.len() {
        submitted(pre, post, sent, out)
    } else {
        asked(pre, post, picked(v)) && out == sent
    }
}

/// Goes on to the next page. It chooses nothing, but keeps the user's own words. On the last page it
/// submits.
pub fn handle_ask_user_confirm_question(state: &mut AppState, out: &mut Outbox)
    ensures
        confirmed(*old(state), *final(state), *old(out), *final(out)),
{
    if !state.ask_user_state.is_visible {
        return;
    }
    if state.ask_user_state.current_tab >= state.ask_user_state.questions.len() {
        handle_ask_user_submit(state, out);
        return;
    }
    keep_own_words(&mut state.ask_user_state);
    handle_ask_user_next_tab(state);
}

/// What going on does.
pub open spec fn confirmed(pre: AppState, post: AppState, sent: Outbox, out: Outbox) -> bool {
    let v = pre.ask_user_state@;
    if !v.visible {
        post == pre && out == sent
    } else if v.tab >= v.questions.len() {
        submitted(pre, post, sent, out)
    } else {
        asked(pre, post, tab_right(own_words_kept(v))) && out == sent
    }
}

/// What typing in the place for the user's own words does: elsewhere it does nothing.
pub open spec fn words_changed(pre: AppState, post: AppState, words: Seq<char>) -> bool {
    let v = pre.ask_user_state@;
    if v.on_custom() {
        asked(pre, post, AskView { custom: words, ..v })
    } else {
        post == pre
    }
}

/// Pastes a text behind the user's own words.
pub fn handle_ask_user_custom_input_paste(state: &mut AppState, text: &str)
    ensures
        words_changed(
            *old(state),
            *final(state),
            old(state).ask_user_state@.custom + text@,
        ),
{
    if !is_custom_input_selected(state) {
        return;
    }
    let ghost pre = state.ask_user_state@;
    state.ask_user_state.custom_input.push_str(text);
    assert(state.ask_user_state@ =~= (AskView { custom: pre.custom + text@, ..pre }));
    refresh_ask_user_block_pub(state);
}

/// Types a character behind the user's own words.
pub fn handle_ask_user_custom_input_changed(state: &mut AppState, c: char)
    ensures
        words_changed(*old(state), *final(state), old(state).ask_user_state@.custom.push(c)),
{
    if !is_custom_input_selected(state) {
        return;
    }
    let ghost pre = state.ask_user_state@;
    state.ask_user_state.custom_input.push(c);
    assert(state.ask_user_state@ =~= (AskView { custom: pre.custom.push(c), ..pre }));
    refresh_ask_user_block_pub(state);
}

/// The text without its last character.
pub open spec fn without_last(s: Seq<char>) -> Seq<char> {
    if s.len() > 0 {
        s.drop_last()
    } else {
        s
    }
}

/// Takes the last character of the user's own words away.
pub fn handle_ask_user_custom_input_backspace(state: &mut AppState)
    ensures
        words_changed(*old(state), *final(state), without_last(old(state).ask_user_state@.custom)),
{
    if !is_custom_input_selected(state) {
        return;
    }
    let ghost pre = state.ask_user_state@;
    let _last: Option<char> = state.ask_user_state.custom_input.pop();
    assert(state.ask_user_state@ =~= (AskView { custom: without_last(pre.custom), ..pre }));
    refresh_ask_user_block_pub(state);
}

/// Takes the user's own words away.
pub fn handle_ask_user_custom_input_delete(state: &mut AppState)
    ensures
        words_changed(*old(state), *final(state), Seq::empty()),
{
    if !is_custom_input_selected(state) {
        return;
    }
    let ghost pre = state.ask_user_state@;
    state.ask_user_state.custom_input.clear();
    assert(state.ask_user_state@ =~= (AskView { custom: Seq::empty(), ..pre }));
    refresh_ask_user_block_pub(state);
}

// ----- the end -----

/// The state after the questions are gone, with their message.
pub open spec fn closed(pre: AppState, post: AppState) -> bool {
    let m = pre.messages_scrolling_state;
    let n = post.messages_scrolling_state;
    &&& post == (AppState {
        ask_user_state: post.ask_user_state,
        messages_scrolling_state: n,
        ..pre
    })
    &&& post.ask_user_state@ == closed_view()
    &&& n == (MessagesScrollingState { messages: n.messages, lines_stale: true, ..m })
    &&& n.messages@ == (match pre.ask_user_state.message_id {
        Some(id) => without(m.messages@, id),
        None => m.messages@,
    })
}

fn close_ask_user_popup(state: &mut AppState)
    ensures
        closed(*old(state), *final(state)),
{
    match state.ask_user_state.message_id {
        Some(id) => {
            remove_message(&mut state.messages_scrolling_state.messages, id);
        },
        None => {},
    }
    let custom_input: String = String::new();
    state.ask_user_state = AskUserState {
        is_visible: false,
        questions: Vec::new(),
        answers: TextMap::new(),
        current_tab: 0,
        selected_option: 0,
        custom_input,
        tool_call: None,
        message_id: None,
        is_focused: false,
        multi_selections: TextMap::new(),
    };
    assert(state.ask_user_state@ =~= closed_view());
    state.messages_scrolling_state.lines_stale = true;
}

/// What goes out for a text: what stands for it, where it holds secrets.
pub open spec fn without_secret(t: Seq<char>, hidden: Map<Seq<char>, String>) -> Seq<char> {
    if hidden.contains_key(t) {
        hidden[t]@
    } else {
        t
    }
}

/// The answers as they go out.
pub open spec fn without_secrets(v: Seq<AnswerView>, hidden: Map<Seq<char>, String>) -> Seq<
    AnswerView,
> {
    v.map_values(
        |a: AnswerView| AnswerView { answer: without_secret(a.answer, hidden), ..a },
    )
}

fn hide_secrets(v: Vec<AskUserAnswer>, hidden: &TextMap<String>) -> (r: Vec<AskUserAnswer>)
    ensures
        answer_views(r@) == without_secrets(answer_views(v@), hidden@),
{
    let ghost all = without_secrets(answer_views(v@), hidden@);
    let mut r: Vec<AskUserAnswer> = Vec::new();
    let mut i: usize = 0;
    assert(answer_views(r@) =~= all.take(0));
    while i < v.len()
        invariant
            i <= v@.len(),
            all == without_secrets(answer_views(v@), hidden@),
            answer_views(r@) == all.take(i as int),
        decreases v@.len() - i,
    {
        let mut a: AskUserAnswer = v[i].clone();
        match hidden.get(v[i].answer.as_str()) {
            Some(text) => {
                a.answer = text.clone();
            },
            None => {},
        }
        let ghost before = r@;
        let ghost shown = a@;
        r.push(a);
        assert(answer_views(r@) =~= answer_views(before).push(shown));
        assert(shown == all[i as int]);
        assert(all.take(i + 1) =~= all.take(i as int).push(all[i as int]));
        i += 1;
    }
    assert(all.take(i as int) =~= all);
    r
}

/// What submitting does: the answers go out in the order of the questions, where a call waits for
/// them, and the questions are gone.
pub open spec fn submitted(pre: AppState, post: AppState, sent: Outbox, out: Outbox) -> bool {
    let v = pre.ask_user_state@;
    if !v.visible {
        post == pre && out == sent
    } else {
        &&& closed(pre, post)
        &&& match v.tool_call {
            None => out == sent,
            Some(call) => sent.outputs(
                out,
                |e: OutputEvent|
                    e matches OutputEvent::AskUserResponse(r) && r.call == call && r.status
                        == ToolCallResultStatus::Success && is_result_text(
                        r.result@,
                        without_secrets(
                            given_answers(v, v.questions.len() as int),
                            pre.configuration_state.hidden_texts@,
                        ),
                        true,
                        None,
                    ),
            ),
        }
    }
}

fn collect_answers(a: &AskUserState) -> (r: Vec<AskUserAnswer>)
    ensures
        answer_views(r@) == given_answers(a@, a@.questions.len() as int),
{
    let mut r: Vec<AskUserAnswer> = Vec::new();
    let mut i: usize = 0;
    assert(answer_views(r@) =~= Seq::<AnswerView>::empty());
    while i < a.questions.len()
        invariant
            i <= a.questions@.len(),
            answer_views(r@) == given_answers(a@, i as int),
        decreases a.questions@.len() - i,
    {
        assert(a@.questions[i as int] == a.questions@[i as int]@);
        match a.answers.get(a.questions[i].label.as_str()) {
            Some(answer) => {
                let copy: AskUserAnswer = answer.clone();
                let ghost before = r@;
                r.push(copy);
                assert(answer_views(r@) =~= answer_views(before).push(copy@));
                assert(a@.answers[a@.questions[i as int].label] == answer@);
            },
            None => {},
        }
        i += 1;
    }
    r
}

/// Sends the answers.
pub fn handle_ask_user_submit(state: &mut AppState, out: &mut Outbox)
    ensures
        submitted(*old(state), *final(state), *old(out), *final(out)),
{
    if !state.ask_user_state.is_visible {
        return;
    }
    let answers: Vec<AskUserAnswer> = collect_answers(&state.ask_user_state);
    match &state.ask_user_state.tool_call {
        Some(call) => {
            let answers: Vec<AskUserAnswer> = hide_secrets(
                answers,
                &state.configuration_state.hidden_texts,
            );
            let result: ToolCallResult = ToolCallResult {
                call: call.clone(),
                result: write_result(AskUserResult { answers, completed: true, reason: None }),
                status: ToolCallResultStatus::Success,
            };
            let _sent: bool = out.send_output(OutputEvent::AskUserResponse(result));
        },
        None => {},
    }
    close_ask_user_popup(state);
}

/// What cancelling does: the call that waits is told so, and the questions are gone.
pub open spec fn cancelled(pre: AppState, post: AppState, sent: Outbox, out: Outbox) -> bool {
    let v = pre.ask_user_state@;
    if !v.visible {
        post == pre && out == sent
    } else {
        &&& closed(pre, post)
        &&& match v.tool_call {
            None => out == sent,
            Some(call) => sent.outputs(
                out,
                |e: OutputEvent|
                    e matches OutputEvent::AskUserResponse(r) && r.call == call && r.status
                        == ToolCallResultStatus::Cancelled && is_result_text(
                        r.result@,
                        Seq::empty(),
                        false,
                        Some("User cancelled the question prompt."@),
                    ),
            ),
        }
    }
}

/// Cancels the questions.
pub fn handle_ask_user_cancel(state: &mut AppState, out: &mut Outbox)
    ensures
        cancelled(*old(state), *final(state), *old(out), *final(out)),
{
    if !state.ask_user_state.is_visible {
        return;
    }
    match &state.ask_user_state.tool_call {
        Some(call) => {
            let result: AskUserResult = AskUserResult {
                answers: Vec::new(),
                completed: false,
                reason: Some("User cancelled the question prompt.".to_owned()),
            };
            assert(answer_views(result.answers@) =~= Seq::<AnswerView>::empty());
            let result: ToolCallResult = ToolCallResult {
                call: call.clone(),
                result: write_result(result),
                status: ToolCallResultStatus::Cancelled,
            };
            let _sent: bool = out.send_output(OutputEvent::AskUserResponse(result));
        },
        None => {},
    }
    close_ask_user_popup(state);
}

/// Whether the place for the user's own words is selected.
pub fn is_custom_input_selected(state: &AppState) -> (r: bool)
    ensures
        r == state.ask_user_state@.on_custom(),
{
    if !state.ask_user_state.is_visible {
        return false;
    }
    let tab: usize = state.ask_user_state.current_tab;
    if tab >= state.ask_user_state.questions.len() {
        return false;
    }
    assert(state.ask_user_state@.current() == state.ask_user_state.questions@[tab as int]@);
    state.ask_user_state.questions[tab].allow_custom && state.ask_user_state.selected_option
        == state.ask_user_state.questions[tab].options.len()
}

// ----- laws -----

/// What goes out for the answers is a JSON object that says whether all is answered, and why where it
/// is not.
pub proof fn law_result_is_json(
    text: Seq<char>,
    answers: Seq<AnswerView>,
    completed: bool,
    reason: Option<Seq<char>>,
)
    requires
        is_result_text(text, answers, completed, reason),
        result_json(answers, completed, reason) is Ok,
    ensures
        json_object(text) is Ok,
        as_flag(field(json_object(text)->Ok_0, "completed"@)) == Some(completed),
        reason is Some ==> as_text(field(json_object(text)->Ok_0, "reason"@)) == reason,
{
    let fields = result_fields(completed, reason);
    assert(read_as(fields[0].1) is Some);
    assert(reason is Some ==> read_as(fields[1].1) is Some);
}

proof fn lemma_option_index(options: Seq<AskUserOption>, value: Seq<char>, from: int)
    requires
        0 <= from,
    ensures
        match option_index(options, value, from) {
            Some(i) => from <= i < options.len() && options[i].value@ == value,
            None => forall|i: int| from <= i < options.len() ==> (#[trigger] options[i]).value@
                != value,
        },
    decreases options.len() - from,
{
    if from < options.len() && options[from].value@ != value {
        lemma_option_index(options, value, from + 1);
    }
}

/// The user always stands on a page and on a place of it, whatever is done.
pub proof fn law_ask_fits(v: AskView)
    requires
        v.fits(),
    ensures
        tab_right(v).fits(),
        tab_left(v).fits(),
        v.on_question() ==> picked(v).fits(),
        v.on_question() ==> tab_right(own_words_kept(v)).fits(),
        can_go_down(v) ==> (AskView { option: v.option + 1, ..v }).fits(),
        can_go_up(v) ==> (AskView { option: v.option - 1, ..v }).fits(),
        closed_view().fits(),
{
    if v.tab < v.questions.len() {
        lemma_restored_fits(AskView { tab: v.tab + 1, ..v });
    }
    if v.tab > 0 {
        lemma_restored_fits(AskView { tab: v.tab - 1, ..v });
    }
    if v.on_question() {
        let w = own_words_kept(v);
        lemma_restored_fits(AskView { tab: w.tab + 1, ..w });
    }
}

proof fn lemma_restored_fits(v: AskView)
    requires
        0 <= v.tab <= v.questions.len(),
    ensures
        restored(v).fits(),
{
    if v.tab < v.questions.len() && v.answers.contains_key(v.current().label) {
        lemma_option_index(v.current().options, v.answers[v.current().label].answer, 0);
    }
}

/// Questions are first shown on the first page and place.
pub proof fn law_opened_fits(call: ToolCall, questions: Seq<QuestionView>, id: Option<u128>)
    ensures
        opened(call, questions, id).fits(),
        opened(call, questions, id).tab == 0,
        opened(call, questions, id).option == 0,
        opened(call, questions, id).questions == questions,
{
    let v = AskView {
        visible: true,
        focused: true,
        questions,
        tool_call: Some(call),
        message_id: id,
        ..closed_view()
    };
    lemma_defaults_frame(v, questions.len() as int);
}

proof fn lemma_defaults_frame(v: AskView, n: int)
    ensures
        with_defaults(v, n).tab == v.tab,
        with_defaults(v, n).option == v.option,
        with_defaults(v, n).questions == v.questions,
    decreases n,
{
    if 0 < n <= v.questions.len() {
        lemma_defaults_frame(v, n - 1);
    }
}

/// Going on chooses nothing: the answers change only where the user's own words are kept.
pub proof fn law_confirm_chooses_nothing(v: AskView)
    requires
        v.on_question(),
        !(v.on_custom() && !v.current().multi_select && v.custom.len() > 0),
    ensures
        tab_right(own_words_kept(v)).answers == v.answers,
        tab_right(own_words_kept(v)).selections == v.selections,
{
}

/// An answer that was chosen is selected when the user comes back to its question.
pub proof fn law_answer_comes_back(v: AskView)
    requires
        v.fits(),
        v.on_question(),
        !v.current().multi_select,
        v.option < v.current().options.len(),
        // Two options with one value cannot be told apart: the first counts.
        forall|i: int|
            0 <= i < v.option ==> (#[trigger] v.current().options[i]).value@
                != v.current().options[v.option].value@,
    ensures
        tab_left(tab_right(picked(v))).tab == v.tab,
        tab_left(tab_right(picked(v))).option == v.option,
{
    let q = v.current();
    let w = tab_right(picked(v));
    assert(w.tab == v.tab + 1);
    let back = AskView { tab: w.tab - 1, ..w };
    assert(back.current() == q);
    assert(back.answers[q.label] == plain_answer(q.label, q.options[v.option].value@, false));
    lemma_option_index(q.options, q.options[v.option].value@, 0);
    lemma_first_option(q.options, v.option, 0);
}

proof fn lemma_first_option(options: Seq<AskUserOption>, k: int, from: int)
    requires
        0 <= from <= k < options.len(),
        forall|i: int| from <= i < k ==> (#[trigger] options[i]).value@ != options[k].value@,
    ensures
        option_index(options, options[k].value@, from) == Some(k),
    decreases k - from,
{
    if from < k {
        assert(options[from].value@ != options[k].value@);
        lemma_first_option(options, k, from + 1);
    }
}

/// Turning an option on or off changes whether it is chosen, and doing so twice gives back what was
/// chosen; in the order in which it was chosen, where the option was not.
pub proof fn law_toggle_twice(s: Seq<Seq<char>>, value: Seq<char>)
    ensures
        toggled(s, value).contains(value) <==> !s.contains(value),
        toggled(toggled(s, value), value).to_set() == s.to_set(),
        !s.contains(value) ==> toggled(toggled(s, value), value) == s,
{
    let once = toggled(s, value);
    let twice = toggled(once, value);
    if s.contains(value) {
        lemma_dropped(s, value);
        assert(once.push(value).last() == value);
        assert forall|x: Seq<char>| twice.contains(x) <==> s.contains(x) by {
            if x == value {
                assert(twice[once.len() as int] == value);
            } else if once.contains(x) {
                let i = choose|i: int| 0 <= i < once.len() && once[i] == x;
                assert(twice[i] == x);
            } else if twice.contains(x) {
                let i = choose|i: int| 0 <= i < twice.len() && twice[i] == x;
                assert(once[i] == x);
            }
        }
    } else {
        assert(once[s.len() as int] == value);
        assert(once.drop_last() =~= s);
        lemma_dropped_absent(s, value);
    }
    assert(twice.to_set() =~= s.to_set());
}

proof fn lemma_dropped(s: Seq<Seq<char>>, value: Seq<char>)
    ensures
        forall|x: Seq<char>| #[trigger]
            dropped(s, value).contains(x) <==> s.contains(x) && x != value,
    decreases s.len(),
{
    if s.len() > 0 {
        let rest = s.drop_last();
        lemma_dropped(rest, value);
        let d = dropped(rest, value);
        assert forall|x: Seq<char>| #[trigger]
            dropped(s, value).contains(x) <==> s.contains(x) && x != value by {
            assert(s[s.len() - 1] == s.last());
            if rest.contains(x) {
                let i = choose|i: int| 0 <= i < rest.len() && rest[i] == x;
                assert(s[i] == x);
            }
            if s.contains(x) && x != s.last() {
                let i = choose|i: int| 0 <= i < s.len() && s[i] == x;
                assert(rest[i] == x);
            }
            let p = d.push(s.last());
            if d.contains(x) {
                let i = choose|i: int| 0 <= i < d.len() && d[i] == x;
                assert(p[i] == x);
            }
            assert(p[d.len() as int] == s.last());
            if p.contains(x) && x != s.last() {
                let i = choose|i: int| 0 <= i < p.len() && p[i] == x;
                assert(d[i] == x);
            }
        }
    }
}

proof fn lemma_dropped_absent(s: Seq<Seq<char>>, value: Seq<char>)
    requires
        !s.contains(value),
    ensures
        dropped(s, value) == s,
    decreases s.len(),
{
    if s.len() > 0 {
        assert(s.contains(s.last()));
        assert forall|x: Seq<char>| s.drop_last().contains(x) implies s.contains(x) by {
            let i = choose|i: int| 0 <= i < s.drop_last().len() && s.drop_last()[i] == x;
            assert(s[i] == x);
        }
        lemma_dropped_absent(s.drop_last(), value);
        assert(s.drop_last().push(s.last()) =~= s);
    } else {
        assert(s =~= Seq::<Seq<char>>::empty());
    }
}

/// A question with several choices counts as answered only while something is chosen.
pub proof fn law_empty_choice_is_no_answer(v: AskView)
    requires
        v.fits(),
        v.on_question(),
        v.current().multi_select,
        v.option < v.current().options.len(),
    ensures
        picked(v).answers.contains_key(v.current().label) <==> chosen(
            picked(v),
            v.current().label,
        ).len() > 0,
{
}

// ----- what holds of questions and answers -----

/// Choosing an option of a question with one choice makes that option the answer to that question,
/// and touches no other answer. In the place for the user's own words these are the answer, unless
/// there are none.
pub proof fn law_choice_is_the_answer(v: AskView, other: Seq<char>)
    requires
        v.on_question(),
        !v.current().multi_select,
    ensures
        ({
            let q = v.current();
            let w = picked(v);
            &&& 0 <= v.option < q.options.len() ==> {
                &&& w.answers.contains_key(q.label)
                &&& w.answers[q.label].label == q.label
                &&& w.answers[q.label].answer == q.options[v.option].value@
                &&& !w.answers[q.label].is_custom
                &&& w.answers[q.label].selected.len() == 0
            }
            &&& v.option == q.options.len() && q.allow_custom && v.custom.len() > 0 ==> {
                &&& w.answers.contains_key(q.label)
                &&& w.answers[q.label].answer == v.custom
                &&& w.answers[q.label].is_custom
            }
            &&& v.option == q.options.len() && (!q.allow_custom || v.custom.len() == 0) ==> w == v
            &&& other != q.label ==> {
                &&& w.answers.contains_key(other) == v.answers.contains_key(other)
                &&& v.answers.contains_key(other) ==> w.answers[other] == v.answers[other]
            }
            &&& w.selections == v.selections
            &&& w.questions == v.questions
            &&& w.tab == v.tab
            &&& w.option == v.option
            &&& w.tool_call == v.tool_call
        }),
{
}

/// Choosing an option of a question with several choices turns that option on or off and leaves the
/// others as they are; the answer says what is on.
pub proof fn law_choice_is_turned_round(v: AskView, value: Seq<char>, other: Seq<char>)
    requires
        v.on_question(),
        v.current().multi_select,
        0 <= v.option < v.current().options.len(),
    ensures
        ({
            let q = v.current();
            let w = picked(v);
            let was = v.selections.contains_key(q.label) && v.selections[q.label].contains(value);
            &&& w.selections.contains_key(q.label)
            &&& value == q.options[v.option].value@ ==> w.selections[q.label].contains(value)
                == !was
            &&& value != q.options[v.option].value@ ==> w.selections[q.label].contains(value)
                == was
            &&& w.selections[q.label].len() > 0 ==> w.answers.contains_key(q.label)
                && w.answers[q.label].selected == w.selections[q.label]
                && w.answers[q.label].label == q.label
            &&& w.selections[q.label].len() == 0 ==> !w.answers.contains_key(q.label)
            &&& other != q.label ==> {
                &&& w.answers.contains_key(other) == v.answers.contains_key(other)
                &&& v.answers.contains_key(other) ==> w.answers[other] == v.answers[other]
                &&& w.selections.contains_key(other) == v.selections.contains_key(other)
                &&& v.selections.contains_key(other) ==> w.selections[other] == v.selections[other]
            }
        }),
{
    let q = v.current();
    let s = chosen(v, q.label);
    let x = q.options[v.option].value@;
    let t = toggled(s, x);
    lemma_dropped_others(s, x, value);
    if !s.contains(x) {
        assert(t[s.len() as int] == x);
        if s.contains(value) {
            let k = choose|k: int| 0 <= k < s.len() && s[k] == value;
            assert(t[k] == value);
        }
        if t.contains(value) && value != x {
            let k = choose|k: int| 0 <= k < t.len() && t[k] == value;
            assert(s[k] == value);
        }
    }
}

proof fn lemma_dropped_others(s: Seq<Seq<char>>, x: Seq<char>, value: Seq<char>)
    ensures
        dropped(s, x).contains(value) <==> s.contains(value) && value != x,
    decreases s.len(),
{
    if s.len() > 0 {
        let rest = s.drop_last();
        let w = dropped(rest, x);
        let r = dropped(s, x);
        lemma_dropped_others(rest, x, value);
        if r.contains(value) {
            let k = choose|k: int| 0 <= k < r.len() && r[k] == value;
            if k < w.len() {
                assert(w[k] == value);
                let j = choose|j: int| 0 <= j < rest.len() && rest[j] == value;
                assert(s[j] == value);
            } else {
                assert(s[s.len() - 1] == value);
            }
        }
        if s.contains(value) && value != x {
            let j = choose|j: int| 0 <= j < s.len() && s[j] == value;
            if j < rest.len() {
                assert(rest[j] == value);
                let k = choose|k: int| 0 <= k < w.len() && w[k] == value;
                assert(r[k] == value);
            } else {
                assert(r[w.len() as int] == value);
            }
        }
    }
}

/// Going from page to page changes no answer and no choice. It goes one page on or back, and stays
/// on the last page and on the first.
pub proof fn law_pages(v: AskView)
    requires
        0 <= v.tab <= v.questions.len(),
    ensures
        tab_right(v).answers == v.answers,
        tab_right(v).selections == v.selections,
        tab_right(v).questions == v.questions,
        v.tab < v.questions.len() ==> tab_right(v).tab == v.tab + 1,
        v.tab == v.questions.len() ==> tab_right(v).tab == v.tab,
        tab_left(v).answers == v.answers,
        tab_left(v).selections == v.selections,
        tab_left(v).questions == v.questions,
        v.tab > 0 ==> tab_left(v).tab == v.tab - 1,
        v.tab == 0 ==> tab_left(v).tab == 0,
{
}

/// Whether the answer was given to one of the first `n` questions.
pub open spec fn answers_one(v: AskView, n: int, a: AnswerView) -> bool {
    exists|k: int|
        0 <= k < n && v.answers.contains_key((#[trigger] v.questions[k]).label)
            && v.answers[v.questions[k].label] == a
}

/// The answers that go out are those that were given: each answered question is among them, and each
/// of them answers a question. Where every question is answered, they stand in the order of the
/// questions.
pub proof fn law_given_answers(v: AskView, n: int)
    requires
        0 <= n <= v.questions.len(),
    ensures
        given_answers(v, n).len() <= n,
        forall|k: int|
            0 <= k < n && v.answers.contains_key((#[trigger] v.questions[k]).label)
                ==> given_answers(v, n).contains(v.answers[v.questions[k].label]),
        forall|i: int|
            0 <= i < given_answers(v, n).len() ==> answers_one(
                v,
                n,
                #[trigger] given_answers(v, n)[i],
            ),
        (forall|k: int| 0 <= k < n ==> v.answers.contains_key((#[trigger] v.questions[k]).label))
            ==> given_answers(v, n).len() == n && forall|k: int|
            0 <= k < n ==> given_answers(v, n)[k] == v.answers[(#[trigger] v.questions[k]).label],
    decreases n,
{
    if n > 0 {
        law_given_answers(v, n - 1);
        let r = given_answers(v, n);
        let w = given_answers(v, n - 1);
        let q = v.questions[n - 1];
        assert forall|k: int|
            0 <= k < n && v.answers.contains_key((#[trigger] v.questions[k]).label) implies r.contains(
            v.answers[v.questions[k].label],
        ) by {
            if k < n - 1 {
                let x = v.answers[v.questions[k].label];
                let i = choose|i: int| 0 <= i < w.len() && w[i] == x;
                assert(r[i] == x);
            } else {
                assert(r[w.len() as int] == v.answers[q.label]);
            }
        }
        assert forall|i: int| 0 <= i < r.len() implies answers_one(v, n, #[trigger] r[i]) by {
            if i < w.len() {
                assert(r[i] == w[i]);
                let k = choose|k: int|
                    0 <= k < n - 1 && v.answers.contains_key((#[trigger] v.questions[k]).label)
                        && v.answers[v.questions[k].label] == w[i];
                assert(v.answers[v.questions[k].label] == r[i]);
            } else {
                assert(v.answers[v.questions[n - 1].label] == r[i]);
            }
        }
    }
}

/// Submitting answers the call that asked, and closes the questions. Where every question is
/// answered, what goes out holds one answer for each, in their order, with what stands for it in
/// place of a text that holds a secret.
pub proof fn law_submitted_answers_the_call(
    pre: AppState,
    post: AppState,
    sent: Outbox,
    out: Outbox,
) -> (answers: Seq<AnswerView>)
    requires
        submitted(pre, post, sent, out),
        pre.ask_user_state.is_visible,
        pre.ask_user_state.tool_call is Some,
        sent.output@.len() < sent.output_room,
    ensures
        !post.ask_user_state.is_visible,
        post.ask_user_state.tool_call is None,
        out.output@.len() == sent.output@.len() + 1,
        out.output@.drop_last() == sent.output@,
        ({
            &&& out.output@.last() matches OutputEvent::AskUserResponse(r)
            &&& r.call == pre.ask_user_state.tool_call->0
            &&& r.status == ToolCallResultStatus::Success
            &&& r.result@ == result_text(answers, true, None)
        }),
        (forall|k: int|
            0 <= k < pre.ask_user_state@.questions.len() ==> pre.ask_user_state@.answers.contains_key(
                (#[trigger] pre.ask_user_state@.questions[k]).label,
            )) ==> {
            &&& answers.len() == pre.ask_user_state@.questions.len()
            &&& forall|k: int|
                0 <= k < answers.len() ==> {
                    let given = pre.ask_user_state@.answers[pre.ask_user_state@.questions[k].label];
                    let hidden = pre.configuration_state.hidden_texts@;
                    &&& (#[trigger] answers[k]).label == given.label
                    &&& answers[k].is_custom == given.is_custom
                    &&& answers[k].selected == given.selected
                    &&& hidden.contains_key(given.answer) ==> answers[k].answer
                        == hidden[given.answer]@
                    &&& !hidden.contains_key(given.answer) ==> answers[k].answer == given.answer
                }
        },
{
    let v = pre.ask_user_state@;
    let n = v.questions.len() as int;
    law_given_answers(v, n);
    let answers = without_secrets(given_answers(v, n), pre.configuration_state.hidden_texts@);
    if forall|k: int| 0 <= k < n ==> v.answers.contains_key((#[trigger] v.questions[k]).label) {
        assert forall|k: int| 0 <= k < answers.len() implies {
            let given = v.answers[v.questions[k].label];
            (#[trigger] answers[k]) == (AnswerView {
                answer: without_secret(given.answer, pre.configuration_state.hidden_texts@),
                ..given
            })
        } by {
            assert(given_answers(v, n)[k] == v.answers[v.questions[k].label]);
        }
    }
    assert(post.ask_user_state@ == closed_view());
    answers
}

/// Cancelling tells the call that asked so, with no answer, and closes the questions.
pub proof fn law_cancelled_tells_the_call(
    pre: AppState,
    post: AppState,
    sent: Outbox,
    out: Outbox,
)
    requires
        cancelled(pre, post, sent, out),
        pre.ask_user_state.is_visible,
        pre.ask_user_state.tool_call is Some,
        sent.output@.len() < sent.output_room,
    ensures
        !post.ask_user_state.is_visible,
        out.output@.len() == sent.output@.len() + 1,
        out.output@.drop_last() == sent.output@,
        ({
            &&& out.output@.last() matches OutputEvent::AskUserResponse(r)
            &&& r.call == pre.ask_user_state.tool_call->0
            &&& r.status == ToolCallResultStatus::Cancelled
            &&& r.result@ == result_text(
                Seq::empty(),
                false,
                Some("User cancelled the question prompt."@),
            )
        }),
{
    assert(post.ask_user_state@ == closed_view());
}

/// The options that are selected from the start are those that say so, in their order.
pub proof fn law_default_values(options: Seq<AskUserOption>, n: int)
    requires
        0 <= n <= options.len(),
    ensures
        n < options.len() && options[n].selected ==> default_values(options, n + 1)
            == default_values(options, n).push(options[n].value@),
        n < options.len() && !options[n].selected ==> default_values(options, n + 1)
            == default_values(options, n),
        default_values(options, 0).len() == 0,
{
}

/// A step down or up moves the place by one, within the places of the question, and changes no
/// answer.
pub proof fn law_places(pre: AppState, post: AppState)
    requires
        pre.ask_user_state@.on_question(),
        pre.ask_user_state@.option >= 0,
    ensures
        ({
            let v = pre.ask_user_state@;
            let w = post.ask_user_state@;
            let own = if v.current().allow_custom && !v.current().multi_select {
                1int
            } else {
                0
            };
            &&& gone_down(pre, post) ==> {
                &&& v.option + 1 < v.current().options.len() + own ==> w.option == v.option + 1
                &&& v.option + 1 >= v.current().options.len() + own ==> w.option == v.option
                &&& w.answers == v.answers
                &&& w.tab == v.tab
            }
            &&& gone_up(pre, post) ==> {
                &&& v.option > 0 ==> w.option == v.option - 1
                &&& v.option == 0 ==> w.option == 0
                &&& w.answers == v.answers
                &&& w.tab == v.tab
            }
        }),
{
}

/// Questions that are shown come with the first of them in front, and with the call that asks; the
/// conversation ends in them. Without questions nothing is shown, and the call is told that it asked
/// nothing.
pub proof fn law_questions_are_shown(
    pre: AppState,
    post: AppState,
    call: ToolCall,
    questions: Seq<AskUserQuestion>,
)
    requires
        popup_shown(pre, post, call, questions),
    ensures
        questions.len() == 0 ==> post == pre,
        questions.len() > 0 ==> {
            let v = post.ask_user_state@;
            &&& v.visible
            &&& v.tab == 0
            &&& v.option == 0
            &&& v.tool_call == Some(call)
            &&& v.questions.len() == questions.len()
            &&& forall|i: int|
                0 <= i < questions.len() ==> #[trigger] v.questions[i] == questions[i]@
            &&& post.messages_scrolling_state.messages@.len() > 0
            &&& v.message_id == Some(post.messages_scrolling_state.messages@.last().id)
        },
{
    if questions.len() > 0 {
        let id = Some(post.messages_scrolling_state.messages@.last().id);
        let start = AskView {
            visible: true,
            focused: true,
            questions: question_views(questions),
            tool_call: Some(call),
            message_id: id,
            ..closed_view()
        };
        law_defaults_keep(start, questions.len() as int);
    }
}

/// What is selected from the start touches answers and choices alone.
pub proof fn law_defaults_keep(v: AskView, n: int)
    requires
        n <= v.questions.len(),
    ensures
        ({
            let w = with_defaults(v, n);
            &&& w.visible == v.visible
            &&& w.questions == v.questions
            &&& w.tab == v.tab
            &&& w.option == v.option
            &&& w.custom == v.custom
            &&& w.tool_call == v.tool_call
            &&& w.message_id == v.message_id
        }),
    decreases n,
{
    if n > 0 {
        law_defaults_keep(v, n - 1);
    }
}

/// What is typed in the place for the user's own words stands there, and nowhere else does typing
/// change anything.
pub proof fn law_own_words(pre: AppState, post: AppState, words: Seq<char>)
    requires
        words_changed(pre, post, words),
    ensures
        ({
            let v = pre.ask_user_state@;
            let here = v.visible && 0 <= v.tab < v.questions.len()
                && v.questions[v.tab].allow_custom && v.option
                == v.questions[v.tab].options.len();
            &&& !here ==> post == pre
            &&& here ==> post.ask_user_state@.custom == words && post.ask_user_state@.answers
                == v.answers && post.ask_user_state@.option == v.option
        }),
{
}

} // verus!
