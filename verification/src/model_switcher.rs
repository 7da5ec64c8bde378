//! The popup in which the user chooses a model.

use vstd::prelude::*;
use crate::app::AppState;
use crate::app::clear_text;
use crate::app::is_empty;
use crate::dialog::emptied;
use crate::events::Effect;
use crate::events::OutputEvent;
use crate::events::Outbox;
use crate::file_search::is_before;
use crate::file_search::law_text_order;
use crate::file_search::law_text_order_transitive;
use crate::file_search::text_before;
use crate::models::Model;
use crate::popups::blocks_popups;
use crate::popups::popups_blocked;
use crate::text::after_last;
use crate::text::chars_of;
use crate::text::find_char;
use crate::text::last_piece;
use crate::text::next_char;
use crate::text::same_text;
use crate::text::string_of;
use crate::text::texts;
use crate::types::ModelSwitcherMode;
use crate::types::ModelSwitcherState;

verus! {

// ----- how models are named -----

/// How a model is listed among the recent ones: its provider and the last part of its identifier.
pub open spec fn recent_id(provider: Seq<char>, id: Seq<char>) -> Seq<char> {
    provider + "/"@ + last_piece(id, '/', id.len() as int)
}

/// How a model is listed among the recent ones.
pub fn format_recent_model_id(provider: &str, model_id: &str) -> (r: String)
    ensures
        r@ == recent_id(provider@, model_id@),
{
    let mut r: String = provider.to_owned();
    r.push_str("/");
    r.push_str(after_last(model_id, '/').as_str());
    r
}

/// Whether one of the models is listed under the name.
pub open spec fn is_listed(models: Seq<Model>, name: Seq<char>) -> bool {
    exists|i: int|
        0 <= i < models.len() && recent_id((#[trigger] models[i]).provider@, models[i].id@) == name
}

fn lists(models: &Vec<Model>, name: &str) -> (r: bool)
    ensures
        r == is_listed(models@, name@),
{
    let mut i: usize = 0;
    while i < models.len()
        invariant
            i <= models@.len(),
            forall|j: int|
                0 <= j < i ==> recent_id((#[trigger] models@[j]).provider@, models@[j].id@)
                    != name@,
        decreases models@.len() - i,
    {
        let id: String = format_recent_model_id(
            models[i].provider.as_str(),
            models[i].id.as_str(),
        );
        if same_text(id.as_str(), name) {
            assert(recent_id(models@[i as int].provider@, models@[i as int].id@) == name@);
            return true;
        }
        i += 1;
    }
    false
}

/// The provider and the identifier in a name: the provider stands before the first slash; without
/// one it is the given provider.
pub open spec fn named_parts(name: Seq<char>, provider: Seq<char>) -> (Seq<char>, Seq<char>) {
    let i = next_char(name, '/', 0);
    if i < name.len() {
        (name.take(i), name.skip(i + 1))
    } else {
        (provider, name)
    }
}

/// The model that a name stands for, where nothing else is known of it.
pub open spec fn is_named(m: Model, name: Seq<char>, provider: Seq<char>, limit: u64) -> bool {
    m.is_custom(named_parts(name, provider).1, named_parts(name, provider).0, limit)
}

fn name_model(name: &str, provider: &str, limit: u64) -> (m: Model)
    ensures
        is_named(m, name@, provider@, limit),
{
    let v: Vec<char> = chars_of(name);
    let i: usize = find_char(&v, '/', 0);
    if i < v.len() {
        let p: String = string_of(&v, 0, i);
        let id: String = string_of(&v, i + 1, v.len());
        assert(p@ =~= name@.take(i as int));
        assert(id@ =~= name@.skip(i + 1));
        Model::custom(id.as_str(), p.as_str(), limit)
    } else {
        Model::custom(name, provider, limit)
    }
}

/// Which of the names no model is listed under, in their order.
pub open spec fn unlisted(models: Seq<Model>, names: Seq<Seq<char>>) -> Seq<Seq<char>>
    decreases names.len(),
{
    if names.len() == 0 {
        Seq::empty()
    } else if is_listed(models, names.last()) {
        unlisted(models, names.drop_last())
    } else {
        unlisted(models, names.drop_last()).push(names.last())
    }
}

/// The models with those that only the recent names speak of.
pub open spec fn customs_added(
    pre: Seq<Model>,
    post: Seq<Model>,
    recent: Seq<Seq<char>>,
    provider: Seq<char>,
    limit: u64,
) -> bool {
    let names = unlisted(pre, recent);
    &&& post.len() == pre.len() + names.len()
    &&& post.take(pre.len() as int) == pre
    &&& forall|i: int|
        0 <= i < names.len() ==> is_named(post[pre.len() + i], #[trigger] names[i], provider, limit)
}

fn list_customs(models: &Vec<Model>, recent: &Vec<String>, provider: &str, limit: u64) -> (r: Vec<
    Model,
>)
    ensures
        r@.len() == unlisted(models@, texts(recent@)).len(),
        forall|i: int|
            0 <= i < r@.len() ==> is_named(
                r@[i],
                #[trigger] unlisted(models@, texts(recent@))[i],
                provider@,
                limit,
            ),
{
    let ghost names = texts(recent@);
    let mut r: Vec<Model> = Vec::new();
    let mut i: usize = 0;
    assert(names.take(0) =~= Seq::<Seq<char>>::empty());
    while i < recent.len()
        invariant
            i <= recent@.len(),
            names == texts(recent@),
            names.len() == recent@.len(),
            r@.len() == unlisted(models@, names.take(i as int)).len(),
            forall|k: int|
                0 <= k < r@.len() ==> is_named(
                    r@[k],
                    #[trigger] unlisted(models@, names.take(i as int))[k],
                    provider@,
                    limit,
                ),
        decreases recent@.len() - i,
    {
        assert(names.take(i + 1).drop_last() =~= names.take(i as int));
        assert(names.take(i + 1).last() == recent@[i as int]@);
        let ghost before = unlisted(models@, names.take(i as int));
        let ghost after = unlisted(models@, names.take(i + 1));
        if !lists(models, recent[i].as_str()) {
            r.push(name_model(recent[i].as_str(), provider, limit));
            assert(after == before.push(recent@[i as int]@));
            assert forall|k: int| 0 <= k < r@.len() implies is_named(
                r@[k],
                #[trigger] after[k],
                provider@,
                limit,
            ) by {
                if k < before.len() {
                    assert(after[k] == before[k]);
                }
            }
        }
        i += 1;
    }
    assert(names.take(i as int) =~= names);
    r
}

/// The state with another model switcher.
pub open spec fn with_switcher(s: AppState, m: ModelSwitcherState) -> AppState {
    AppState { model_switcher_state: m, ..s }
}

/// The switcher with the models that only the recent names speak of.
pub open spec fn customs_ensured(pre: AppState, post: AppState, limit: u64) -> bool {
    let m = pre.model_switcher_state;
    let n = post.model_switcher_state;
    &&& post == with_switcher(
        pre,
        ModelSwitcherState { available_models: n.available_models, ..m },
    )
    &&& customs_added(
        m.available_models@,
        n.available_models@,
        texts(m.recent_models@),
        pre.configuration_state.model.provider@,
        limit,
    )
}

/// Adds the models that only the recent names speak of. Such a model is taken to hold `limit`
/// tokens.
pub fn ensure_custom_models_in_available(state: &mut AppState, limit: u64)
    ensures
        customs_ensured(*old(state), *final(state), limit),
{
    let ghost before = state.model_switcher_state.available_models@;
    let mut more: Vec<Model> = list_customs(
        &state.model_switcher_state.available_models,
        &state.model_switcher_state.recent_models,
        state.configuration_state.model.provider.as_str(),
        limit,
    );
    let ghost tail = more@;
    state.model_switcher_state.available_models.append(&mut more);
    proof {
        let after = state.model_switcher_state.available_models@;
        let names = unlisted(before, texts(old(state).model_switcher_state.recent_models@));
        assert(after =~= before + tail);
        assert(after.take(before.len() as int) =~= before);
        assert forall|i: int| 0 <= i < names.len() implies is_named(
            after[before.len() + i],
            #[trigger] names[i],
            old(state).configuration_state.model.provider@,
            limit,
        ) by {
            assert(after[before.len() + i] == tail[i]);
        }
    }
}

/// Every name is listed once the models that only the names speak of were added, where it names a
/// provider and no other slash follows; and every model that there was is still there.
pub proof fn law_customs_listed(
    pre: Seq<Model>,
    post: Seq<Model>,
    recent: Seq<Seq<char>>,
    provider: Seq<char>,
    limit: u64,
    k: int,
)
    requires
        customs_added(pre, post, recent, provider, limit),
        0 <= k < recent.len(),
        next_char(recent[k], '/', 0) < recent[k].len(),
        next_char(recent[k], '/', next_char(recent[k], '/', 0) + 1) == recent[k].len(),
    ensures
        is_listed(post, recent[k]),
        post.take(pre.len() as int) == pre,
{
    let name = recent[k];
    if is_listed(pre, name) {
        let i = choose|i: int|
            0 <= i < pre.len() && recent_id((#[trigger] pre[i]).provider@, pre[i].id@) == name;
        assert(post.take(pre.len() as int)[i] == pre[i]);
        assert(recent_id(post[i].provider@, post[i].id@) == name);
    } else {
        lemma_unlisted_holds(pre, recent, k);
        let names = unlisted(pre, recent);
        let i = choose|i: int| 0 <= i < names.len() && #[trigger] names[i] == name;
        let m = post[pre.len() + i];
        assert(is_named(m, names[i], provider, limit));
        lemma_parts_back(name, provider);
        assert(recent_id(post[pre.len() + i].provider@, post[pre.len() + i].id@) == name);
    }
}

proof fn lemma_unlisted_holds(models: Seq<Model>, names: Seq<Seq<char>>, k: int)
    requires
        0 <= k < names.len(),
        !is_listed(models, names[k]),
    ensures
        exists|i: int|
            0 <= i < unlisted(models, names).len() && #[trigger] unlisted(models, names)[i]
                == names[k],
    decreases names.len(),
{
    let all = unlisted(models, names);
    let rest = unlisted(models, names.drop_last());
    if k == names.len() - 1 {
        assert(all[rest.len() as int] == names[k]);
    } else {
        assert(names.drop_last()[k] == names[k]);
        lemma_unlisted_holds(models, names.drop_last(), k);
        let i = choose|i: int| 0 <= i < rest.len() && #[trigger] rest[i] == names[k];
        assert(all[i] == rest[i]);
    }
}

proof fn lemma_no_slash(s: Seq<char>, to: int)
    requires
        0 <= to <= s.len(),
        forall|j: int| 0 <= j < to ==> s[j] != '/',
    ensures
        last_piece(s, '/', to) == s,
    decreases to,
{
    if to > 0 {
        lemma_no_slash(s, to - 1);
    } else {
        assert(s.subrange(0, s.len() as int) =~= s);
    }
}

proof fn lemma_parts_back(name: Seq<char>, provider: Seq<char>)
    requires
        next_char(name, '/', 0) < name.len(),
        next_char(name, '/', next_char(name, '/', 0) + 1) == name.len(),
    ensures
        recent_id(named_parts(name, provider).0, named_parts(name, provider).1) == name,
{
    let i = next_char(name, '/', 0);
    crate::text::lemma_next_char(name, '/', 0);
    crate::text::lemma_next_char(name, '/', i + 1);
    let (p, id) = named_parts(name, provider);
    assert forall|j: int| 0 <= j < id.len() implies id[j] != '/' by {
        assert(id[j] == name[i + 1 + j]);
    }
    lemma_no_slash(id, id.len() as int);
    reveal_strlit("/");
    assert(recent_id(p, id) =~= name);
}

// ----- the order of models -----

/// Whether models of one provider are listed before those of another: those of the service itself
/// come first, the others in the order of their names.
pub open spec fn provider_before(a: Seq<char>, b: Seq<char>) -> bool {
    let own = "stakpak"@;
    if a == own || b == own {
        a == own && b != own
    } else {
        text_before(a, b)
    }
}

fn is_provider_before(a: &str, b: &str) -> (r: bool)
    ensures
        r == provider_before(a@, b@),
{
    let first: bool = same_text(a, "stakpak");
    let second: bool = same_text(b, "stakpak");
    if first || second {
        first && !second
    } else {
        is_before(a, b)
    }
}

/// The model put into a list in order, behind those that do not come after it.
pub open spec fn put_in(v: Seq<Model>, m: Model) -> Seq<Model>
    decreases v.len(),
{
    if v.len() > 0 && provider_before(m.provider@, v.last().provider@) {
        put_in(v.drop_last(), m).push(v.last())
    } else {
        v.push(m)
    }
}

/// The models in the order of their providers, those of one provider as they were.
pub open spec fn by_provider(v: Seq<Model>) -> Seq<Model>
    decreases v.len(),
{
    if v.len() == 0 {
        v
    } else {
        put_in(by_provider(v.drop_last()), v.last())
    }
}

/// Whether no model of the list comes before one in front of it.
pub open spec fn in_order(v: Seq<Model>) -> bool {
    forall|i: int, j: int|
        0 <= i < j < v.len() ==> !provider_before(
            (#[trigger] v[j]).provider@,
            (#[trigger] v[i]).provider@,
        )
}

/// The models of one provider.
pub open spec fn of_provider(v: Seq<Model>, p: Seq<char>) -> Seq<Model>
    decreases v.len(),
{
    if v.len() == 0 {
        Seq::empty()
    } else if v.last().provider@ == p {
        of_provider(v.drop_last(), p).push(v.last())
    } else {
        of_provider(v.drop_last(), p)
    }
}

proof fn lemma_not_before(a: Seq<char>, b: Seq<char>, c: Seq<char>)
    requires
        !provider_before(b, a),
        provider_before(b, c),
    ensures
        provider_before(a, c),
{
    law_text_order(a, b);
    law_text_order(b, c);
    law_text_order(a, c);
    if text_before(a, b) && text_before(b, c) {
        law_text_order_transitive(a, b, c);
    }
}

proof fn lemma_put_in(v: Seq<Model>, m: Model)
    requires
        in_order(v),
    ensures
        in_order(put_in(v, m)),
        put_in(v, m).len() == v.len() + 1,
        put_in(v, m).to_multiset() == v.to_multiset().insert(m),
        forall|x: Model| #[trigger]
            put_in(v, m).contains(x) ==> x == m || v.contains(x),
        forall|p: Seq<char>| #[trigger]
            of_provider(put_in(v, m), p) == (if m.provider@ == p {
                of_provider(v, p).push(m)
            } else {
                of_provider(v, p)
            }),
    decreases v.len(),
{
    broadcast use vstd::seq_lib::group_to_multiset_ensures;

    let r = put_in(v, m);
    if v.len() > 0 && provider_before(m.provider@, v.last().provider@) {
        let rest = v.drop_last();
        let l = v.last();
        assert(in_order(rest)) by {
            assert forall|i: int, j: int| 0 <= i < j < rest.len() implies !provider_before(
                (#[trigger] rest[j]).provider@,
                (#[trigger] rest[i]).provider@,
            ) by {
                assert(rest[i] == v[i] && rest[j] == v[j]);
            }
        }
        lemma_put_in(rest, m);
        let q = put_in(rest, m);
        assert forall|i: int, j: int| 0 <= i < j < r.len() implies !provider_before(
            (#[trigger] r[j]).provider@,
            (#[trigger] r[i]).provider@,
        ) by {
            if j < q.len() {
                assert(r[i] == q[i] && r[j] == q[j]);
            } else {
                assert(r[i] == q[i]);
                assert(q.contains(q[i]));
                law_text_order(m.provider@, l.provider@);
                if q[i] != m {
                    let k = choose|k: int| 0 <= k < rest.len() && rest[k] == q[i];
                    assert(v[k] == q[i]);
                    assert(v[v.len() - 1] == l);
                }
            }
        }
        assert(v =~= rest.push(l));
        assert(v.to_multiset() =~= rest.to_multiset().insert(l));
        assert(r.to_multiset() =~= v.to_multiset().insert(m));
        assert forall|x: Model| #[trigger] r.contains(x) implies x == m || v.contains(x) by {
            let k = choose|k: int| 0 <= k < r.len() && r[k] == x;
            if k < q.len() {
                assert(q[k] == x);
                assert(q.contains(x));
                if x != m {
                    let j = choose|j: int| 0 <= j < rest.len() && rest[j] == x;
                    assert(v[j] == x);
                }
            } else {
                assert(v[v.len() - 1] == x);
            }
        }
        law_text_order(m.provider@, l.provider@);
        assert(m.provider@ != l.provider@);
        assert forall|p: Seq<char>| #[trigger] of_provider(r, p) == (if m.provider@ == p {
            of_provider(v, p).push(m)
        } else {
            of_provider(v, p)
        }) by {
            assert(r.drop_last() =~= q);
            assert(of_provider(q, p) == (if m.provider@ == p {
                of_provider(rest, p).push(m)
            } else {
                of_provider(rest, p)
            }));
        }
    } else {
        assert forall|i: int, j: int| 0 <= i < j < r.len() implies !provider_before(
            (#[trigger] r[j]).provider@,
            (#[trigger] r[i]).provider@,
        ) by {
            if j < v.len() {
                assert(r[i] == v[i] && r[j] == v[j]);
            } else if i < v.len() - 1 {
                assert(r[i] == v[i]);
                let l = v[v.len() - 1];
                assert(!provider_before(l.provider@, v[i].provider@));
                if provider_before(m.provider@, v[i].provider@) {
                    lemma_not_before(l.provider@, m.provider@, v[i].provider@);
                }
            }
        }
        assert forall|p: Seq<char>| #[trigger] of_provider(r, p) == (if m.provider@ == p {
            of_provider(v, p).push(m)
        } else {
            of_provider(v, p)
        }) by {
            assert(r.drop_last() =~= v);
        }
        assert forall|x: Model| #[trigger] r.contains(x) implies x == m || v.contains(x) by {
            let k = choose|k: int| 0 <= k < r.len() && r[k] == x;
            if k < v.len() {
                assert(v[k] == x);
            }
        }
    }
}

/// The models in order are the same models; none comes before one in front of it; and those of one
/// provider stay as they were.
pub proof fn law_by_provider(v: Seq<Model>)
    ensures
        in_order(by_provider(v)),
        by_provider(v).to_multiset() == v.to_multiset(),
        forall|p: Seq<char>| #[trigger] of_provider(by_provider(v), p) == of_provider(v, p),
    decreases v.len(),
{
    broadcast use vstd::seq_lib::group_to_multiset_ensures;

    if v.len() > 0 {
        law_by_provider(v.drop_last());
        lemma_put_in(by_provider(v.drop_last()), v.last());
        assert(v =~= v.drop_last().push(v.last()));
        assert forall|p: Seq<char>| #[trigger] of_provider(by_provider(v), p) == of_provider(
            v,
            p,
        ) by {
            assert(of_provider(by_provider(v.drop_last()), p) == of_provider(v.drop_last(), p));
        }
    }
}

fn put_model(v: &mut Vec<Model>, m: Model)
    ensures
        final(v)@ == put_in(old(v)@, m),
{
    let ghost before = v@;
    let mut i: usize = v.len();
    assert(before.take(before.len() as int) =~= before);
    assert(before.skip(before.len() as int) =~= Seq::<Model>::empty());
    assert(put_in(before, m) =~= put_in(before.take(i as int), m) + before.skip(i as int));
    while i > 0 && is_provider_before(m.provider.as_str(), v[i - 1].provider.as_str())
        invariant
            i <= v@.len(),
            v@ == before,
            put_in(before, m) == put_in(before.take(i as int), m) + before.skip(i as int),
        decreases i,
    {
        assert(before.take(i as int).drop_last() =~= before.take(i - 1));
        assert(before.take(i as int).last() == before[i - 1]);
        assert(put_in(before.take(i as int), m) + before.skip(i as int) =~= put_in(
            before.take(i - 1),
            m,
        ) + before.skip(i - 1));
        i -= 1;
    }
    assert(i > 0 ==> before.take(i as int).last() == before[i - 1]);
    v.insert(i, m);
    assert(v@ =~= before.take(i as int).push(m) + before.skip(i as int));
}

fn sort_models(models: &Vec<Model>) -> (r: Vec<Model>)
    ensures
        r@ == by_provider(models@),
{
    let mut r: Vec<Model> = Vec::new();
    let mut i: usize = 0;
    assert(models@.take(0) =~= Seq::<Model>::empty());
    assert(r@ =~= Seq::<Model>::empty());
    while i < models.len()
        invariant
            i <= models@.len(),
            r@ == by_provider(models@.take(i as int)),
        decreases models@.len() - i,
    {
        assert(models@.take(i + 1).drop_last() =~= models@.take(i as int));
        assert(models@.take(i + 1).last() == models@[i as int]);
        put_model(&mut r, models[i].clone());
        i += 1;
    }
    assert(models@.take(i as int) =~= models@);
    r
}

// ----- opening and closing -----

/// The switcher when it opens.
pub open spec fn switcher_fresh(m: ModelSwitcherState, n: ModelSwitcherState) -> bool {
    &&& n == (ModelSwitcherState {
        is_visible: true,
        is_selected: 0,
        mode: ModelSwitcherMode::All,
        search: n.search,
        ..m
    })
    &&& n.search@.len() == 0
}

/// What opening the model switcher does: the input is emptied, and the backend is asked for the
/// models.
pub open spec fn switcher_shown(pre: AppState, post: AppState, sent: Outbox, out: Outbox) -> bool {
    if popups_blocked(pre) {
        post == pre && out == sent
    } else {
        &&& post == with_switcher(
            pre.with_text(post.input_state.text_area),
            post.model_switcher_state,
        )
        &&& post.input_state.text_area@ == emptied(pre.input_state.text_area@)
        &&& switcher_fresh(pre.model_switcher_state, post.model_switcher_state)
        &&& sent.outputs(out, |e: OutputEvent| e is RequestAvailableModels)
    }
}

fn open_switcher(m: &mut ModelSwitcherState)
    ensures
        switcher_fresh(*old(m), *final(m)),
{
    m.is_visible = true;
    m.is_selected = 0;
    m.mode = ModelSwitcherMode::All;
    m.search.clear();
}

/// Opens the model switcher.
pub fn handle_show_model_switcher(state: &mut AppState, out: &mut Outbox)
    ensures
        switcher_shown(*old(state), *final(state), *old(out), *final(out)),
{
    if blocks_popups(state) {
        return;
    }
    clear_text(&mut state.input_state.text_area);
    let _sent: bool = out.send_output(OutputEvent::RequestAvailableModels);
    open_switcher(&mut state.model_switcher_state);
}

/// The switcher when it is closed, with the given model as the current one.
pub open spec fn switcher_closed(
    m: ModelSwitcherState,
    n: ModelSwitcherState,
    current: Option<Model>,
) -> bool {
    &&& n == (ModelSwitcherState {
        is_visible: false,
        search: n.search,
        current_model: current,
        ..m
    })
    &&& n.search@.len() == 0
}

/// Closes the model switcher.
pub fn handle_model_switcher_cancel(state: &mut AppState)
    ensures
        *final(state) == with_switcher(*old(state), final(state).model_switcher_state),
        switcher_closed(
            old(state).model_switcher_state,
            final(state).model_switcher_state,
            old(state).model_switcher_state.current_model,
        ),
{
    state.model_switcher_state.is_visible = false;
    state.model_switcher_state.search.clear();
}

// ----- the models that there are -----

/// Whether the model is meant by the identifier: it is its own, or the last part of it.
pub open spec fn is_meant(m: Model, id: Seq<char>) -> bool {
    m.id@ == id || last_piece(m.id@, '/', m.id@.len() as int) == id
}

/// The first model from the `k`th on that is meant by the identifier.
pub open spec fn meant_at(v: Seq<Model>, id: Seq<char>, k: int) -> Option<int>
    decreases v.len() - k,
{
    if k < 0 || k >= v.len() {
        None
    } else if is_meant(v[k], id) {
        Some(k)
    } else {
        meant_at(v, id, k + 1)
    }
}

fn find_meant(v: &Vec<Model>, id: &str) -> (r: Option<usize>)
    ensures
        match r {
            Some(k) => meant_at(v@, id@, 0) == Some(k as int) && k < v@.len(),
            None => meant_at(v@, id@, 0) is None,
        },
{
    let mut k: usize = 0;
    while k < v.len()
        invariant
            k <= v@.len(),
            meant_at(v@, id@, 0) == meant_at(v@, id@, k as int),
        decreases v@.len() - k,
    {
        let last: String = after_last(v[k].id.as_str(), '/');
        if same_text(v[k].id.as_str(), id) || same_text(last.as_str(), id) {
            return Some(k);
        }
        k += 1;
    }
    None
}

/// The name of the model that is in use: the current one; else the configured one, as one of the
/// models knows it; else as it is configured, where it is.
pub open spec fn name_in_use(
    current: Option<Model>,
    models: Seq<Model>,
    configured: Model,
) -> Option<Seq<char>> {
    match current {
        Some(m) => Some(recent_id(m.provider@, m.id@)),
        None => match meant_at(models, configured.id@, 0) {
            Some(k) => Some(recent_id(models[k].provider@, models[k].id@)),
            None => if configured.id@.len() == 0 {
                None
            } else {
                Some(recent_id(configured.provider@, configured.id@))
            },
        },
    }
}

fn find_name_in_use(state: &AppState) -> (r: Option<String>)
    ensures
        crate::models::text_of(r) == name_in_use(
            state.model_switcher_state.current_model,
            state.model_switcher_state.available_models@,
            state.configuration_state.model,
        ),
{
    match &state.model_switcher_state.current_model {
        Some(m) => Some(format_recent_model_id(m.provider.as_str(), m.id.as_str())),
        None => {
            let id: &str = state.configuration_state.model.id.as_str();
            match find_meant(&state.model_switcher_state.available_models, id) {
                Some(k) => {
                    let m: &Model = &state.model_switcher_state.available_models[k];
                    Some(format_recent_model_id(m.provider.as_str(), m.id.as_str()))
                },
                None => if is_empty(id) {
                    None
                } else {
                    Some(
                        format_recent_model_id(
                            state.configuration_state.model.provider.as_str(),
                            id,
                        ),
                    )
                },
            }
        },
    }
}

/// How many recent models are kept.
pub const MAX_RECENT: usize = 5;

/// The names with another one in front, at most so many.
pub open spec fn put_first(names: Seq<Seq<char>>, name: Seq<char>) -> Seq<Seq<char>> {
    let all = seq![name] + names;
    if all.len() > MAX_RECENT {
        all.take(MAX_RECENT as int)
    } else {
        all
    }
}

/// The recent names after a model came into use.
pub open spec fn recent_noted(names: Seq<Seq<char>>, name: Option<Seq<char>>) -> Seq<Seq<char>> {
    match name {
        Some(n) => if names.contains(n) {
            names
        } else {
            put_first(names, n)
        },
        None => names,
    }
}

/// The model in use is among the recent ones, at most five of which are kept where one was added.
pub proof fn law_recent_noted(names: Seq<Seq<char>>, name: Seq<char>)
    ensures
        recent_noted(names, Some(name)).contains(name),
        !names.contains(name) ==> recent_noted(names, Some(name)).len() <= MAX_RECENT
            && recent_noted(names, Some(name))[0] == name,
{
    let r = recent_noted(names, Some(name));
    if !names.contains(name) {
        assert(r[0] == name);
    }
}

fn has_name(v: &Vec<String>, name: &str) -> (r: bool)
    ensures
        r == texts(v@).contains(name@),
{
    let ghost all = texts(v@);
    let mut i: usize = 0;
    while i < v.len()
        invariant
            i <= v@.len(),
            all == texts(v@),
            all.len() == v@.len(),
            forall|j: int| 0 <= j < i ==> #[trigger] all[j] != name@,
        decreases v@.len() - i,
    {
        assert(all[i as int] == v@[i as int]@);
        if same_text(v[i].as_str(), name) {
            return true;
        }
        i += 1;
    }
    false
}

fn note_recent(m: &mut ModelSwitcherState, name: String)
    ensures
        *final(m) == (ModelSwitcherState { recent_models: final(m).recent_models, ..*old(m) }),
        texts(final(m).recent_models@) == put_first(texts(old(m).recent_models@), name@),
{
    let ghost before = texts(m.recent_models@);
    m.recent_models.insert(0, name);
    assert(texts(m.recent_models@) =~= seq![name@] + before);
    if m.recent_models.len() > MAX_RECENT {
        m.recent_models.truncate(MAX_RECENT);
        assert(texts(m.recent_models@) =~= (seq![name@] + before).take(MAX_RECENT as int));
    }
}

/// What the models that there are do: they are listed in order, with those that only the recent
/// names speak of; the model in use is noted as a recent one; and one is to be selected.
pub open spec fn models_loaded(
    pre: AppState,
    post: AppState,
    models: Seq<Model>,
    limit: u64,
    sent: Outbox,
    out: Outbox,
) -> bool {
    exists|mid: AppState, before: Outbox| #[trigger]
        models_listed(pre, mid, models, limit) && #[trigger] use_noted(mid, post, sent, before)
            && before.affects(out, |e: Effect| e is PreselectModel)
}

/// The models that there are, in order, with those that only the recent names speak of.
pub open spec fn models_listed(pre: AppState, post: AppState, models: Seq<Model>, limit: u64)
    -> bool {
    let m = pre.model_switcher_state;
    let n = post.model_switcher_state;
    &&& post == with_switcher(
        pre,
        ModelSwitcherState { available_models: n.available_models, ..m },
    )
    &&& customs_added(
        by_provider(models),
        n.available_models@,
        texts(m.recent_models@),
        pre.configuration_state.model.provider@,
        limit,
    )
}

/// The model in use is noted as a recent one; where it was not one, the recent ones are kept.
pub open spec fn use_noted(pre: AppState, post: AppState, sent: Outbox, out: Outbox) -> bool {
    let m = pre.model_switcher_state;
    let n = post.model_switcher_state;
    let name = name_in_use(m.current_model, m.available_models@, pre.configuration_state.model);
    &&& post == with_switcher(pre, ModelSwitcherState { recent_models: n.recent_models, ..m })
    &&& texts(n.recent_models@) == recent_noted(texts(m.recent_models@), name)
    &&& if name is Some && !texts(m.recent_models@).contains(name->0) {
        sent.outputs(
            out,
            |e: OutputEvent|
                e matches OutputEvent::SaveRecentModels(v) && texts(v@) == texts(n.recent_models@),
        )
    } else {
        out == sent
    }
}

fn note_use(state: &mut AppState, out: &mut Outbox)
    ensures
        use_noted(*old(state), *final(state), *old(out), *final(out)),
{
    match find_name_in_use(state) {
        Some(name) => {
            if !has_name(&state.model_switcher_state.recent_models, name.as_str()) {
                note_recent(&mut state.model_switcher_state, name);
                let names: Vec<String> = state.model_switcher_state.recent_models.clone();
                assert(texts(names@) =~= texts(state.model_switcher_state.recent_models@));
                let _sent: bool = out.send_output(OutputEvent::SaveRecentModels(names));
            }
        },
        None => {},
    }
}

/// Takes over the models that there are. A model of which only the name is known is taken to hold
/// `limit` tokens.
pub fn handle_available_models_loaded(
    state: &mut AppState,
    models: &Vec<Model>,
    limit: u64,
    out: &mut Outbox,
)
    ensures
        models_loaded(*old(state), *final(state), models@, limit, *old(out), *final(out)),
{
    state.model_switcher_state.available_models = sort_models(models);
    ensure_custom_models_in_available(state, limit);
    let ghost mid = *state;
    assert(models_listed(*old(state), mid, models@, limit));
    note_use(state, out);
    let ghost before = *out;
    assert(use_noted(mid, *state, *old(out), before));
    out.ask(Effect::PreselectModel);
}

// ----- selecting -----

/// The first model from the `k`th on with the identifier.
pub open spec fn model_at(v: Seq<Model>, id: Seq<char>, k: int) -> Option<int>
    decreases v.len() - k,
{
    if k < 0 || k >= v.len() {
        None
    } else if v[k].id@ == id {
        Some(k)
    } else {
        model_at(v, id, k + 1)
    }
}

fn find_model(v: &Vec<Model>, id: &str) -> (r: Option<usize>)
    ensures
        match r {
            Some(k) => model_at(v@, id@, 0) == Some(k as int) && k < v@.len(),
            None => model_at(v@, id@, 0) is None,
        },
{
    let mut k: usize = 0;
    while k < v.len()
        invariant
            k <= v@.len(),
            model_at(v@, id@, 0) == model_at(v@, id@, k as int),
        decreases v@.len() - k,
    {
        if same_text(v[k].id.as_str(), id) {
            return Some(k);
        }
        k += 1;
    }
    None
}

fn has_index(v: &Vec<usize>, i: usize) -> (r: bool)
    ensures
        r == v@.contains(i),
{
    let mut k: usize = 0;
    while k < v.len()
        invariant
            k <= v@.len(),
            forall|j: int| 0 <= j < k ==> v@[j] != i,
        decreases v@.len() - k,
    {
        if v[k] == i {
            return true;
        }
        k += 1;
    }
    false
}

/// The first of the numbers, or zero.
pub open spec fn first_of(v: Seq<usize>) -> usize {
    if v.len() == 0 {
        0
    } else {
        v[0]
    }
}

fn take_first(v: &Vec<usize>) -> (r: usize)
    ensures
        r == first_of(v@),
{
    if v.len() == 0 {
        0
    } else {
        v[0]
    }
}

/// Which model is selected, among those that are shown: the current one, where it is shown; else
/// the first.
pub open spec fn preselected(m: ModelSwitcherState, shown: Seq<usize>) -> usize {
    match m.current_model {
        Some(c) => match model_at(m.available_models@, c.id@, 0) {
            Some(k) => if shown.contains(k as usize) {
                k as usize
            } else {
                first_of(shown)
            },
            None => first_of(shown),
        },
        None => first_of(shown),
    }
}

/// Selects the current model, where it is among those that are shown; else the first of them.
pub fn preselect_model(state: &mut AppState, shown: &Vec<usize>)
    ensures
        *final(state) == with_switcher(
            *old(state),
            ModelSwitcherState {
                is_selected: preselected(old(state).model_switcher_state, shown@),
                ..old(state).model_switcher_state
            },
        ),
{
    let found: Option<usize> = match &state.model_switcher_state.current_model {
        Some(c) => find_model(&state.model_switcher_state.available_models, c.id.as_str()),
        None => None,
    };
    let k: usize = match found {
        Some(k) => if has_index(shown, k) {
            k
        } else {
            take_first(shown)
        },
        None => take_first(shown),
    };
    state.model_switcher_state.is_selected = k;
}

/// Selects the first model in the order in which they are shown.
pub fn select_first_model(state: &mut AppState, order: &Vec<usize>)
    ensures
        *final(state) == with_switcher(
            *old(state),
            ModelSwitcherState {
                is_selected: first_of(order@),
                ..old(state).model_switcher_state
            },
        ),
{
    state.model_switcher_state.is_selected = take_first(order);
}

/// Where the number is in the list; at its start where it is not there.
pub open spec fn place_in(v: Seq<usize>, i: usize, k: int) -> int
    decreases v.len() - k,
{
    if k < 0 || k >= v.len() {
        0
    } else if v[k] == i {
        k
    } else {
        place_in(v, i, k + 1)
    }
}

fn find_place(v: &Vec<usize>, i: usize) -> (r: usize)
    ensures
        r == place_in(v@, i, 0),
        v@.len() > 0 ==> r < v@.len(),
{
    let mut k: usize = 0;
    while k < v.len()
        invariant
            k <= v@.len(),
            place_in(v@, i, 0) == place_in(v@, i, k as int),
        decreases v@.len() - k,
    {
        if v[k] == i {
            return k;
        }
        k += 1;
    }
    0
}

/// The model before or after the selected one, in the order in which they are shown; the order is a
/// ring.
pub open spec fn passed_model(order: Seq<usize>, selected: usize, up: bool) -> usize {
    let n = order.len() as int;
    let k = place_in(order, selected, 0);
    if n == 0 {
        selected
    } else if up {
        order[if k > 0 {
            k - 1
        } else {
            n - 1
        }]
    } else {
        order[if k < n - 1 {
            k + 1
        } else {
            0
        }]
    }
}

/// Moves the selection to the model before or after it, in the order in which they are shown.
pub fn pass_model(state: &mut AppState, order: &Vec<usize>, up: bool)
    ensures
        *final(state) == with_switcher(
            *old(state),
            ModelSwitcherState {
                is_selected: passed_model(
                    order@,
                    old(state).model_switcher_state.is_selected,
                    up,
                ),
                ..old(state).model_switcher_state
            },
        ),
{
    let n: usize = order.len();
    if n == 0 {
        return;
    }
    let k: usize = find_place(order, state.model_switcher_state.is_selected);
    let at: usize = if up {
        if k > 0 {
            k - 1
        } else {
            n - 1
        }
    } else if k < n - 1 {
        k + 1
    } else {
        0
    };
    state.model_switcher_state.is_selected = order[at];
}

proof fn lemma_place_in(v: Seq<usize>, i: usize, k: int, at: int)
    requires
        v.no_duplicates(),
        0 <= k <= at < v.len(),
        v[at] == i,
    ensures
        place_in(v, i, k) == at,
    decreases v.len() - k,
{
    if k < at {
        assert(v[k] != v[at]);
        lemma_place_in(v, i, k + 1, at);
    }
}

/// Going down and then up comes back to a model that is shown.
pub proof fn law_pass_back(order: Seq<usize>, selected: usize)
    requires
        order.no_duplicates(),
        order.contains(selected),
    ensures
        passed_model(order, passed_model(order, selected, false), true) == selected,
        order.contains(passed_model(order, selected, false)),
{
    let n = order.len() as int;
    let at = choose|at: int| 0 <= at < order.len() && order[at] == selected;
    lemma_place_in(order, selected, 0, at);
    let next = if at < n - 1 {
        at + 1
    } else {
        0
    };
    lemma_place_in(order, order[next], 0, next);
}

/// The search of the switcher after it was edited: the first model is to be selected.
pub open spec fn switcher_searched(
    pre: AppState,
    post: AppState,
    search: Seq<char>,
    sent: Outbox,
    out: Outbox,
) -> bool {
    let n = post.model_switcher_state;
    &&& post == with_switcher(
        pre,
        ModelSwitcherState { search: n.search, ..pre.model_switcher_state },
    )
    &&& n.search@ == search
    &&& sent.affects(out, |e: Effect| e is SelectFirstModel)
}

/// A character was typed into the switcher's search.
pub fn type_into_switcher(state: &mut AppState, c: char, out: &mut Outbox)
    ensures
        switcher_searched(
            *old(state),
            *final(state),
            old(state).model_switcher_state.search@.push(c),
            *old(out),
            *final(out),
        ),
{
    state.model_switcher_state.search.push(c);
    out.ask(Effect::SelectFirstModel);
}

/// The text without its last character, where it has one.
pub open spec fn shortened(s: Seq<char>) -> Seq<char> {
    if s.len() == 0 {
        s
    } else {
        s.drop_last()
    }
}

/// The last character of the switcher's search was deleted.
pub fn delete_in_switcher(state: &mut AppState, out: &mut Outbox)
    ensures
        switcher_searched(
            *old(state),
            *final(state),
            shortened(old(state).model_switcher_state.search@),
            *old(out),
            *final(out),
        ),
{
    let _c: Option<char> = state.model_switcher_state.search.pop();
    out.ask(Effect::SelectFirstModel);
}

/// What choosing a model does: it is asked for, unless it is the current one.
pub open spec fn model_chosen(
    pre: AppState,
    post: AppState,
    shown: Seq<usize>,
    sent: Outbox,
    out: Outbox,
) -> bool {
    let m = pre.model_switcher_state;
    let n = post.model_switcher_state;
    if m.is_visible && m.is_selected < m.available_models@.len() && shown.contains(m.is_selected) {
        let model = m.available_models@[m.is_selected as int];
        &&& post == with_switcher(pre, n)
        &&& if m.current_model is Some && m.current_model->0.id@ == model.id@ {
            switcher_closed(m, n, m.current_model) && out == sent
        } else {
            &&& switcher_closed(m, n, Some(model))
            &&& sent.outputs(out, |e: OutputEvent| e == OutputEvent::SwitchToModel(model))
        }
    } else {
        post == pre && out == sent
    }
}

fn close_switcher(m: &mut ModelSwitcherState, current: Model)
    ensures
        switcher_closed(*old(m), *final(m), Some(current)),
{
    m.current_model = Some(current);
    m.is_visible = false;
    m.search.clear();
}

/// Chooses the selected model, where it is among those that are shown.
pub fn handle_model_switcher_select(state: &mut AppState, shown: &Vec<usize>, out: &mut Outbox)
    ensures
        model_chosen(*old(state), *final(state), shown@, *old(out), *final(out)),
{
    let k: usize = state.model_switcher_state.is_selected;
    if !state.model_switcher_state.is_visible || k
        >= state.model_switcher_state.available_models.len() || !has_index(shown, k) {
        return;
    }
    let model: Model = state.model_switcher_state.available_models[k].clone();
    let current: bool = match &state.model_switcher_state.current_model {
        Some(c) => same_text(c.id.as_str(), model.id.as_str()),
        None => false,
    };
    if current {
        state.model_switcher_state.is_visible = false;
        state.model_switcher_state.search.clear();
    } else {
        close_switcher(&mut state.model_switcher_state, model.clone());
        let _sent: bool = out.send_output(OutputEvent::SwitchToModel(model));
    }
}

/// What the recent models do: they are taken over, and those that only their names speak of are
/// added.
pub fn handle_recent_models_updated(state: &mut AppState, recent: Vec<String>, limit: u64)
    ensures
        customs_ensured(
            with_switcher(
                *old(state),
                ModelSwitcherState { recent_models: recent, ..old(state).model_switcher_state },
            ),
            *final(state),
            limit,
        ),
{
    state.model_switcher_state.recent_models = recent;
    ensure_custom_models_in_available(state, limit);
}

// ----- what holds of the switcher -----

/// Choosing a model that is shown, other than the current one, asks the backend for exactly that
/// model, makes it the current one and closes the switcher. One that is not shown is not chosen.
pub proof fn law_chosen_model_is_asked_for(
    pre: AppState,
    post: AppState,
    shown: Seq<usize>,
    sent: Outbox,
    out: Outbox,
)
    requires
        model_chosen(pre, post, shown, sent, out),
    ensures
        ({
            let m = pre.model_switcher_state;
            let n = post.model_switcher_state;
            &&& !m.is_visible || !shown.contains(m.is_selected) ==> post == pre && out == sent
            &&& m.is_visible && m.is_selected < m.available_models@.len() && shown.contains(
                m.is_selected,
            ) ==> {
                let model = m.available_models@[m.is_selected as int];
                &&& !n.is_visible
                &&& n.search@.len() == 0
                &&& n.available_models == m.available_models
                &&& m.current_model is Some && m.current_model->0.id@ == model.id@ ==> out == sent
                    && n.current_model == m.current_model
                &&& !(m.current_model is Some && m.current_model->0.id@ == model.id@) ==> {
                    &&& n.current_model == Some(model)
                    &&& sent.output@.len() < sent.output_room ==> out.output@ == sent.output@.push(
                        OutputEvent::SwitchToModel(model),
                    )
                }
            }
        }),
{
    let m = pre.model_switcher_state;
    if out.output@.len() > 0 {
        assert(out.output@ =~= out.output@.drop_last().push(out.output@.last()));
    }
}

/// The name of a model among the recent ones: its provider, a slash, and what follows the last slash
/// of its identifier, so that nothing behind the provider holds a slash.
pub proof fn law_recent_id(provider: Seq<char>, id: Seq<char>)
    ensures
        ({
            let r = recent_id(provider, id);
            let n = provider.len() as int;
            &&& r.len() > n
            &&& r.take(n) == provider
            &&& r[n] == '/'
            &&& r.len() - n - 1 <= id.len()
            &&& r.skip(n + 1) == id.skip(id.len() - (r.len() - n - 1))
            &&& forall|i: int| n < i < r.len() ==> #[trigger] r[i] != '/'
            &&& (forall|i: int| 0 <= i < id.len() ==> #[trigger] id[i] != '/') ==> r.skip(n + 1)
                == id
        }),
{
    crate::text::law_last_piece(id, '/', id.len() as int);
    reveal_strlit("/");
    let p = last_piece(id, '/', id.len() as int);
    let r = recent_id(provider, id);
    let n = provider.len() as int;
    assert("/"@ =~= seq!['/']);
    assert(r.take(n) =~= provider);
    assert(r.skip(n + 1) =~= p);
    assert forall|i: int| n < i < r.len() implies #[trigger] r[i] != '/' by {
        assert(r[i] == p[i - n - 1]);
    }
    if forall|i: int| 0 <= i < id.len() ==> #[trigger] id[i] != '/' {
        if p.len() < id.len() {
            assert(id[id.len() - p.len() - 1] == '/');
        }
        assert(id.skip(0) =~= id);
    }
}

/// A new model comes first among the recent ones, the others move back by one, and at most five are
/// kept; a recent one changes nothing.
pub proof fn law_recent_order(names: Seq<Seq<char>>, name: Seq<char>, i: int)
    ensures
        names.contains(name) ==> recent_noted(names, Some(name)) == names,
        !names.contains(name) ==> {
            let r = recent_noted(names, Some(name));
            &&& r.len() <= 5
            &&& r.len() == names.len() + 1 || r.len() == 5
            &&& r[0] == name
            &&& 0 < i < r.len() ==> r[i] == names[i - 1]
        },
        recent_noted(names, None) == names,
{
}

/// The names that no model is listed under: of two lists, those of the first and then those of the
/// second.
pub proof fn law_unlisted(
    models: Seq<Model>,
    a: Seq<Seq<char>>,
    b: Seq<Seq<char>>,
    x: Seq<char>,
)
    ensures
        unlisted(models, a + b) == unlisted(models, a) + unlisted(models, b),
        is_listed(models, x) ==> unlisted(models, seq![x]).len() == 0,
        !is_listed(models, x) ==> unlisted(models, seq![x]) == seq![x],
    decreases b.len(),
{
    assert(seq![x].drop_last() =~= Seq::<Seq<char>>::empty());
    assert(unlisted(models, Seq::<Seq<char>>::empty()) =~= Seq::<Seq<char>>::empty());
    if b.len() == 0 {
        assert(a + b =~= a);
    } else {
        law_unlisted(models, a, b.drop_last(), x);
        assert((a + b).drop_last() =~= a + b.drop_last());
        assert(unlisted(models, a + b) =~= unlisted(models, a) + unlisted(models, b));
    }
}

/// The models of the client's own service come before all others; the others stand by the names of
/// their providers.
pub proof fn law_provider_order(a: Seq<char>, b: Seq<char>)
    ensures
        a == "stakpak"@ && b != "stakpak"@ ==> provider_before(a, b) && !provider_before(b, a),
        a != "stakpak"@ && b != "stakpak"@ ==> (provider_before(a, b) <==> text_before(a, b)),
        !provider_before(a, a),
{
    law_text_order(a, a);
}

/// The current model is selected where it is shown, and else the first that is.
pub proof fn law_preselected(m: ModelSwitcherState, shown: Seq<usize>, k: int)
    ensures
        shown.len() > 0 ==> shown.contains(preselected(m, shown)),
        m.current_model is Some && 0 <= k < m.available_models@.len()
            && m.available_models@.len() <= usize::MAX && m.available_models@[k].id@
            == m.current_model->0.id@ && (forall|j: int|
            0 <= j < k ==> (#[trigger] m.available_models@[j]).id@ != m.current_model->0.id@)
            && shown.contains(k as usize) ==> preselected(m, shown) == k,
        m.current_model is None && shown.len() > 0 ==> preselected(m, shown) == shown[0],
{
    if shown.len() > 0 {
        assert(shown.contains(shown[0]));
    }
    if m.current_model is Some && 0 <= k < m.available_models@.len()
        && m.available_models@[k].id@ == m.current_model->0.id@ && (forall|j: int|
        0 <= j < k ==> (#[trigger] m.available_models@[j]).id@ != m.current_model->0.id@) {
        lemma_model_at(m.available_models@, m.current_model->0.id@, 0, k);
    }
}

proof fn lemma_model_at(v: Seq<Model>, id: Seq<char>, i: int, k: int)
    requires
        0 <= i <= k < v.len(),
        v[k].id@ == id,
        forall|j: int| i <= j < k ==> (#[trigger] v[j]).id@ != id,
    ensures
        model_at(v, id, i) == Some(k),
    decreases k - i,
{
    if i < k {
        assert(v[i].id@ != id);
        lemma_model_at(v, id, i + 1, k);
    }
}


/// The name of a recent model gives its provider in front of the first slash and its identifier
/// behind it; a name without a slash is an identifier of the given provider.
pub proof fn law_named_parts(a: Seq<char>, b: Seq<char>, provider: Seq<char>)
    requires
        forall|i: int| 0 <= i < a.len() ==> #[trigger] a[i] != '/',
    ensures
        named_parts(a + seq!['/'] + b, provider) == (a, b),
        named_parts(a, provider) == (provider, a),
{
    let s = a + seq!['/'] + b;
    crate::text::lemma_next_char(s, '/', 0);
    crate::text::lemma_next_char(a, '/', 0);
    assert(s[a.len() as int] == '/');
    assert(forall|i: int| 0 <= i < a.len() ==> s[i] == a[i]);
    assert(next_char(s, '/', 0) == a.len());
    assert(s.take(a.len() as int) =~= a);
    assert(s.skip(a.len() as int + 1) =~= b);
}

} // verus!
