//! The model hierarchy of an FBX scene: the order in which models become
//! scene nodes, so that every parent node comes before its children.
use vstd::prelude::*;
use vstd::string::*;
use crate::error::{ConversionError, is_feature_error};

verus! {

/// A model of the scene, reduced to what the hierarchy needs: its id and
/// the id of the model it is attached to, if any.
#[derive(Clone, Copy, Debug, PartialEq, Eq, Structural)]
pub struct ModelLink {
    pub id: i64,
    pub parent: Option<i64>,
}

/// The ids of `links`, in order.
pub open spec fn link_ids(links: Seq<ModelLink>) -> Seq<i64> {
    links.map_values(|l: ModelLink| l.id)
}

/// The ids strictly increase along `links` (they are sorted and unique).
pub open spec fn ids_increasing(links: Seq<ModelLink>) -> bool {
    forall|a: int, b: int| 0 <= a < b < links.len() ==> links[a].id < links[b].id
}

/// Whether `id` is the id of a model in `links`.
pub open spec fn has_model(links: Seq<ModelLink>, id: i64) -> bool {
    link_ids(links).contains(id)
}

/// The position of the model `id` in `links`.
pub open spec fn model_position(links: Seq<ModelLink>, id: i64) -> int {
    choose|i: int| 0 <= i < links.len() && links[i].id == id
}

/// The parent of model `id` when that parent is itself a model of `links`.
pub open spec fn parent_of(links: Seq<ModelLink>, id: i64) -> Option<i64> {
    if has_model(links, id) {
        match links[model_position(links, id)].parent {
            Some(p) => if has_model(links, p) {
                Some(p)
            } else {
                None
            },
            None => None,
        }
    } else {
        None
    }
}

/// Following parents up from the last model of `chain`, stopping at a model
/// without a parent or at one already placed (`done`): the models to place,
/// child first; `None` when the walk comes back to a model of the chain
/// (the hierarchy is cyclic). `fuel` bounds the walk.
pub open spec fn walk_up(links: Seq<ModelLink>, done: Seq<i64>, chain: Seq<i64>, fuel: nat) -> Option<Seq<i64>>
    decreases fuel,
{
    match parent_of(links, chain.last()) {
        Some(p) => if done.contains(p) {
            Some(chain)
        } else if chain.contains(p) || fuel == 0 {
            None
        } else {
            walk_up(links, done, chain.push(p), (fuel - 1) as nat)
        },
        None => Some(chain),
    }
}

/// Placing the models `links[i..]` after those already `done`: each model
/// not yet placed comes after the ancestors it needs, root-most first.
pub open spec fn order_from(links: Seq<ModelLink>, i: int, done: Seq<i64>) -> Option<Seq<i64>>
    decreases links.len() - i,
{
    if i < 0 || i >= links.len() {
        Some(done)
    } else {
        let id = links[i].id;
        if done.contains(id) {
            order_from(links, i + 1, done)
        } else {
            match walk_up(links, done, seq![id], links.len()) {
                Some(chain) => order_from(links, i + 1, done + chain.reverse()),
                None => None,
            }
        }
    }
}

/// The order in which the models become scene nodes, or `None` when the
/// hierarchy is cyclic.
pub open spec fn spec_ordered_model_ids(links: Seq<ModelLink>) -> Option<Seq<i64>> {
    order_from(links, 0, seq![])
}

/// Finds the parent of model `id` among `links`, when that parent is a
/// model too.
fn find_parent(links: &Vec<ModelLink>, id: i64) -> (p: Option<i64>)
    requires
        ids_increasing(links@),
    ensures
        p == parent_of(links@, id),
{
    let mut i: usize = 0;
    let mut found: Option<usize> = None;
    while i < links.len()
        invariant
            i <= links.len(),
            found is None ==> forall|j: int| 0 <= j < i ==> links@[j].id != id,
            found matches Some(k) ==> k < links.len() && links@[k as int].id == id,
        decreases links.len() - i,
    {
        if found.is_none() && links[i].id == id {
            found = Some(i);
        }
        i = i + 1;
    }
    match found {
        None => {
            proof {
                if has_model(links@, id) {
                    let k = choose|k: int| 0 <= k < link_ids(links@).len() && link_ids(links@)[k] == id;
                    assert(links@[k].id == id);
                }
            }
            None
        },
        Some(k) => {
            proof {
                assert(link_ids(links@)[k as int] == id);
                let q = model_position(links@, id);
                if q != k {
                    if q < k {
                        assert(links@[q].id < links@[k as int].id);
                    } else {
                        assert(links@[k as int].id < links@[q].id);
                    }
                }
            }
            match links[k].parent {
                None => None,
                Some(p) => {
                    if contains_model(links, p) {
                        Some(p)
                    } else {
                        None
                    }
                },
            }
        },
    }
}

/// Whether `links` has a model with id `id`.
fn contains_model(links: &Vec<ModelLink>, id: i64) -> (r: bool)
    ensures
        r == has_model(links@, id),
{
    let mut i: usize = 0;
    while i < links.len()
        invariant
            i <= links.len(),
            forall|j: int| 0 <= j < i ==> links@[j].id != id,
        decreases links.len() - i,
    {
        if links[i].id == id {
            assert(link_ids(links@)[i as int] == id);
            return true;
        }
        i = i + 1;
    }
    proof {
        if has_model(links@, id) {
            let k = choose|k: int| 0 <= k < link_ids(links@).len() && link_ids(links@)[k] == id;
            assert(links@[k].id == id);
        }
    }
    false
}

/// Whether `ids` holds `id`.
fn contains_id(ids: &Vec<i64>, id: i64) -> (r: bool)
    ensures
        r == ids@.contains(id),
{
    let mut i: usize = 0;
    while i < ids.len()
        invariant
            i <= ids.len(),
            forall|j: int| 0 <= j < i ==> ids@[j] != id,
        decreases ids.len() - i,
    {
        if ids[i] == id {
            return true;
        }
        i = i + 1;
    }
    false
}

/// A distinct sequence drawn from the ids of `links` is no longer than
/// `links`.
proof fn lemma_distinct_ids_bounded(links: Seq<ModelLink>, s: Seq<i64>)
    requires
        s.no_duplicates(),
        forall|k: int| 0 <= k < s.len() ==> has_model(links, #[trigger] s[k]),
    ensures
        s.len() <= links.len(),
{
    s.unique_seq_to_set();
    link_ids(links).lemma_cardinality_of_set();
    assert(s.to_set().subset_of(link_ids(links).to_set())) by {
        assert forall|x: i64| s.to_set().contains(x) implies link_ids(links).to_set().contains(x) by {
            let k = choose|k: int| 0 <= k < s.len() && s[k] == x;
            assert(has_model(links, s[k]));
        }
    }
    vstd::set_lib::lemma_len_subset(s.to_set(), link_ids(links).to_set());
}

/// Orders the models so that every model comes after its parent: models
/// are taken by increasing id, each preceded by those of its ancestors not
/// yet placed, root-most first. Fails when the parent links form a cycle.
pub fn ordered_model_ids(links: &Vec<ModelLink>) -> (result: Result<Vec<i64>, ConversionError>)
    requires
        ids_increasing(links@),
    ensures
        match spec_ordered_model_ids(links@) {
            Some(order) => result is Ok && result->Ok_0@ == order,
            None => result is Err && is_feature_error(result->Err_0, "model hierarchy is cyclic"@),
        },
{
    let mut ordered: Vec<i64> = Vec::new();
    let mut i: usize = 0;
    while i < links.len()
        invariant
            ids_increasing(links@),
            i <= links.len(),
            order_from(links@, i as int, ordered@) == order_from(links@, 0, seq![]),
        decreases links.len() - i,
    {
        let id = links[i].id;
        if !contains_id(&ordered, id) {
            let mut chain: Vec<i64> = Vec::new();
            chain.push(id);
            proof {
                assert(has_model(links@, id)) by {
                    assert(link_ids(links@)[i as int] == id);
                }
            }
            let ghost start = chain@;
            let ghost mut fuel: nat = links.len() as nat;
            let mut current = id;
            loop
                invariant_except_break
                    ids_increasing(links@),
                    i < links.len(),
                    order_from(links@, i as int, ordered@) == order_from(links@, 0, seq![]),
                    !ordered@.contains(id),
                    links@[i as int].id == id,
                    start == seq![id],
                    chain@.len() >= 1,
                    current == chain@.last(),
                    chain@.no_duplicates(),
                    forall|k: int| 0 <= k < chain@.len() ==> has_model(links@, #[trigger] chain@[k]),
                    fuel + chain@.len() == links.len() + 1,
                    walk_up(links@, ordered@, chain@, fuel) == walk_up(
                        links@,
                        ordered@,
                        start,
                        links.len() as nat,
                    ),
                ensures
                    ids_increasing(links@),
                    i < links.len(),
                    order_from(links@, i as int, ordered@) == order_from(links@, 0, seq![]),
                    !ordered@.contains(id),
                    links@[i as int].id == id,
                    start == seq![id],
                    walk_up(links@, ordered@, start, links.len() as nat) == Some(chain@),
                decreases fuel,
            {
                match find_parent(links, current) {
                    Some(p) => {
                        if contains_id(&ordered, p) {
                            break;
                        }
                        if contains_id(&chain, p) {
                            proof {
                                assert(walk_up(links@, ordered@, chain@, fuel) is None);
                            }
                            return Err(
                                ConversionError::UnsupportedFbxFeature(
                                    String::from_str("model hierarchy is cyclic"),
                                ),
                            );
                        }
                        proof {
                            assert(has_model(links@, p));
                            let next = chain@.push(p);
                            assert forall|a: int, b: int|
                                0 <= a < b < next.len() implies next[a] != next[b] by {
                                if b == next.len() - 1 {
                                    assert(chain@.contains(chain@[a]));
                                }
                            }
                            assert(next.no_duplicates());
                            assert forall|k: int| 0 <= k < next.len() implies has_model(
                                links@,
                                #[trigger] next[k],
                            ) by {
                                if k < chain@.len() {
                                    assert(next[k] == chain@[k]);
                                }
                            }
                            lemma_distinct_ids_bounded(links@, next);
                            assert(fuel > 0);
                            fuel = (fuel - 1) as nat;
                        }
                        chain.push(p);
                        current = p;
                    },
                    None => {
                        break;
                    },
                }
            }
            let mut k: usize = chain.len();
            let ghost before = ordered@;
            while k > 0
                invariant
                    k <= chain@.len(),
                    ordered@ == before + chain@.subrange(k as int, chain@.len() as int).reverse(),
                decreases k,
            {
                k = k - 1;
                ordered.push(chain[k]);
                assert(chain@.subrange(k as int, chain@.len() as int).reverse() =~= chain@.subrange(
                    k + 1,
                    chain@.len() as int,
                ).reverse().push(chain@[k as int]));
            }
            proof {
                assert(chain@.subrange(0, chain@.len() as int) =~= chain@);
                assert(start =~= seq![id]);
            }
        }
        i = i + 1;
    }
    Ok(ordered)
}

// ---------------------------------------------------------------- transform chains

/// The models whose local transforms place a point of model `id`: the model
/// itself, then its parent, and so on up to a model without a parent (a
/// parent id that is not a model ends the chain). `None` when the chain
/// would need a step deeper than 128 (`depth` counts the steps taken).
pub open spec fn spec_model_chain(links: Seq<ModelLink>, id: i64, depth: int) -> Option<Seq<i64>>
    decreases 129 - depth,
{
    if depth > 128 || depth < 0 {
        None
    } else if !has_model(links, id) {
        Some(seq![])
    } else {
        match links[model_position(links, id)].parent {
            Some(p) => match spec_model_chain(links, p, depth + 1) {
                Some(c) => Some(seq![id] + c),
                None => None,
            },
            None => Some(seq![id]),
        }
    }
}

/// The chain of a point that may belong to no model.
pub open spec fn spec_point_chain(links: Seq<ModelLink>, model_id: Option<i64>) -> Option<Seq<i64>> {
    match model_id {
        Some(id) => spec_model_chain(links, id, 0),
        None => Some(seq![]),
    }
}

fn find_link(links: &Vec<ModelLink>, id: i64) -> (pos: Option<usize>)
    requires
        ids_increasing(links@),
    ensures
        match pos {
            Some(q) => has_model(links@, id) && q == model_position(links@, id) && q < links@.len(),
            None => !has_model(links@, id),
        },
{
    let mut i: usize = 0;
    while i < links.len()
        invariant
            ids_increasing(links@),
            i <= links.len(),
            forall|j: int| 0 <= j < i ==> links@[j].id != id,
        decreases links.len() - i,
    {
        if links[i].id == id {
            proof {
                assert(link_ids(links@)[i as int] == id);
                let q = model_position(links@, id);
                if q != i {
                    if q < i {
                        assert(links@[q].id < links@[i as int].id);
                    } else {
                        assert(links@[i as int].id < links@[q].id);
                    }
                }
            }
            return Some(i);
        }
        i = i + 1;
    }
    proof {
        if has_model(links@, id) {
            let k = choose|k: int| 0 <= k < link_ids(links@).len() && link_ids(links@)[k] == id;
            assert(links@[k].id == id);
        }
    }
    None
}

/// The models whose local transforms carry a point of model `model_id`
/// into the scene, innermost first; none for a point of no model. Fails
/// when the chain is deeper than 128 models.
pub fn model_chain(links: &Vec<ModelLink>, model_id: Option<i64>) -> (result: Result<Vec<i64>, ConversionError>)
    requires
        ids_increasing(links@),
    ensures
        match spec_point_chain(links@, model_id) {
            Some(c) => result is Ok && result->Ok_0@ == c,
            None => result is Err && is_feature_error(
                result->Err_0,
                "model hierarchy is too deep or cyclic"@,
            ),
        },
{
    let mut chain: Vec<i64> = Vec::new();
    let mut current = match model_id {
        Some(id) => id,
        None => return Ok(chain),
    };
    let start = current;
    let mut depth: usize = 0;
    loop
        invariant_except_break
            ids_increasing(links@),
            depth <= 129,
            model_id == Some(start),
            spec_model_chain(links@, start, 0) matches Some(all) ==> spec_model_chain(
                links@,
                current,
                depth as int,
            ) matches Some(rest) && all == chain@ + rest,
            spec_model_chain(links@, start, 0) is None ==> spec_model_chain(
                links@,
                current,
                depth as int,
            ) is None,
        ensures
            spec_point_chain(links@, model_id) == Some(chain@),
        decreases 129 - depth,
    {
        if depth > 128 {
            return Err(
                ConversionError::UnsupportedFbxFeature(
                    String::from_str("model hierarchy is too deep or cyclic"),
                ),
            );
        }
        match find_link(links, current) {
            None => {
                proof {
                    if let Some(all) = spec_model_chain(links@, start, 0) {
                        assert(all =~= chain@ + seq![]);
                    }
                }
                break;
            },
            Some(q) => {
                let parent = links[q].parent;
                let ghost before = chain@;
                chain.push(current);
                match parent {
                    Some(p) => {
                        proof {
                            if let Some(all) = spec_model_chain(links@, start, 0) {
                                let rest = spec_model_chain(links@, current, depth as int)->0;
                                let tail = spec_model_chain(links@, p, depth + 1)->0;
                                assert(rest == seq![current] + tail);
                                assert(all =~= chain@ + tail);
                            }
                        }
                        current = p;
                        depth = depth + 1;
                    },
                    None => {
                        proof {
                            if let Some(all) = spec_model_chain(links@, start, 0) {
                                assert(all =~= chain@);
                            }
                        }
                        break;
                    },
                }
            },
        }
    }
    Ok(chain)
}

// ---------------------------------------------------------------- laws

/// `p` stands in `s` before position `j`.
pub open spec fn placed_before(s: Seq<i64>, j: int, p: i64) -> bool {
    exists|i: int| 0 <= i < j && s[i] == p
}

/// `s` places models of `links`, each once, every model after its parent.
pub open spec fn parents_first(links: Seq<ModelLink>, s: Seq<i64>) -> bool {
    &&& s.no_duplicates()
    &&& forall|k: int| 0 <= k < s.len() ==> has_model(links, #[trigger] s[k])
    &&& forall|j: int|
        0 <= j < s.len() ==> (#[trigger] parent_of(links, s[j]) matches Some(p) ==> placed_before(s, j, p))
}

/// A walk in progress: distinct models not yet placed, each the parent of
/// the one before it.
pub open spec fn chain_ok(links: Seq<ModelLink>, done: Seq<i64>, chain: Seq<i64>) -> bool {
    &&& chain.len() >= 1
    &&& chain.no_duplicates()
    &&& forall|k: int| 0 <= k < chain.len() ==> has_model(links, #[trigger] chain[k])
    &&& forall|k: int| 0 <= k < chain.len() ==> !done.contains(#[trigger] chain[k])
    &&& forall|k: int|
        0 <= k < chain.len() - 1 ==> #[trigger] parent_of(links, chain[k]) == Some(chain[k + 1])
}

proof fn lemma_walk_up(links: Seq<ModelLink>, done: Seq<i64>, chain: Seq<i64>, fuel: nat)
    requires
        chain_ok(links, done, chain),
    ensures
        walk_up(links, done, chain, fuel) matches Some(c) ==> {
            &&& chain_ok(links, done, c)
            &&& c.len() >= chain.len()
            &&& c[0] == chain[0]
            &&& (parent_of(links, c.last()) matches Some(p) ==> done.contains(p))
        },
    decreases fuel,
{
    match parent_of(links, chain.last()) {
        Some(p) => {
            if !done.contains(p) && !chain.contains(p) && fuel > 0 {
                let next = chain.push(p);
                assert(has_model(links, p)) by {
                    assert(has_model(links, chain.last()));
                }
                assert forall|a: int, b: int| 0 <= a < b < next.len() implies next[a] != next[b] by {
                    if b == next.len() - 1 {
                        assert(chain.contains(chain[a]));
                    }
                }
                assert forall|k: int| 0 <= k < next.len() - 1 implies #[trigger] parent_of(
                    links,
                    next[k],
                ) == Some(next[k + 1]) by {
                    if k < chain.len() - 1 {
                        assert(next[k] == chain[k] && next[k + 1] == chain[k + 1]);
                    }
                }
                assert forall|k: int| 0 <= k < next.len() implies has_model(links, #[trigger] next[k])
                    && !done.contains(next[k]) by {
                    if k < chain.len() {
                        assert(next[k] == chain[k]);
                    }
                }
                lemma_walk_up(links, done, next, (fuel - 1) as nat);
            }
        },
        None => {},
    }
}

proof fn lemma_place_chain(links: Seq<ModelLink>, done: Seq<i64>, c: Seq<i64>)
    requires
        parents_first(links, done),
        chain_ok(links, done, c),
        parent_of(links, c.last()) matches Some(p) ==> done.contains(p),
    ensures
        parents_first(links, done + c.reverse()),
{
    let r = c.reverse();
    let s = done + r;
    let n = c.len();
    assert forall|m: int| 0 <= m < r.len() implies #[trigger] r[m] == c[n - 1 - m] by {}
    assert forall|a: int, b: int| 0 <= a < b < s.len() implies s[a] != s[b] by {
        if b >= done.len() {
            if a >= done.len() {
                assert(s[a] == c[n - 1 - (a - done.len())]);
                assert(s[b] == c[n - 1 - (b - done.len())]);
            } else {
                assert(s[b] == c[n - 1 - (b - done.len())]);
                assert(done.contains(s[a]));
            }
        }
    }
    assert forall|k: int| 0 <= k < s.len() implies has_model(links, #[trigger] s[k]) by {
        if k >= done.len() {
            assert(s[k] == c[n - 1 - (k - done.len())]);
        }
    }
    assert forall|j: int|
        0 <= j < s.len() implies (#[trigger] parent_of(links, s[j]) matches Some(p) ==> placed_before(
        s,
        j,
        p,
    )) by {
        if j < done.len() {
            assert(s[j] == done[j]);
            if let Some(p) = parent_of(links, done[j]) {
                let i = choose|i: int| 0 <= i < j && done[i] == p;
                assert(s[i] == p);
            }
        } else {
            let m = j - done.len();
            let k = n - 1 - m;
            assert(s[j] == c[k]);
            if let Some(p) = parent_of(links, c[k]) {
                if k < n - 1 {
                    assert(p == c[k + 1]);
                    assert(s[j - 1] == c[k + 1]);
                } else {
                    assert(c[k] == c.last());
                    let i = choose|i: int| 0 <= i < done.len() && done[i] == p;
                    assert(s[i] == p);
                }
            }
        }
    }
}

proof fn lemma_order_from(links: Seq<ModelLink>, i: int, done: Seq<i64>)
    requires
        parents_first(links, done),
        0 <= i,
    ensures
        order_from(links, i, done) matches Some(o) ==> {
            &&& parents_first(links, o)
            &&& forall|x: i64| done.contains(x) ==> o.contains(x)
            &&& forall|j: int| i <= j < links.len() ==> o.contains(#[trigger] links[j].id)
        },
    decreases links.len() - i,
{
    if i < links.len() {
        let id = links[i].id;
        if done.contains(id) {
            lemma_order_from(links, i + 1, done);
        } else {
            assert(has_model(links, id)) by {
                assert(link_ids(links)[i] == id);
            }
            let start = seq![id];
            assert(chain_ok(links, done, start));
            lemma_walk_up(links, done, start, links.len());
            if let Some(c) = walk_up(links, done, start, links.len()) {
                lemma_place_chain(links, done, c);
                let next = done + c.reverse();
                lemma_order_from(links, i + 1, next);
                if let Some(o) = order_from(links, i + 1, next) {
                    assert forall|x: i64| done.contains(x) implies o.contains(x) by {
                        let k = choose|k: int| 0 <= k < done.len() && done[k] == x;
                        assert(next[k] == x);
                    }
                    assert(next[done.len() + c.len() - 1] == c[0]);
                    assert(next.contains(id));
                }
            }
        }
    }
}

/// When the models can be ordered, the order places every model of the
/// scene exactly once, and every model after its parent.
pub proof fn lemma_ordered_models_parents_first(links: Seq<ModelLink>)
    ensures
        spec_ordered_model_ids(links) matches Some(o) ==> {
            &&& parents_first(links, o)
            &&& forall|j: int| 0 <= j < links.len() ==> o.contains(#[trigger] links[j].id)
        },
{
    assert(parents_first(links, seq![]));
    lemma_order_from(links, 0, seq![]);
}

/// The model reached from `id` by following `k` parent links.
pub open spec fn ancestor(links: Seq<ModelLink>, id: i64, k: nat) -> Option<i64>
    decreases k,
{
    if k == 0 {
        Some(id)
    } else {
        match ancestor(links, id, (k - 1) as nat) {
            Some(a) => parent_of(links, a),
            None => None,
        }
    }
}

/// Some model is its own ancestor: the parent links form a cycle.
pub open spec fn hierarchy_is_cyclic(links: Seq<ModelLink>) -> bool {
    exists|id: i64, k: nat| 1 <= k && has_model(links, id) && #[trigger] ancestor(links, id, k) == Some(id)
}

proof fn lemma_chain_ancestors(links: Seq<ModelLink>, done: Seq<i64>, chain: Seq<i64>, j: int, m: nat)
    requires
        chain_ok(links, done, chain),
        0 <= j,
        j + m < chain.len(),
    ensures
        ancestor(links, chain[j], m) == Some(chain[j + m]),
    decreases m,
{
    if m > 0 {
        lemma_chain_ancestors(links, done, chain, j, (m - 1) as nat);
        assert(parent_of(links, chain[j + m - 1]) == Some(chain[j + m - 1 + 1]));
    }
}

proof fn lemma_walk_up_none_cyclic(links: Seq<ModelLink>, done: Seq<i64>, chain: Seq<i64>, fuel: nat)
    requires
        chain_ok(links, done, chain),
        fuel + chain.len() == links.len() + 1,
        walk_up(links, done, chain, fuel) is None,
    ensures
        hierarchy_is_cyclic(links),
    decreases fuel,
{
    let p = parent_of(links, chain.last())->0;
    assert(has_model(links, p));
    if chain.contains(p) {
        let j = choose|j: int| 0 <= j < chain.len() && chain[j] == p;
        let n = chain.len();
        let m = (n - 1 - j) as nat;
        lemma_chain_ancestors(links, done, chain, j, m);
        assert(ancestor(links, chain[j], m + 1) == parent_of(links, chain[n - 1]));
        assert(ancestor(links, p, (m + 1) as nat) == Some(p));
        assert(has_model(links, p));
    } else if fuel == 0 {
        let next = chain.push(p);
        assert forall|a: int, b: int| 0 <= a < b < next.len() implies next[a] != next[b] by {
            if b == next.len() - 1 {
                assert(chain.contains(chain[a]));
            }
        }
        assert forall|k: int| 0 <= k < next.len() implies has_model(links, #[trigger] next[k]) by {
            if k < chain.len() {
                assert(next[k] == chain[k]);
            }
        }
        lemma_distinct_ids_bounded(links, next);
    } else {
        let next = chain.push(p);
        assert forall|a: int, b: int| 0 <= a < b < next.len() implies next[a] != next[b] by {
            if b == next.len() - 1 {
                assert(chain.contains(chain[a]));
            }
        }
        assert forall|k: int| 0 <= k < next.len() - 1 implies #[trigger] parent_of(
            links,
            next[k],
        ) == Some(next[k + 1]) by {
            if k < chain.len() - 1 {
                assert(next[k] == chain[k] && next[k + 1] == chain[k + 1]);
            }
        }
        assert forall|k: int| 0 <= k < next.len() implies has_model(links, #[trigger] next[k])
            && !done.contains(next[k]) by {
            if k < chain.len() {
                assert(next[k] == chain[k]);
            }
        }
        lemma_walk_up_none_cyclic(links, done, next, (fuel - 1) as nat);
    }
}

proof fn lemma_order_from_none_cyclic(links: Seq<ModelLink>, i: int, done: Seq<i64>)
    requires
        parents_first(links, done),
        0 <= i,
        order_from(links, i, done) is None,
    ensures
        hierarchy_is_cyclic(links),
    decreases links.len() - i,
{
    let id = links[i].id;
    if done.contains(id) {
        lemma_order_from_none_cyclic(links, i + 1, done);
    } else {
        assert(has_model(links, id)) by {
            assert(link_ids(links)[i] == id);
        }
        let start = seq![id];
        assert(chain_ok(links, done, start));
        lemma_walk_up(links, done, start, links.len());
        match walk_up(links, done, start, links.len()) {
            Some(c) => {
                lemma_place_chain(links, done, c);
                lemma_order_from_none_cyclic(links, i + 1, done + c.reverse());
            },
            None => {
                lemma_walk_up_none_cyclic(links, done, start, links.len());
            },
        }
    }
}

proof fn lemma_ancestor_positions(links: Seq<ModelLink>, o: Seq<i64>, id: i64, pos: int, m: nat)
    requires
        parents_first(links, o),
        0 <= pos < o.len(),
        o[pos] == id,
        ancestor(links, id, m) is Some,
    ensures
        exists|q: int| 0 <= q <= pos - m && o[q] == ancestor(links, id, m)->0,
    decreases m,
{
    if m > 0 {
        let prev = ancestor(links, id, (m - 1) as nat);
        assert(prev is Some);
        lemma_ancestor_positions(links, o, id, pos, (m - 1) as nat);
        let q = choose|q: int| 0 <= q <= pos - (m - 1) && o[q] == prev->0;
        let p = parent_of(links, prev->0)->0;
        assert(parent_of(links, o[q]) == Some(p));
        let r = choose|r: int| 0 <= r < q && o[r] == p;
        assert(o[r] == ancestor(links, id, m)->0);
    }
}

/// The models can be ordered exactly when no model is its own ancestor:
/// the order is refused only for a cyclic hierarchy, and a cyclic hierarchy
/// is always refused.
pub proof fn lemma_ordering_fails_iff_cyclic(links: Seq<ModelLink>)
    ensures
        spec_ordered_model_ids(links) is None <==> hierarchy_is_cyclic(links),
{
    assert(parents_first(links, seq![]));
    if spec_ordered_model_ids(links) is None {
        lemma_order_from_none_cyclic(links, 0, seq![]);
    } else {
        lemma_ordered_models_parents_first(links);
        let o = spec_ordered_model_ids(links)->0;
        if hierarchy_is_cyclic(links) {
            let (id, k) = choose|id: i64, k: nat|
                1 <= k && has_model(links, id) && #[trigger] ancestor(links, id, k) == Some(id);
            let j = choose|j: int| 0 <= j < link_ids(links).len() && link_ids(links)[j] == id;
            assert(links[j].id == id);
            assert(o.contains(links[j].id));
            let pos = choose|pos: int| 0 <= pos < o.len() && o[pos] == id;
            lemma_ancestor_positions(links, o, id, pos, k);
            let q = choose|q: int| 0 <= q <= pos - k && o[q] == ancestor(links, id, k)->0;
            assert(o[q] == o[pos]);
        }
    }
}

} // verus!
