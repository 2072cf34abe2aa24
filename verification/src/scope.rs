//! Scopes: creating them, and what is visible from one.

use vstd::prelude::*;

use crate::error::{
    caused_by, invalid, missing, seen, violation, ErrorModel, KernelError, KernelErrorKind,
};
use crate::graph::{distinct_items_fit, reachable, reaches};
use crate::json::{
    add_field, json_quoted, object_text, optional_quoted, quote, quote_optional, write_object,
};
use crate::kind::{Labelled, ScopeKind};
use crate::model::{MutationModel, MutationResult, ReadAccess, ReadAccessModel, Scope, ScopeModel};
use crate::operation::{
    prior, required, saved, unreadable, unreadable_error, validate_nonempty, Prior, PriorModel,
};
use crate::order::{ordered, sort_rows, KeyModel, OrderKey, RowKey};
use crate::row::{
    Edge, EdgeModel, MemoryStore, MemoryStoreModel, Node, NodeModel, StoredResult, StoredResultModel,
};
use crate::digest::{operation_request_hash, request_hash};
use crate::stamp::{draw_stamp, Stamp, StampModel};
use crate::table::{
    any_row, find_row, first_row, first_where, first_where_found, push_row, some_row, Duplicate, RowTest,
};
use crate::text::{concat2, concat3, is_listed, listed, same_text, Text};

verus! {

pub open spec fn scope_named(id: Text) -> spec_fn(ScopeModel) -> bool {
    |scope: ScopeModel| scope.id == id
}

/// The scope with a given identifier.
pub open spec fn scope_at(scopes: Seq<ScopeModel>, id: Text) -> Option<ScopeModel> {
    first_where(scopes, scope_named(id))
}

pub open spec fn scope_exists(store: MemoryStoreModel, id: Text) -> bool {
    some_row(store.scopes, scope_named(id))
}

pub open spec fn no_scope(id: Text) -> ErrorModel {
    missing("scope "@ + id + " does not exist"@)
}

pub open spec fn scope_cycle(id: Text) -> ErrorModel {
    invalid("scope hierarchy contains a cycle at "@ + id)
}

/// The scopes from `id` up to the root of its hierarchy, behind those that were already passed.
pub open spec fn climbed(scopes: Seq<ScopeModel>, passed: Seq<Text>, id: Text) -> Result<
    Seq<Text>,
    ErrorModel,
>
    decreases scopes.len() - passed.len(),
{
    if listed(passed, id) {
        Err(scope_cycle(id))
    } else {
        match scope_at(scopes, id) {
            None => Err(no_scope(id)),
            Some(scope) => match scope.parent_id {
                None => Ok(passed.push(id)),
                Some(parent) => if passed.len() < scopes.len() {
                    climbed(scopes, passed.push(id), parent)
                } else {
                    Err(scope_cycle(parent))
                },
            },
        }
    }
}

/// The scopes that are visible from `id`: the root of its hierarchy first, `id` itself last.
pub open spec fn visible_scopes(store: MemoryStoreModel, id: Text) -> Result<Seq<Text>, ErrorModel> {
    match climbed(store.scopes, Seq::empty(), id) {
        Ok(path) => Ok(path.reverse()),
        Err(error) => Err(error),
    }
}

/// A climb never passes a scope twice.
pub proof fn climb_repeats_nothing(scopes: Seq<ScopeModel>, passed: Seq<Text>, id: Text)
    requires
        passed.no_duplicates(),
    ensures
        climbed(scopes, passed, id) matches Ok(path) ==> path.no_duplicates(),
    decreases scopes.len() + 1 - passed.len(),
{
    if !listed(passed, id) {
        let longer = passed.push(id);
        assert forall|a: int, b: int|
            0 <= a < longer.len() && 0 <= b < longer.len() && a != b implies longer[a]
            != longer[b] by {
            if a < passed.len() && b < passed.len() {
                assert(passed[a] != passed[b]);
            } else if a < passed.len() {
                assert(passed[a] != id);
            } else {
                assert(passed[b] != id);
            }
        }
        if let Some(scope) = scope_at(scopes, id) {
            if let Some(parent) = scope.parent_id {
                if passed.len() < scopes.len() {
                    climb_repeats_nothing(scopes, longer, parent);
                }
            }
        }
    }
}

/// No scope is listed twice among the visible ones.
pub proof fn visible_scopes_differ(store: MemoryStoreModel, id: Text)
    ensures
        visible_scopes(store, id) matches Ok(visible) ==> visible.no_duplicates(),
{
    climb_repeats_nothing(store.scopes, Seq::empty(), id);
    if let Ok(path) = climbed(store.scopes, Seq::empty(), id) {
        let visible = path.reverse();
        assert forall|a: int, b: int|
            0 <= a < visible.len() && 0 <= b < visible.len() && a != b implies visible[a]
            != visible[b] by {
            assert(visible[a] == path[path.len() - 1 - a]);
            assert(visible[b] == path[path.len() - 1 - b]);
        }
    }
}

pub open spec fn scope_node(id: Text) -> NodeModel {
    NodeModel { claim: false, id }
}

/// The edges from each scope to the scopes below it.
pub open spec fn scope_edges(scopes: Seq<ScopeModel>) -> Seq<EdgeModel>
    decreases scopes.len(),
{
    if scopes.len() == 0 {
        Seq::empty()
    } else {
        let front = scope_edges(scopes.drop_last());
        match scopes.last().parent_id {
            Some(parent) => front.push(
                EdgeModel { from: scope_node(parent), to: scope_node(scopes.last().id) },
            ),
            None => front,
        }
    }
}

/// Whether `scope` is `ancestor` or lies below it.
pub open spec fn descends(store: MemoryStoreModel, ancestor: Text, scope: Text) -> bool {
    reaches(scope_edges(store.scopes), seq![scope_node(ancestor)], scope_node(scope))
}

/// Whether records of `scope` can be read from `anchor`: it is visible from there or lies below.
pub open spec fn readable_from(store: MemoryStoreModel, anchor: Text, scope: Text) -> bool {
    visible_scopes(store, anchor) matches Ok(visible) && (listed(visible, scope) || descends(
        store,
        anchor,
        scope,
    ))
}

pub open spec fn not_readable(anchor: Text) -> ErrorModel {
    violation("record is not visible from scope "@ + anchor)
}

/// The error for reading a record of `scope` with this access, if there is one.
pub open spec fn read_refusal(
    store: MemoryStoreModel,
    access: ReadAccessModel,
    scope: Text,
) -> Option<ErrorModel> {
    match visible_scopes(store, access.anchor_scope_id) {
        Err(error) => Some(error),
        Ok(_) => if readable_from(store, access.anchor_scope_id, scope) {
            None
        } else {
            Some(not_readable(access.anchor_scope_id))
        },
    }
}

/// The request text of a scope creation.
pub open spec fn scope_request(
    id: Text,
    kind: ScopeKind,
    parent_id: Option<Text>,
    name: Option<Text>,
) -> Text {
    object_text(
        seq![
            ("id"@, json_quoted(id)),
            ("kind"@, json_quoted(kind.label())),
            ("name"@, optional_quoted(name)),
            ("parentId"@, optional_quoted(parent_id)),
        ],
    )
}

/// What creating a scope does and answers.
pub open spec fn create_scope_step(
    store: MemoryStoreModel,
    id: Text,
    kind: ScopeKind,
    parent_id: Option<Text>,
    name: Option<Text>,
    key: Text,
    stamp: StampModel,
) -> (MemoryStoreModel, Result<MutationModel<ScopeModel>, ErrorModel>) {
    let hash = request_hash("scope.create"@, scope_request(id, kind, parent_id, name));
    if let Some(error) = required("scope id"@, id) {
        (store, Err(error))
    } else if let Some(error) = required("idempotency key"@, key) {
        (store, Err(error))
    } else if parent_id == Some(id) {
        (store, Err(invalid("a scope cannot be its own parent"@)))
    } else {
        match prior(store, key, "scope.create"@, hash) {
            PriorModel::Refused(error) => (store, Err(error)),
            PriorModel::Known(StoredResultModel::Scope(scope)) => (
                store,
                Ok(MutationModel { data: scope, replayed: true }),
            ),
            PriorModel::Known(_) => (store, Err(unreadable(key))),
            PriorModel::Fresh => if parent_id matches Some(parent) && !scope_exists(store, parent) {
                (store, Err(no_scope(parent_id.unwrap())))
            } else if scope_exists(store, id) {
                (
                    store,
                    Err(
                        caused_by(
                            invalid("creating scope "@ + id),
                            "UNIQUE constraint failed: memory_scopes.id"@,
                        ),
                    ),
                )
            } else {
                let scope = ScopeModel { id, kind, parent_id, name, created_at: stamp.at };
                (
                    saved(
                        MemoryStoreModel { scopes: store.scopes.push(scope), ..store },
                        key,
                        "scope.create"@,
                        hash,
                        StoredResultModel::Scope(scope),
                    ),
                    Ok(MutationModel { data: scope, replayed: false }),
                )
            },
        }
    }
}

/// Scopes are listed by age, then by identifier.
pub open spec fn scope_age() -> spec_fn(ScopeModel) -> KeyModel {
    |scope: ScopeModel|
        KeyModel { major: 0, first: scope.created_at, second: scope.id, minor: 0 }
}

pub struct ScopeNamed<'a> {
    pub id: &'a str,
}

impl<'a> RowTest<Scope> for ScopeNamed<'a> {
    open spec fn accepts(&self) -> spec_fn(ScopeModel) -> bool {
        scope_named(self.id@)
    }

    fn test(&self, row: &Scope) -> (b: bool) {
        same_text(row.id.as_str(), self.id)
    }
}

pub struct ScopeAge {}

impl RowKey<Scope> for ScopeAge {
    open spec fn key(&self) -> spec_fn(ScopeModel) -> KeyModel {
        scope_age()
    }

    fn key_of(&self, row: &Scope) -> (key: OrderKey) {
        OrderKey { major: 0, first: row.created_at.clone(), second: row.id.clone(), minor: 0 }
    }
}

pub fn no_scope_error(id: &str) -> (error: KernelError)
    ensures
        error@ == no_scope(id@),
{
    KernelError::of(KernelErrorKind::NotFound, concat3("scope ", id, " does not exist"))
}

pub fn owned(text: Option<&str>) -> (copy: Option<String>)
    ensures
        copy.deep_view() == text.deep_view(),
{
    match text {
        Some(text) => Some(text.to_owned()),
        None => None,
    }
}

proof fn passed_scopes_exist(scopes: Seq<ScopeModel>, passed: Seq<Text>, id: Text)
    requires
        passed.no_duplicates(),
        forall|i: int| 0 <= i < passed.len() ==> scope_at(scopes, #[trigger] passed[i]) is Some,
        !listed(passed, id),
        scope_at(scopes, id) is Some,
    ensures
        passed.len() < scopes.len(),
{
    let all = passed.push(id);
    let names = scopes.map_values(|scope: ScopeModel| scope.id);
    assert forall|i: int| 0 <= i < all.len() implies names.contains(#[trigger] all[i]) by {
        first_where_found(scopes, scope_named(all[i]));
        let scope = scope_at(scopes, all[i]).unwrap();
        let k = choose|k: int| 0 <= k < scopes.len() && scopes[k] == scope;
        assert(names[k] == all[i]);
    }
    assert(all.no_duplicates()) by {
        assert forall|i: int, j: int| 0 <= i < all.len() && 0 <= j < all.len() && i != j implies all[i]
            != all[j] by {
            if i < passed.len() && j < passed.len() {
            } else if i < passed.len() {
                assert(passed[i] != id);
            } else {
                assert(passed[j] != id);
            }
        }
    }
    distinct_items_fit(all, names);
}

impl MemoryStore {
    pub fn create_scope(
        &mut self,
        id: &str,
        kind: ScopeKind,
        parent_id: Option<&str>,
        name: Option<&str>,
        idempotency_key: &str,
    ) -> (result: Result<MutationResult<Scope>, KernelError>)
        ensures
            exists|stamp: StampModel|
                #[trigger] create_scope_step(
                    old(self)@,
                    id@,
                    kind,
                    parent_id.deep_view(),
                    name.deep_view(),
                    idempotency_key@,
                    stamp,
                ) == (final(self)@, seen(result)),
    {
        let stamp: Stamp = draw_stamp(0);
        self.create_scope_with(id, kind, parent_id, name, idempotency_key, &stamp)
    }

    /// Creates a scope at a given time.
    pub fn create_scope_with(
        &mut self,
        id: &str,
        kind: ScopeKind,
        parent_id: Option<&str>,
        name: Option<&str>,
        idempotency_key: &str,
        stamp: &Stamp,
    ) -> (result: Result<MutationResult<Scope>, KernelError>)
        ensures
            create_scope_step(
                old(self)@,
                id@,
                kind,
                parent_id.deep_view(),
                name.deep_view(),
                idempotency_key@,
                stamp@,
            ) == (final(self)@, seen(result)),
    {
        if let Err(error) = validate_nonempty("scope id", id) {
            return Err(error);
        }
        if let Err(error) = validate_nonempty("idempotency key", idempotency_key) {
            return Err(error);
        }
        let parent: Option<String> = owned(parent_id);
        let name: Option<String> = owned(name);
        if let Some(parent) = parent_id {
            if same_text(parent, id) {
                return Err(KernelError::invalid_input("a scope cannot be its own parent"));
            }
        }
        let mut fields: Vec<(String, String)> = Vec::new();
        let ghost none = fields.deep_view();
        add_field(&mut fields, "id", quote(id));
        add_field(&mut fields, "kind", quote(kind.label_text()));
        add_field(&mut fields, "name", quote_optional(&name));
        add_field(&mut fields, "parentId", quote_optional(&parent));
        proof {
            assert(none =~= Seq::empty());
            assert(fields.deep_view() =~= seq![
                ("id"@, json_quoted(id@)),
                ("kind"@, json_quoted(kind.label())),
                ("name"@, optional_quoted(name.deep_view())),
                ("parentId"@, optional_quoted(parent.deep_view())),
            ]);
        }
        let hash: String = operation_request_hash("scope.create", write_object(&fields).as_str());
        match self.prior_result(idempotency_key, "scope.create", hash.as_str()) {
            Prior::Refused(error) => return Err(error),
            Prior::Known(StoredResult::Scope(scope)) => return Ok(MutationResult::replayed(scope)),
            Prior::Known(_) => return Err(unreadable_error(idempotency_key)),
            Prior::Fresh => {},
        }
        if let Some(parent) = parent_id {
            if let Err(error) = self.ensure_scope_exists(parent) {
                return Err(error);
            }
        }
        if any_row(&self.scopes, &ScopeNamed { id }) {
            return Err(
                KernelError::of(
                    KernelErrorKind::InvalidInput,
                    concat2("creating scope ", id),
                ).because("UNIQUE constraint failed: memory_scopes.id".to_owned()),
            );
        }
        let scope = Scope {
            id: id.to_owned(),
            kind,
            parent_id: parent,
            name,
            created_at: stamp.at.clone(),
        };
        push_row(&mut self.scopes, scope.duplicate());
        self.save_operation(
            idempotency_key,
            "scope.create",
            hash.as_str(),
            StoredResult::Scope(scope.duplicate()),
        );
        Ok(MutationResult::created(scope))
    }

    pub fn list_scopes(&self) -> (scopes: Vec<Scope>)
        ensures
            scopes.deep_view() == ordered(self@.scopes, scope_age()),
    {
        sort_rows(&self.scopes, &ScopeAge {  })
    }

    pub fn get_scope(&self, id: &str) -> (scope: Result<Scope, KernelError>)
        ensures
            seen(scope) == match scope_at(self@.scopes, id@) {
                Some(scope) => Ok(scope),
                None => Err(no_scope(id@)),
            },
    {
        match first_row(&self.scopes, &ScopeNamed { id }) {
            Some(scope) => Ok(scope),
            None => Err(no_scope_error(id)),
        }
    }

    pub fn ensure_scope_exists(&self, id: &str) -> (result: Result<(), KernelError>)
        ensures
            match result {
                Ok(_) => scope_exists(self@, id@),
                Err(error) => !scope_exists(self@, id@) && error@ == no_scope(id@),
            },
    {
        if any_row(&self.scopes, &ScopeNamed { id }) {
            Ok(())
        } else {
            Err(no_scope_error(id))
        }
    }

    pub fn visible_scope_ids(&self, scope_id: &str) -> (ids: Result<Vec<String>, KernelError>)
        ensures
            seen(ids) == visible_scopes(self@, scope_id@),
    {
        let mut path: Vec<String> = Vec::new();
        let mut current: String = scope_id.to_owned();
        proof {
            assert(path.deep_view() =~= Seq::empty());
        }
        loop
            invariant
                climbed(self@.scopes, Seq::empty(), scope_id@) == climbed(
                    self@.scopes,
                    path.deep_view(),
                    current@,
                ),
                path.deep_view().no_duplicates(),
                path.len() <= self.scopes.len(),
                forall|i: int|
                    0 <= i < path.deep_view().len() ==> scope_at(
                        self@.scopes,
                        #[trigger] path.deep_view()[i],
                    ) is Some,
            decreases self.scopes.len() - path.len(),
        {
            if is_listed(&path, current.as_str()) {
                return Err(
                    KernelError::of(
                        KernelErrorKind::InvalidInput,
                        concat2("scope hierarchy contains a cycle at ", current.as_str()),
                    ),
                );
            }
            match find_row(&self.scopes, &ScopeNamed { id: current.as_str() }) {
                None => {
                    return Err(no_scope_error(current.as_str()));
                },
                Some(i) => {
                    let ghost before = path.deep_view();
                    proof {
                        passed_scopes_exist(self@.scopes, before, current@);
                    }
                    push_row(&mut path, current.clone());
                    proof {
                        assert(path.deep_view().len() == path.len());
                        assert forall|a: int, b: int|
                            0 <= a < path.len() && 0 <= b < path.len() && a
                                != b implies path.deep_view()[a] != path.deep_view()[b] by {
                            if a < before.len() && b < before.len() {
                                assert(before[a] != before[b]);
                            } else if a < before.len() {
                                assert(before[a] != current@);
                            } else {
                                assert(before[b] != current@);
                            }
                        }
                    }
                    match &self.scopes[i].parent_id {
                        None => {
                            let mut ids: Vec<String> = Vec::new();
                            let mut k: usize = path.len();
                            let ghost whole = path.deep_view();
                            while k > 0
                                invariant
                                    k <= path.len(),
                                    whole == path.deep_view(),
                                    ids.len() == path.len() - k,
                                    forall|j: int|
                                        0 <= j < ids.len() ==> (#[trigger] ids.deep_view()[j])
                                            == whole[whole.len() - 1 - j],
                                decreases k,
                            {
                                k = k - 1;
                                push_row(&mut ids, path[k].clone());
                                proof {
                                    assert(ids.deep_view().len() == ids.len());
                                }
                            }
                            proof {
                                assert(ids.deep_view() =~= whole.reverse());
                            }
                            return Ok(ids);
                        },
                        Some(parent) => {
                            current = parent.clone();
                        },
                    }
                },
            }
        }
    }

    fn scope_graph(&self) -> (edges: Vec<Edge>)
        ensures
            edges.deep_view() == scope_edges(self@.scopes),
    {
        let mut edges: Vec<Edge> = Vec::new();
        let mut i: usize = 0;
        proof {
            assert(edges.deep_view() =~= scope_edges(self@.scopes.take(0)));
        }
        while i < self.scopes.len()
            invariant
                i <= self.scopes.len(),
                edges.deep_view() == scope_edges(self@.scopes.take(i as int)),
            decreases self.scopes.len() - i,
        {
            proof {
                let next = self@.scopes.take(i + 1);
                assert(next.drop_last() =~= self@.scopes.take(i as int));
                assert(next.last() == self.scopes[i as int]@);
            }
            if let Some(parent) = &self.scopes[i].parent_id {
                let edge = Edge {
                    from: Node { claim: false, id: parent.clone() },
                    to: Node { claim: false, id: self.scopes[i].id.clone() },
                };
                push_row(&mut edges, edge);
            }
            i = i + 1;
        }
        proof {
            assert(self@.scopes.take(self.scopes.len() as int) =~= self@.scopes);
        }
        edges
    }

    /// The scopes whose records can be read from a scope, each of them once: the visible ones in
    /// their order, then those below.
    pub fn retrieval_scope_ids(&self, scope_id: &str) -> (ids: Result<Vec<String>, KernelError>)
        ensures
            match ids {
                Ok(ids) => {
                    &&& visible_scopes(self@, scope_id@) matches Ok(visible) && visible.len()
                        <= ids.len() && ids.deep_view().take(visible.len() as int) == visible
                    &&& ids.deep_view().no_duplicates()
                    &&& forall|id: Text|
                        #[trigger] listed(ids.deep_view(), id) <==> readable_from(
                            self@,
                            scope_id@,
                            id,
                        )
                },
                Err(error) => visible_scopes(self@, scope_id@) == Err::<Seq<Text>, ErrorModel>(error@),
            },
    {
        let mut ids: Vec<String> = match self.visible_scope_ids(scope_id) {
            Ok(ids) => ids,
            Err(error) => return Err(error),
        };
        let ghost visible = ids.deep_view();
        proof {
            visible_scopes_differ(self@, scope_id@);
            assert(visible.take(visible.len() as int) =~= visible);
        }
        let edges: Vec<Edge> = self.scope_graph();
        let mut roots: Vec<Node> = Vec::new();
        roots.push(Node { claim: false, id: scope_id.to_owned() });
        proof {
            assert(roots.deep_view() =~= seq![scope_node(scope_id@)]);
        }
        let reached: Vec<Node> = reachable(&edges, &roots);
        let mut i: usize = 0;
        let ghost below = reached.deep_view();
        while i < reached.len()
            invariant
                i <= reached.len(),
                below == reached.deep_view(),
                visible.len() <= ids.len(),
                ids.deep_view().take(visible.len() as int) == visible,
                ids.deep_view().no_duplicates(),
                forall|id: Text|
                    #[trigger] listed(ids.deep_view(), id) <==> listed(visible, id) || below.take(
                        i as int,
                    ).contains(scope_node(id)),
            decreases reached.len() - i,
        {
            let ghost before = ids.deep_view();
            let ghost node = below[i as int];
            proof {
                assert(below.take(i + 1) =~= below.take(i as int).push(node));
                assert(node == reached[i as int]@);
            }
            if !reached[i].claim {
                if !is_listed(&ids, reached[i].id.as_str()) {
                    push_row(&mut ids, reached[i].id.clone());
                    proof {
                        let longer = ids.deep_view();
                        assert(longer.take(visible.len() as int) =~= before.take(
                            visible.len() as int,
                        ));
                        assert forall|a: int, b: int|
                            0 <= a < longer.len() && 0 <= b < longer.len() && a
                                != b implies longer[a] != longer[b] by {
                            if a < before.len() && b < before.len() {
                                assert(before[a] != before[b]);
                            } else if a < before.len() {
                                assert(before[a] != node.id);
                            } else {
                                assert(before[b] != node.id);
                            }
                        }
                    }
                }
                proof {
                    let after = ids.deep_view();
                    assert forall|id: Text| #[trigger] listed(after, id) <==> listed(before, id) || id
                        == node.id by {
                        if listed(before, id) {
                            let k = choose|k: int| 0 <= k < before.len() && #[trigger] before[k] == id;
                            assert(after[k] == id);
                        }
                        if id == node.id && !listed(before, id) {
                            assert(after[before.len() as int] == id);
                        }
                        if listed(after, id) {
                            let k = choose|k: int| 0 <= k < after.len() && #[trigger] after[k] == id;
                            if k < before.len() {
                                assert(before[k] == id);
                            }
                        }
                    }
                    assert(node == scope_node(node.id));
                }
            }
            proof {
                let seen_before = below.take(i as int);
                let seen_now = below.take(i + 1);
                assert forall|id: Text|
                    seen_now.contains(scope_node(id)) <==> seen_before.contains(scope_node(id)) || node
                        == scope_node(id) by {
                    if seen_before.contains(scope_node(id)) {
                        let k = choose|k: int|
                            0 <= k < seen_before.len() && seen_before[k] == scope_node(id);
                        assert(seen_now[k] == scope_node(id));
                    }
                    if node == scope_node(id) {
                        assert(seen_now[i as int] == scope_node(id));
                    }
                }
                assert forall|id: Text| #[trigger] listed(ids.deep_view(), id) <==> listed(visible, id)
                    || seen_now.contains(scope_node(id)) by {
                    assert(listed(before, id) <==> listed(visible, id) || seen_before.contains(
                        scope_node(id),
                    ));
                }
            }
            i = i + 1;
        }
        proof {
            assert(below.take(reached.len() as int) =~= below);
            assert forall|id: Text| #[trigger] listed(ids.deep_view(), id) <==> readable_from(
                self@,
                scope_id@,
                id,
            ) by {
                assert(below.contains(scope_node(id)) <==> descends(self@, scope_id@, id));
            }
        }
        Ok(ids)
    }

    /// Whether a scope is another one or lies above it.
    pub fn scope_is_ancestor(&self, ancestor_id: &str, descendant_id: &str) -> (result: Result<
        bool,
        KernelError,
    >)
        ensures
            seen(result) == match visible_scopes(self@, descendant_id@) {
                Ok(visible) => Ok(listed(visible, ancestor_id@)),
                Err(error) => Err(error),
            },
    {
        match self.visible_scope_ids(descendant_id) {
            Ok(ids) => Ok(is_listed(&ids, ancestor_id)),
            Err(error) => Err(error),
        }
    }

    /// Refuses to read a record of a scope that cannot be read with this access.
    pub fn ensure_read_scope(&self, access: &ReadAccess, record_scope_id: &str) -> (result: Result<
        (),
        KernelError,
    >)
        ensures
            match result {
                Ok(_) => read_refusal(self@, access@, record_scope_id@) is None,
                Err(error) => read_refusal(self@, access@, record_scope_id@) == Some(error@),
            },
    {
        match self.retrieval_scope_ids(access.anchor_scope_id.as_str()) {
            Err(error) => Err(error),
            Ok(ids) => if is_listed(&ids, record_scope_id) {
                Ok(())
            } else {
                Err(
                    KernelError::of(
                        KernelErrorKind::ScopeViolation,
                        concat2("record is not visible from scope ", access.anchor_scope_id.as_str()),
                    ),
                )
            },
        }
    }
}

} // verus!
