//! The node store: the arena that holds a program's nodes and function
//! signatures, and the table of the types recorded for them.

use vstd::prelude::*;
use crate::ir::{
    Child, Class, ExprId, ExpressionKind, FuncId, FuncMeta, IdentId, Literal, Node, StatementKind,
    StmtId,
};
use crate::tree::{distinct_children, holds_child, Tree};
use crate::types::Type;

verus! {

/// What a store holds at one moment: the tree, for each node the type
/// recorded for it, if any, and how many times a type was recorded.
pub struct Snapshot {
    pub tree: Tree,
    pub types: Seq<Option<Type>>,
    pub writes: nat,
}

/// How many places of a table hold a type.
pub open spec fn typed_count(types: Seq<Option<Type>>) -> nat
    decreases types.len(),
{
    if types.len() == 0 {
        0
    } else if types.last() is Some {
        typed_count(types.drop_last()) + 1
    } else {
        typed_count(types.drop_last())
    }
}

/// A table holds at most as many types as it has places.
pub proof fn lemma_typed_count_bound(types: Seq<Option<Type>>)
    ensures
        typed_count(types) <= types.len(),
    decreases types.len(),
{
    if types.len() > 0 {
        lemma_typed_count_bound(types.drop_last());
    }
}

/// Filling an empty place of a table makes it hold one type more.
pub proof fn lemma_typed_count_update(types: Seq<Option<Type>>, at: int, typ: Type)
    requires
        0 <= at < types.len(),
        types[at] is None,
    ensures
        typed_count(types.update(at, Some(typ))) == typed_count(types) + 1,
        typed_count(types) < types.len(),
    decreases types.len(),
{
    let filled = types.update(at, Some(typ));
    if at == types.len() - 1 {
        assert(filled.drop_last() =~= types.drop_last());
        lemma_typed_count_bound(types.drop_last());
    } else {
        assert(filled.drop_last() =~= types.drop_last().update(at, Some(typ)));
        lemma_typed_count_update(types.drop_last(), at, typ);
    }
}

impl Snapshot {
    /// The tree is well formed, the table has one place for each node, and
    /// as many types were recorded as the table holds: none was recorded
    /// over another.
    pub open spec fn well_formed(self) -> bool {
        &&& self.tree.well_formed()
        &&& self.types.len() == self.tree.nodes.len()
        &&& self.writes == typed_count(self.types)
    }

    /// A type is recorded for `handle`.
    pub open spec fn typed(self, handle: nat) -> bool {
        handle < self.types.len() && self.types[handle as int] is Some
    }

    /// The type recorded for `handle`.
    pub open spec fn type_of(self, handle: nat) -> Type
        recommends
            self.typed(handle),
    {
        self.types[handle as int]->Some_0
    }

    /// The snapshot after `typ` is recorded for `handle`.
    pub open spec fn with_type(self, handle: nat, typ: Type) -> Snapshot {
        Snapshot {
            tree: self.tree,
            types: self.types.update(handle as int, Some(typ)),
            writes: self.writes + 1,
        }
    }

    /// The snapshot after `node` is added, with no type recorded for it.
    pub open spec fn with_node(self, node: Node) -> Snapshot {
        Snapshot {
            tree: self.tree.extended(node),
            types: self.types.push(None),
            writes: self.writes,
        }
    }

    /// The snapshot after the signature `meta` is added.
    pub open spec fn with_function(self, meta: FuncMeta) -> Snapshot {
        Snapshot {
            tree: Tree {
                nodes: self.tree.nodes,
                parents: self.tree.parents,
                functions: self.tree.functions.push(meta),
            },
            types: self.types,
            writes: self.writes,
        }
    }

    /// The definition that the identifier `ident` resolves to, if it names an
    /// identifier that has one.
    pub open spec fn definition(self, ident: IdentId) -> Option<IdentId> {
        if ident.0 < self.tree.nodes.len() {
            match self.tree.nodes[ident.0 as int] {
                Node::Identifier { definition } => definition,
                _ => None,
            }
        } else {
            None
        }
    }
}

/// The arena of nodes and function signatures of one program, with the type
/// table that a checking pass fills.
///
/// Nodes are added leaves first: a node names children that are in the store
/// already, and becomes their owner. A node has at most one owner, so the
/// nodes form a forest. A type is recorded for a handle once and then stays.
pub struct Store {
    nodes: Vec<Node>,
    parents: Vec<Option<usize>>,
    functions: Vec<FuncMeta>,
    types: Vec<Option<Type>>,
    writes: usize,
}

/// The owner of a node as it stands in the model.
spec fn owner_view(owner: Option<usize>) -> Option<nat> {
    match owner {
        Some(parent) => Some(parent as nat),
        None => None,
    }
}

impl View for Store {
    type V = Snapshot;

    closed spec fn view(&self) -> Snapshot {
        Snapshot {
            tree: Tree {
                nodes: self.nodes@,
                parents: Seq::new(self.parents@.len(), |k: int| owner_view(self.parents@[k])),
                functions: self.functions@,
            },
            types: self.types@,
            writes: self.writes as nat,
        }
    }
}

impl Store {
    /// The store's invariant: see [`Snapshot::well_formed`].
    pub open spec fn wf(&self) -> bool {
        self@.well_formed()
    }

    /// A store that holds nothing.
    pub fn new() -> (store: Store)
        ensures
            store.wf(),
            store@.tree.nodes.len() == 0,
            store@.tree.functions.len() == 0,
            store@.types.len() == 0,
            store@.writes == 0,
    {
        Store {
            nodes: Vec::new(),
            parents: Vec::new(),
            functions: Vec::new(),
            types: Vec::new(),
            writes: 0,
        }
    }

    /// No type was recorded over another: the store has counted as many
    /// recordings as its table holds types.
    pub proof fn lemma_each_type_recorded_once(&self)
        requires
            self.wf(),
        ensures
            self@.writes == typed_count(self@.types),
    {
    }

    /// How many times a type was recorded in this store.
    pub fn writes(&self) -> (count: usize)
        ensures
            count == self@.writes,
    {
        self.writes
    }

    /// How many nodes the store holds.
    pub fn node_count(&self) -> (count: usize)
        ensures
            count == self@.tree.nodes.len(),
    {
        self.nodes.len()
    }

    /// The node that `handle` names, if it names one.
    pub fn node(&self, handle: usize) -> (node: Option<&Node>)
        ensures
            match node {
                Some(node) => handle < self@.tree.nodes.len() && *node
                    == self@.tree.nodes[handle as int],
                None => handle >= self@.tree.nodes.len(),
            },
    {
        if handle < self.nodes.len() {
            Some(&self.nodes[handle])
        } else {
            None
        }
    }

    /// Whether `handle` names a node of class `class`.
    pub fn has_class(&self, handle: usize, class: Class) -> (yes: bool)
        ensures
            yes == self@.tree.has(handle as nat, class),
    {
        handle < self.nodes.len() && self.nodes[handle].is_class(class)
    }

    /// The kind of the expression `expr`.
    pub fn expression(&self, expr: ExprId) -> (kind: &ExpressionKind)
        requires
            self@.tree.has(expr.0 as nat, Class::Expression),
        ensures
            self@.tree.nodes[expr.0 as int] == Node::Expression(*kind),
    {
        match &self.nodes[expr.0] {
            Node::Expression(kind) => kind,
            _ => vstd::pervasive::unreached(),
        }
    }

    /// The kind of the statement `stmt`.
    pub fn statement(&self, stmt: StmtId) -> (kind: &StatementKind)
        requires
            self@.tree.has(stmt.0 as nat, Class::Statement),
        ensures
            self@.tree.nodes[stmt.0 as int] == Node::Statement(*kind),
    {
        match &self.nodes[stmt.0] {
            Node::Statement(kind) => kind,
            _ => vstd::pervasive::unreached(),
        }
    }

    /// The signature of the function `func`.
    pub fn function_meta(&self, func: FuncId) -> (meta: &FuncMeta)
        requires
            func.0 < self@.tree.functions.len(),
        ensures
            *meta == self@.tree.functions[func.0 as int],
    {
        &self.functions[func.0]
    }

    /// How many children the node `parent` has.
    pub fn child_count(&self, parent: usize) -> (count: usize)
        requires
            parent < self@.tree.nodes.len(),
        ensures
            count == self@.tree.child_count(parent as nat),
    {
        self.nodes[parent].child_count()
    }

    /// The handle of the child of `parent` at position `at`.
    pub fn child(&self, parent: usize, at: usize) -> (child: usize)
        requires
            parent < self@.tree.nodes.len(),
            at < self@.tree.child_count(parent as nat),
        ensures
            child == self@.tree.child(parent as nat, at as int),
    {
        self.nodes[parent].child_at(at).0
    }

    /// The node that owns `handle` as a child, if any.
    pub fn parent(&self, handle: usize) -> (owner: Option<usize>)
        requires
            self.wf(),
        ensures
            match owner {
                Some(parent) => self@.tree.owner(handle as nat) == Some(parent as nat),
                None => self@.tree.owner(handle as nat) is None,
            },
    {
        if handle < self.parents.len() {
            self.parents[handle]
        } else {
            None
        }
    }

    /// The definition that the identifier `ident` resolves to, if there is
    /// one.
    pub fn ident_def(&self, ident: &IdentId) -> (definition: Option<IdentId>)
        ensures
            definition == self@.definition(*ident),
    {
        if ident.0 < self.nodes.len() {
            match &self.nodes[ident.0] {
                Node::Identifier { definition } => *definition,
                _ => None,
            }
        } else {
            None
        }
    }

    /// The type recorded for `handle`, if there is one.
    pub fn recorded_type(&self, handle: usize) -> (typ: Option<&Type>)
        ensures
            match typ {
                Some(typ) => self@.typed(handle as nat) && *typ == self@.type_of(handle as nat),
                None => !self@.typed(handle as nat),
            },
    {
        if handle < self.types.len() {
            self.types[handle].as_ref()
        } else {
            None
        }
    }

    /// The type recorded for `handle`.
    pub fn id_type(&self, handle: usize) -> (typ: &Type)
        requires
            self@.typed(handle as nat),
        ensures
            *typ == self@.type_of(handle as nat),
    {
        match &self.types[handle] {
            Some(typ) => typ,
            None => vstd::pervasive::unreached(),
        }
    }

    /// Records `typ` for `handle`, for which nothing is recorded yet.
    pub fn record_type(&mut self, handle: usize, typ: Type)
        requires
            old(self).wf(),
            handle < old(self)@.types.len(),
            !old(self)@.typed(handle as nat),
        ensures
            final(self).wf(),
            final(self)@ == old(self)@.with_type(handle as nat, typ),
    {
        proof {
            lemma_typed_count_update(self.types@, handle as int, typ);
            assert(self.types@.len() == self.types.len());
        }
        self.types[handle] = Some(typ);
        self.writes = self.writes + 1;
        proof {
            assert(self@.tree.parents =~= old(self)@.tree.parents);
            assert(self@.types =~= old(self)@.types.update(handle as int, Some(typ)));
        }
    }

    /// Records `typ` as the type of the expression `expr`.
    pub fn push_expr_type(&mut self, expr: ExprId, typ: Type)
        requires
            old(self).wf(),
            old(self)@.tree.has(expr.0 as nat, Class::Expression),
            !old(self)@.typed(expr.0 as nat),
        ensures
            final(self).wf(),
            final(self)@ == old(self)@.with_type(expr.0 as nat, typ),
    {
        self.record_type(expr.0, typ);
    }

    /// Records `typ` as the type of the identifier `ident`.
    pub fn push_ident_type(&mut self, ident: IdentId, typ: Type)
        requires
            old(self).wf(),
            old(self)@.tree.has(ident.0 as nat, Class::Identifier),
            !old(self)@.typed(ident.0 as nat),
        ensures
            final(self).wf(),
            final(self)@ == old(self)@.with_type(ident.0 as nat, typ),
    {
        self.record_type(ident.0, typ);
    }

    /// Adds the signature of a function, and gives the handle that names it.
    pub fn push_function(&mut self, meta: FuncMeta) -> (func: FuncId)
        requires
            old(self).wf(),
        ensures
            final(self).wf(),
            func.0 == old(self)@.tree.functions.len(),
            final(self)@ == old(self)@.with_function(meta),
    {
        let func = FuncId(self.functions.len());
        self.functions.push(meta);
        proof {
            assert(self@.tree.parents =~= old(self)@.tree.parents);
            assert forall|at: nat| at < self@.tree.nodes.len() implies #[trigger] self@.tree.node_well_formed(
                at,
            ) by {
                assert(old(self)@.tree.node_well_formed(at));
            }
            assert forall|child: nat|
                child < self@.tree.parents.len() implies #[trigger] self@.tree.owner_well_formed(
                child,
            ) by {
                assert(old(self)@.tree.owner_well_formed(child));
                if old(self)@.tree.owner(child) is Some {
                    let parent = old(self)@.tree.owner(child).unwrap();
                    let i = choose|i: int|
                        0 <= i < old(self)@.tree.child_count(parent) && #[trigger] old(
                            self,
                        )@.tree.child(parent, i) == child;
                    assert(self@.tree.child(parent, i) == child);
                }
            }
        }
        func
    }
}

impl Store {
    /// Whether the parts of `node` can be linked to.
    fn attachable(&self, node: &Node) -> (ok: bool)
        requires
            self.wf(),
        ensures
            ok == self@.tree.attachable(*node),
    {
        let at: usize = self.nodes.len();
        match node.referenced() {
            Some(ident) => {
                if ident.0 >= at || !self.nodes[ident.0].is_class(Class::Identifier) {
                    return false;
                }
            },
            None => {},
        }
        match node {
            Node::Expression(ExpressionKind::Literal(Literal::Array(contents))) => {
                if contents.len() == 0 {
                    return false;
                }
            },
            Node::Expression(ExpressionKind::Call { func, .. }) => {
                if func.0 >= self.functions.len() {
                    return false;
                }
            },
            _ => {},
        }
        let count: usize = node.child_count();
        let mut i: usize = 0;
        while i < count
            invariant
                self.wf(),
                at == self.nodes@.len(),
                count == node.children().len(),
                i <= count,
                forall|j: int|
                    0 <= j < i ==> {
                        let child = #[trigger] node.children()[j];
                        &&& self@.tree.has(child.target, child.class)
                        &&& self@.tree.owner(child.target) is None
                    },
            decreases count - i,
        {
            let (target, class) = node.child_at(i);
            if target >= at || !self.nodes[target].is_class(class) || self.parents[target].is_some() {
                proof {
                    let child = node.children()[i as int];
                    assert(!(self@.tree.has(child.target, child.class) && self@.tree.owner(
                        child.target,
                    ) is None));
                }
                return false;
            }
            i = i + 1;
        }
        true
    }

    /// Adds `node` at the end of the arena and makes it the owner of its
    /// children, if the tree admits it; else leaves the store as it is.
    pub fn push_node(&mut self, node: Node) -> (handle: Option<usize>)
        requires
            old(self).wf(),
        ensures
            final(self).wf(),
            match handle {
                Some(handle) => {
                    &&& old(self)@.tree.admits(node)
                    &&& handle == old(self)@.tree.nodes.len()
                    &&& final(self)@ == old(self)@.with_node(node)
                },
                None => !old(self)@.tree.admits(node) && final(self)@ == old(self)@,
            },
    {
        if !self.attachable(&node) {
            return None;
        }
        let at: usize = self.nodes.len();
        let count: usize = node.child_count();
        let ghost children = node.children();
        let ghost owners = old(self).parents@;
        let mut i: usize = 0;
        while i < count
            invariant
                self.nodes@ == old(self).nodes@,
                self.functions@ == old(self).functions@,
                self.types@ == old(self).types@,
                self.writes == old(self).writes,
                old(self).wf(),
                old(self)@.tree.attachable(node),
                owners == old(self).parents@,
                children == node.children(),
                at == self.nodes@.len(),
                count == children.len(),
                i <= count,
                self.parents@.len() == owners.len(),
                distinct_children(children, i as int),
                forall|k: int|
                    0 <= k < owners.len() ==> #[trigger] self.parents@[k] == if holds_child(
                        children,
                        0,
                        i as int,
                        k,
                    ) {
                        Some(at)
                    } else {
                        owners[k]
                    },
            decreases count - i,
        {
            let (target, _) = node.child_at(i);
            proof {
                let child = children[i as int];
                assert(old(self)@.tree.has(child.target, child.class));
                assert(old(self)@.tree.owner(child.target) is None);
                assert(owners[target as int] is None);
            }
            if self.parents[target].is_some() {
                // The child occurs at an earlier position too: the owners
                // set so far are taken back.
                proof {
                    assert(holds_child(children, 0, i as int, target as int));
                    let j = choose|j: int| 0 <= j < i && (#[trigger] children[j]).target == target;
                    assert(children[j].target == children[i as int].target);
                    assert(!distinct_children(children, count as int));
                }
                let mut back: usize = 0;
                while back < i
                    invariant
                        self.nodes@ == old(self).nodes@,
                        self.functions@ == old(self).functions@,
                        self.types@ == old(self).types@,
                        self.writes == old(self).writes,
                        old(self).wf(),
                        old(self)@.tree.attachable(node),
                        owners == old(self).parents@,
                        children == node.children(),
                        at == self.nodes@.len(),
                        i < count,
                        count == children.len(),
                        back <= i,
                        self.parents@.len() == owners.len(),
                        distinct_children(children, i as int),
                        forall|k: int|
                            0 <= k < owners.len() ==> #[trigger] self.parents@[k] == if holds_child(
                                children,
                                back as int,
                                i as int,
                                k,
                            ) {
                                Some(at)
                            } else {
                                owners[k]
                            },
                    decreases i - back,
                {
                    let (marked, _) = node.child_at(back);
                    proof {
                        let child = children[back as int];
                        assert(old(self)@.tree.has(child.target, child.class));
                        assert(old(self)@.tree.owner(child.target) is None);
                    }
                    self.parents[marked] = None;
                    proof {
                        assert forall|k: int| 0 <= k < owners.len() implies #[trigger] self.parents@[k]
                            == if holds_child(children, back as int + 1, i as int, k) {
                            Some(at)
                        } else {
                            owners[k]
                        } by {
                            if k == marked {
                                if holds_child(children, back as int + 1, i as int, k) {
                                    let j = choose|j: int|
                                        back as int + 1 <= j < i && (#[trigger] children[j]).target
                                            == k;
                                    assert(children[back as int].target != children[j].target);
                                }
                            } else {
                                if holds_child(children, back as int, i as int, k) {
                                    let j = choose|j: int|
                                        back as int <= j < i && (#[trigger] children[j]).target
                                            == k;
                                    assert(holds_child(children, back as int + 1, i as int, k));
                                }
                            }
                        }
                    }
                    back = back + 1;
                }
                proof {
                    assert(self.parents@ =~= owners);
                    assert(self@.tree.parents =~= old(self)@.tree.parents);
                }
                return None;
            }
            self.parents[target] = Some(at);
            proof {
                assert forall|a: int, b: int| 0 <= a < b < i + 1 implies (#[trigger] children[a]).target
                    != (#[trigger] children[b]).target by {
                    if b == i {
                        if children[a].target == target {
                            assert(holds_child(children, 0, i as int, target as int));
                        }
                    }
                }
                assert forall|k: int| 0 <= k < owners.len() implies #[trigger] self.parents@[k]
                    == if holds_child(children, 0, i as int + 1, k) {
                    Some(at)
                } else {
                    owners[k]
                } by {
                    if k == target {
                        assert(children[i as int].target == k);
                    } else {
                        if holds_child(children, 0, i as int + 1, k) {
                            let j = choose|j: int|
                                0 <= j < i + 1 && (#[trigger] children[j]).target == k;
                            assert(holds_child(children, 0, i as int, k));
                        }
                    }
                }
            }
            i = i + 1;
        }
        self.nodes.push(node);
        self.parents.push(None);
        self.types.push(None);
        proof {
            old(self)@.tree.lemma_extended_well_formed(node);
            let grown = old(self)@.with_node(node);
            assert(self@.tree.nodes =~= grown.tree.nodes);
            assert(self@.types =~= grown.types);
            assert(grown.types.drop_last() =~= old(self)@.types);
            assert(self@.tree.parents =~= grown.tree.parents);
        }
        Some(at)
    }

    /// Adds an expression, and gives the handle that names it; `None` if the
    /// tree does not admit it.
    pub fn push_expression(&mut self, kind: ExpressionKind) -> (expr: Option<ExprId>)
        requires
            old(self).wf(),
        ensures
            final(self).wf(),
            match expr {
                Some(expr) => {
                    &&& old(self)@.tree.admits(Node::Expression(kind))
                    &&& expr.0 == old(self)@.tree.nodes.len()
                    &&& final(self)@ == old(self)@.with_node(Node::Expression(kind))
                },
                None => !old(self)@.tree.admits(Node::Expression(kind)) && final(self)@ == old(
                    self,
                )@,
            },
    {
        match self.push_node(Node::Expression(kind)) {
            Some(handle) => Some(ExprId(handle)),
            None => None,
        }
    }

    /// Adds a statement, and gives the handle that names it; `None` if the
    /// tree does not admit it.
    pub fn push_statement(&mut self, kind: StatementKind) -> (stmt: Option<StmtId>)
        requires
            old(self).wf(),
        ensures
            final(self).wf(),
            match stmt {
                Some(stmt) => {
                    &&& old(self)@.tree.admits(Node::Statement(kind))
                    &&& stmt.0 == old(self)@.tree.nodes.len()
                    &&& final(self)@ == old(self)@.with_node(Node::Statement(kind))
                },
                None => !old(self)@.tree.admits(Node::Statement(kind)) && final(self)@ == old(
                    self,
                )@,
            },
    {
        match self.push_node(Node::Statement(kind)) {
            Some(handle) => Some(StmtId(handle)),
            None => None,
        }
    }

    /// Adds an identifier that resolves to `definition`, and gives the
    /// handle that names it; `None` if `definition` names no identifier of
    /// the store.
    pub fn push_identifier(&mut self, definition: Option<IdentId>) -> (ident: Option<IdentId>)
        requires
            old(self).wf(),
        ensures
            final(self).wf(),
            match ident {
                Some(ident) => {
                    &&& old(self)@.tree.admits(Node::Identifier { definition })
                    &&& ident.0 == old(self)@.tree.nodes.len()
                    &&& final(self)@ == old(self)@.with_node(Node::Identifier { definition })
                },
                None => !old(self)@.tree.admits(Node::Identifier { definition }) && final(self)@
                    == old(self)@,
            },
    {
        match self.push_node(Node::Identifier { definition }) {
            Some(handle) => Some(IdentId(handle)),
            None => None,
        }
    }
}

} // verus!
