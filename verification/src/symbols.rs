//! Symbols and the stack of scopes in which names are looked up.

use vstd::prelude::*;
use crate::text::{copy_bytes, same_bytes};
use crate::types::{clone_type, type_view, Type, TypeView};

verus! {

/// What a name stands for.
#[derive(Clone, Copy, Debug, PartialEq, Eq, Structural)]
pub enum SymbolKind {
    Variable,
    Constant,
    Static,
    Function,
    Struct,
    Enum,
    Parameter,
}

/// What is known of a declared name. `depth` is the number of scopes that
/// enclose the scope of the declaration: 0 for a top-level name.
#[derive(Debug, PartialEq, Eq)]
pub struct Symbol {
    pub name: Vec<u8>,
    pub ty: Type,
    pub mutable: bool,
    pub initialized: bool,
    pub depth: usize,
    pub kind: SymbolKind,
}

/// The mathematical value of a [`Symbol`].
pub struct SymbolView {
    pub name: Seq<u8>,
    pub ty: TypeView,
    pub mutable: bool,
    pub initialized: bool,
    pub depth: nat,
    pub kind: SymbolKind,
}

impl View for Symbol {
    type V = SymbolView;

    open spec fn view(&self) -> SymbolView {
        SymbolView {
            name: self.name@,
            ty: type_view(self.ty),
            mutable: self.mutable,
            initialized: self.initialized,
            depth: self.depth as nat,
            kind: self.kind,
        }
    }
}

/// A scope: its symbols, no two of the same name.
pub type ScopeView = Seq<SymbolView>;

/// The scopes that are open, the innermost last.
pub type Env = Seq<Seq<SymbolView>>;

/// The value of a scope: the values of its symbols, in order.
pub open spec fn scope_view(scope: Seq<Symbol>) -> ScopeView {
    Seq::new(scope.len(), |i: int| scope[i]@)
}

/// The value of a stack of scopes: the values of its scopes, the innermost
/// last.
pub open spec fn env_view(scopes: Seq<Vec<Symbol>>) -> Env {
    Seq::new(scopes.len(), |i: int| scope_view(scopes[i]@))
}

/// The place of the first symbol named `name` among those of `scope` from
/// place `from` on.
pub open spec fn first_index(scope: ScopeView, name: Seq<u8>, from: nat) -> Option<nat>
    decreases scope.len() - from,
{
    if from >= scope.len() {
        None
    } else if scope[from as int].name == name {
        Some(from)
    } else {
        first_index(scope, name, from + 1)
    }
}

/// The place of the symbol named `name` in `scope`.
pub open spec fn index_of(scope: ScopeView, name: Seq<u8>) -> Option<nat> {
    first_index(scope, name, 0)
}

/// Where `name` is found in the first `upto` scopes of `env`, looking from
/// the innermost of them outward: the scope and the place in it.
pub open spec fn resolve_within(env: Env, name: Seq<u8>, upto: nat) -> Option<(nat, nat)>
    decreases upto,
{
    if upto == 0 || upto > env.len() {
        None
    } else {
        match index_of(env[upto - 1], name) {
            Some(i) => Some(((upto - 1) as nat, i)),
            None => resolve_within(env, name, (upto - 1) as nat),
        }
    }
}

/// Where `name` is found, looking from the innermost scope outward.
pub open spec fn resolve(env: Env, name: Seq<u8>) -> Option<(nat, nat)> {
    resolve_within(env, name, env.len())
}

/// The symbol that `name` stands for, if it is declared in an open scope.
pub open spec fn lookup(env: Env, name: Seq<u8>) -> Option<SymbolView> {
    match resolve(env, name) {
        Some(at) => Some(env[at.0 as int][at.1 as int]),
        None => None,
    }
}

/// `env` with one more scope, empty, inside the others.
pub open spec fn enter(env: Env) -> Env {
    env.push(Seq::empty())
}

/// `env` without its innermost scope: all names declared there are gone.
pub open spec fn leave(env: Env) -> Env {
    env.drop_last()
}

/// `env` with `symbol` declared in its innermost scope, at the depth of that
/// scope. A symbol of the same name in that scope is replaced.
pub open spec fn declare(env: Env, symbol: SymbolView) -> Env {
    let depth = (env.len() - 1) as nat;
    let placed = SymbolView { depth, ..symbol };
    let top = env.last();
    match index_of(top, symbol.name) {
        Some(i) => env.update(depth as int, top.update(i as int, placed)),
        None => env.update(depth as int, top.push(placed)),
    }
}

/// `env` with the symbol at place `at` marked as initialized, its type set to
/// `ty`.
pub open spec fn initialize(env: Env, at: (nat, nat), ty: TypeView) -> Env {
    let scope = env[at.0 as int];
    let symbol = SymbolView { initialized: true, ty, ..scope[at.1 as int] };
    env.update(at.0 as int, scope.update(at.1 as int, symbol))
}

/// Whether every scope holds each name once, and every symbol the depth of
/// its scope.
pub open spec fn well_formed(env: Env) -> bool {
    forall|s: int, i: int|
        0 <= s < env.len() && 0 <= i < env[s].len() ==> {
            &&& (#[trigger] env[s][i]).depth == s
            &&& index_of(env[s], env[s][i].name) == Some(i as nat)
        }
}

/// What [`first_index`] finds is the first symbol of that name from `from` on.
pub proof fn lemma_first_index(scope: ScopeView, name: Seq<u8>, from: nat)
    ensures
        match first_index(scope, name, from) {
            Some(i) => from <= i < scope.len() && scope[i as int].name == name && forall|j: int|
                from <= j < i ==> scope[j].name != name,
            None => forall|j: int| from <= j < scope.len() ==> scope[j].name != name,
        },
    decreases scope.len() - from,
{
    if from < scope.len() && scope[from as int].name != name {
        lemma_first_index(scope, name, from + 1);
    }
}

/// What [`resolve_within`] finds lies in an open scope and has the name.
pub proof fn lemma_resolve_within(env: Env, name: Seq<u8>, upto: nat)
    ensures
        resolve_within(env, name, upto) matches Some(at) ==> at.0 < upto && at.0 < env.len()
            && at.1 < env[at.0 as int].len() && env[at.0 as int][at.1 as int].name == name,
    decreases upto,
{
    if upto > 0 && upto <= env.len() {
        lemma_first_index(env[upto - 1], name, 0);
        lemma_resolve_within(env, name, (upto - 1) as nat);
    }
}

/// Whether a scope holds each of its names once.
pub open spec fn distinct_names(scope: ScopeView) -> bool {
    forall|i: int, j: int|
        0 <= i < j < scope.len() ==> (#[trigger] scope[i]).name != (#[trigger] scope[j]).name
}

/// A scope whose symbols are each the first of their name holds each name
/// once, and the other way round.
proof fn lemma_distinct_names(scope: ScopeView)
    ensures
        distinct_names(scope) <==> (forall|i: int|
            0 <= i < scope.len() ==> index_of(scope, (#[trigger] scope[i]).name) == Some(i as nat)),
{
    if distinct_names(scope) {
        assert forall|i: int| 0 <= i < scope.len() implies index_of(
            scope,
            (#[trigger] scope[i]).name,
        ) == Some(i as nat) by {
            lemma_first_index(scope, scope[i].name, 0);
        }
    }
    if forall|i: int|
        0 <= i < scope.len() ==> index_of(scope, (#[trigger] scope[i]).name) == Some(i as nat) {
        assert forall|i: int, j: int| 0 <= i < j < scope.len() implies (#[trigger] scope[i]).name
            != (#[trigger] scope[j]).name by {
            lemma_first_index(scope, scope[j].name, 0);
            assert(index_of(scope, scope[j].name) == Some(j as nat));
        }
    }
}

/// Declaring a name keeps the scopes well formed: the name replaces the
/// symbol of the same name, or is new in its scope.
pub proof fn lemma_declare_keeps_well_formed(env: Env, symbol: SymbolView)
    requires
        env.len() > 0,
        well_formed(env),
    ensures
        well_formed(declare(env, symbol)),
{
    let after = declare(env, symbol);
    let top = env.len() - 1;
    lemma_first_index(env.last(), symbol.name, 0);
    lemma_distinct_names(env.last());
    assert(distinct_names(env.last())) by {
        assert forall|i: int| 0 <= i < env.last().len() implies index_of(
            env.last(),
            (#[trigger] env.last()[i]).name,
        ) == Some(i as nat) by {
            assert(env[top][i].depth == top);
        }
    }
    assert(distinct_names(after[top])) by {
        assert forall|i: int, j: int| 0 <= i < j < after[top].len() implies (
        #[trigger] after[top][i]).name != (#[trigger] after[top][j]).name by {
            match index_of(env.last(), symbol.name) {
                Some(k) => {
                    assert(after[top][i].name == env.last()[i].name);
                    assert(after[top][j].name == env.last()[j].name);
                },
                None => {
                    if j < env.last().len() {
                        assert(after[top][i].name == env.last()[i].name);
                        assert(after[top][j].name == env.last()[j].name);
                    } else {
                        assert(after[top][i].name == env.last()[i].name);
                    }
                },
            }
        }
    }
    lemma_distinct_names(after[top]);
    assert forall|s: int, i: int| 0 <= s < after.len() && 0 <= i < after[s].len() implies {
        &&& (#[trigger] after[s][i]).depth == s
        &&& index_of(after[s], after[s][i].name) == Some(i as nat)
    } by {
        if s != top {
            assert(after[s] == env[s]);
            assert(env[s][i].depth == s);
        } else {
            match index_of(env.last(), symbol.name) {
                Some(k) => {
                    if i != k {
                        assert(after[top][i] == env[top][i]);
                        assert(env[top][i].depth == top);
                    }
                },
                None => {
                    if i < env.last().len() {
                        assert(after[top][i] == env[top][i]);
                        assert(env[top][i].depth == top);
                    }
                },
            }
        }
    }
}

/// Initializing a symbol keeps the scopes well formed.
pub proof fn lemma_initialize_keeps_well_formed(env: Env, at: (nat, nat), ty: TypeView)
    requires
        at.0 < env.len(),
        at.1 < env[at.0 as int].len(),
        well_formed(env),
    ensures
        well_formed(initialize(env, at, ty)),
{
    let after = initialize(env, at, ty);
    let s0 = at.0 as int;
    lemma_distinct_names(env[s0]);
    assert(distinct_names(env[s0])) by {
        assert forall|i: int| 0 <= i < env[s0].len() implies index_of(
            env[s0],
            (#[trigger] env[s0][i]).name,
        ) == Some(i as nat) by {
            assert(env[s0][i].depth == s0);
        }
    }
    assert(distinct_names(after[s0])) by {
        assert forall|i: int, j: int| 0 <= i < j < after[s0].len() implies (
        #[trigger] after[s0][i]).name != (#[trigger] after[s0][j]).name by {
            assert(after[s0][i].name == env[s0][i].name);
            assert(after[s0][j].name == env[s0][j].name);
        }
    }
    lemma_distinct_names(after[s0]);
    assert forall|s: int, i: int| 0 <= s < after.len() && 0 <= i < after[s].len() implies {
        &&& (#[trigger] after[s][i]).depth == s
        &&& index_of(after[s], after[s][i].name) == Some(i as nat)
    } by {
        if s != s0 {
            assert(after[s] == env[s]);
            assert(env[s][i].depth == s);
        } else {
            assert(env[s0][i].depth == s0);
        }
    }
}

/// The stack of scopes of one analysis.
pub struct ScopeStack {
    pub scopes: Vec<Vec<Symbol>>,
}

impl View for ScopeStack {
    type V = Env;

    open spec fn view(&self) -> Env {
        env_view(self.scopes@)
    }
}

impl ScopeStack {
    /// A stack with one scope, the outermost, and nothing declared.
    pub fn new() -> (stack: ScopeStack)
        ensures
            stack@ == seq![Seq::<SymbolView>::empty()],
            well_formed(stack@),
    {
        let mut scopes: Vec<Vec<Symbol>> = Vec::new();
        scopes.push(Vec::new());
        let stack = ScopeStack { scopes };
        assert(stack@ =~~= seq![Seq::<SymbolView>::empty()]);
        stack
    }

    /// The number of open scopes.
    pub fn depth(&self) -> (n: usize)
        ensures
            n == self@.len(),
    {
        self.scopes.len()
    }

    /// Opens a scope inside the others.
    pub fn enter(&mut self)
        ensures
            final(self)@ == enter(old(self)@),
            well_formed(old(self)@) ==> well_formed(final(self)@),
    {
        self.scopes.push(Vec::new());
        assert(self@ =~~= enter(old(self)@));
    }

    /// Closes the innermost scope: what was declared there can no longer be
    /// found.
    pub fn leave(&mut self)
        requires
            old(self)@.len() > 0,
        ensures
            final(self)@ == leave(old(self)@),
            well_formed(old(self)@) ==> well_formed(final(self)@),
    {
        self.scopes.pop();
        assert(self@ =~~= leave(old(self)@));
    }

    /// Looks `name` up, from the innermost scope outward.
    pub fn resolve(&self, name: &[u8]) -> (at: Option<(usize, usize)>)
        ensures
            match at {
                Some(at) => resolve(self@, name@) == Some((at.0 as nat, at.1 as nat)) && at.0
                    < self.scopes.len() && at.1 < self.scopes[at.0 as int].len(),
                None => resolve(self@, name@).is_none(),
            },
    {
        let mut s: usize = self.scopes.len();
        while s > 0
            invariant
                s <= self.scopes.len(),
                resolve(self@, name@) == resolve_within(self@, name@, s as nat),
            decreases s,
        {
            s -= 1;
            let scope = &self.scopes[s];
            let mut i: usize = 0;
            while i < scope.len()
                invariant
                    i <= scope.len(),
                    s < self.scopes.len(),
                    scope == self.scopes[s as int],
                    resolve(self@, name@) == resolve_within(self@, name@, (s + 1) as nat),
                    index_of(self@[s as int], name@) == first_index(self@[s as int], name@, i as nat),
                decreases scope.len() - i,
            {
                if same_bytes(scope[i].name.as_slice(), name) {
                    assert(self@[s as int][i as int].name == name@);
                    assert(resolve_within(self@, name@, (s + 1) as nat) == Some(
                        (s as nat, i as nat),
                    ));
                    return Some((s, i));
                }
                assert(self@[s as int][i as int].name != name@);
                i += 1;
            }
        }
        None
    }

    /// The symbol at a place that [`ScopeStack::resolve`] gave.
    pub fn symbol(&self, at: (usize, usize)) -> (symbol: &Symbol)
        requires
            at.0 < self.scopes.len(),
            at.1 < self.scopes[at.0 as int].len(),
        ensures
            symbol@ == self@[at.0 as int][at.1 as int],
    {
        &self.scopes[at.0][at.1]
    }

    /// Declares `symbol` in the innermost scope.
    pub fn declare(&mut self, symbol: Symbol)
        requires
            old(self)@.len() > 0,
        ensures
            final(self)@ == declare(old(self)@, symbol@),
            final(self)@.len() == old(self)@.len(),
            well_formed(old(self)@) ==> well_formed(final(self)@),
    {
        proof {
            if well_formed(old(self)@) {
                lemma_declare_keeps_well_formed(old(self)@, symbol@);
            }
        }
        let top = self.scopes.len() - 1;
        let placed = Symbol { depth: top, ..symbol };
        let mut i: usize = 0;
        while i < self.scopes[top].len()
            invariant
                i <= self.scopes[top as int].len(),
                top == self.scopes.len() - 1,
                *self == *old(self),
                placed@ == (SymbolView { depth: top as nat, ..symbol@ }),
                well_formed(old(self)@) ==> well_formed(declare(old(self)@, symbol@)),
                index_of(self@[top as int], placed@.name) == first_index(
                    self@[top as int],
                    placed@.name,
                    i as nat,
                ),
            decreases self.scopes[top as int].len() - i,
        {
            if same_bytes(self.scopes[top][i].name.as_slice(), placed.name.as_slice()) {
                assert(self@[top as int][i as int].name == placed@.name);
                assert(index_of(old(self)@.last(), placed@.name) == Some(i as nat));
                let ghost pv = placed@;
                self.scopes[top][i] = placed;
                assert(self@[top as int] =~= old(self)@.last().update(i as int, pv));
                assert(self@ =~= old(self)@.update(top as int, self@[top as int]));
                return ;
            }
            assert(self@[top as int][i as int].name != placed@.name);
            i += 1;
        }
        assert(index_of(old(self)@.last(), placed@.name).is_none());
        let ghost pv = placed@;
        self.scopes[top].push(placed);
        assert(self@[top as int] =~= old(self)@.last().push(pv));
        assert(self@ =~= old(self)@.update(top as int, self@[top as int]));
    }

    /// Marks the symbol at place `at` as initialized and sets its type.
    pub fn initialize(&mut self, at: (usize, usize), ty: Type)
        requires
            at.0 < old(self).scopes.len(),
            at.1 < old(self).scopes[at.0 as int].len(),
        ensures
            final(self)@ == initialize(old(self)@, (at.0 as nat, at.1 as nat), type_view(ty)),
            final(self)@.len() == old(self)@.len(),
            well_formed(old(self)@) ==> well_formed(final(self)@),
    {
        proof {
            if well_formed(old(self)@) {
                lemma_initialize_keeps_well_formed(
                    old(self)@,
                    (at.0 as nat, at.1 as nat),
                    type_view(ty),
                );
            }
        }
        self.scopes[at.0][at.1].initialized = true;
        self.scopes[at.0][at.1].ty = ty;
        assert(self@ =~~= initialize(old(self)@, (at.0 as nat, at.1 as nat), type_view(ty)));
    }
}

/// A copy of a symbol.
pub fn clone_symbol(symbol: &Symbol) -> (copy: Symbol)
    ensures
        copy@ == symbol@,
{
    Symbol {
        name: copy_bytes(&symbol.name),
        ty: clone_type(&symbol.ty),
        mutable: symbol.mutable,
        initialized: symbol.initialized,
        depth: symbol.depth,
        kind: symbol.kind,
    }
}

/// A copy of a scope.
pub fn clone_scope(scope: &Vec<Symbol>) -> (copy: Vec<Symbol>)
    ensures
        scope_view(copy@) == scope_view(scope@),
{
    let mut copy: Vec<Symbol> = Vec::new();
    let mut i: usize = 0;
    while i < scope.len()
        invariant
            i <= scope.len(),
            copy.len() == i,
            forall|j: int| 0 <= j < i ==> (#[trigger] copy@[j])@ == scope@[j]@,
        decreases scope.len() - i,
    {
        copy.push(clone_symbol(&scope[i]));
        i += 1;
    }
    assert(scope_view(copy@) =~= scope_view(scope@));
    copy
}

impl ScopeStack {
    /// A copy of the stack: what is done to the copy leaves the stack as it
    /// is.
    pub fn snapshot(&self) -> (copy: ScopeStack)
        ensures
            copy@ == self@,
    {
        let mut scopes: Vec<Vec<Symbol>> = Vec::new();
        let mut i: usize = 0;
        while i < self.scopes.len()
            invariant
                i <= self.scopes.len(),
                scopes.len() == i,
                forall|j: int|
                    0 <= j < i ==> scope_view((#[trigger] scopes@[j])@) == scope_view(
                        self.scopes@[j]@,
                    ),
            decreases self.scopes.len() - i,
        {
            scopes.push(clone_scope(&self.scopes[i]));
            i += 1;
        }
        let copy = ScopeStack { scopes };
        assert(copy@ =~= self@);
        copy
    }
}

} // verus!
