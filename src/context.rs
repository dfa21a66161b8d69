//! Fiber identities, timed scopes and the execution context that stacks them.
use vstd::prelude::*;

verus! {

/// The stable identity of a fiber, taken from its platform handle.
#[derive(Clone, Copy, Debug, PartialEq, Eq, Hash, Structural)]
pub struct FiberId {
    pub handle: u64,
}

/// One active timed region: its name and when it was opened.
pub struct Scope {
    pub name: String,
    pub start: i64,
}

/// The mathematical value of a [`Scope`].
pub struct ScopeView {
    pub name: Seq<char>,
    pub start: i64,
}

impl View for Scope {
    type V = ScopeView;

    open spec fn view(&self) -> ScopeView {
        ScopeView { name: self.name@, start: self.start }
    }
}

impl Clone for Scope {
    fn clone(&self) -> (r: Self)
        ensures
            r@ == self@,
    {
        Scope { name: self.name.clone(), start: self.start }
    }
}

/// The names of a stack of scopes, oldest first.
pub open spec fn scope_names(scopes: Seq<ScopeView>) -> Seq<Seq<char>> {
    scopes.map_values(|s: ScopeView| s.name)
}

/// The stack of scopes that are open in one logical flow of control, oldest
/// first.
pub struct ExecutionContext {
    scopes: Vec<Scope>,
}

impl View for ExecutionContext {
    type V = Seq<ScopeView>;

    closed spec fn view(&self) -> Seq<ScopeView> {
        self.scopes@.map_values(|s: Scope| s@)
    }
}

impl ExecutionContext {
    /// A context with no open scope.
    pub fn new() -> (r: ExecutionContext)
        ensures
            r@ == Seq::<ScopeView>::empty(),
    {
        let r = ExecutionContext { scopes: Vec::new() };
        assert(r@ =~= Seq::<ScopeView>::empty());
        r
    }

    /// How many scopes are open.
    pub fn len(&self) -> (r: usize)
        ensures
            r == self@.len(),
    {
        self.scopes.len()
    }

    /// The scope at depth `i`, counted from the oldest.
    pub fn scope(&self, i: usize) -> (r: &Scope)
        requires
            i < self@.len(),
        ensures
            r@ == self@[i as int],
    {
        &self.scopes[i]
    }

    /// Opens `scope` inside all the others.
    pub fn push(&mut self, scope: Scope)
        ensures
            final(self)@ == old(self)@.push(scope@),
    {
        self.scopes.push(scope);
        assert(self@ =~= old(self)@.push(scope@));
    }

    /// Closes the innermost scope and hands it back.
    pub fn pop(&mut self) -> (r: Scope)
        requires
            old(self)@.len() > 0,
        ensures
            r@ == old(self)@.last(),
            final(self)@ == old(self)@.drop_last(),
    {
        let r = self.scopes.pop().unwrap();
        assert(self@ =~= old(self)@.drop_last());
        r
    }

    /// The names of the open scopes, oldest first.
    pub fn names(&self) -> (r: Vec<String>)
        ensures
            r@.map_values(|s: String| s@) == scope_names(self@),
    {
        let mut r: Vec<String> = Vec::new();
        let mut i: usize = 0;
        while i < self.scopes.len()
            invariant
                i <= self.scopes@.len(),
                r@.map_values(|s: String| s@) =~= scope_names(self@).take(i as int),
            decreases self.scopes@.len() - i,
        {
            r.push(self.scopes[i].name.clone());
            assert(scope_names(self@).take(i + 1) =~= scope_names(self@).take(i as int).push(
                self.scopes@[i as int].name@,
            ));
            i = i + 1;
        }
        assert(scope_names(self@).take(i as int) =~= scope_names(self@));
        r
    }
}

} // verus!
