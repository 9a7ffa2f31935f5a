use crate::front::errors::{Failure, FatalError, UndefinedVariableError};
use crate::front::expr::LiteralView;
use crate::front::token::Token;
use crate::front::value::{Value, ValueView};
use crate::text::{bytes_eq, str_bytes};
use vstd::prelude::*;
use vstd::string::StringSliceAdditionalSpecFns;

verus! {

/// A variable of a scope: whether it has been given a value, and the
/// value.
#[derive(Debug)]
pub struct Variable {
    pub defined: bool,
    pub value: Value,
}

pub struct VariableView {
    pub defined: bool,
    pub value: ValueView,
}

impl View for Variable {
    type V = VariableView;

    open spec fn view(&self) -> VariableView {
        VariableView { defined: self.defined, value: self.value@ }
    }
}

impl Variable {
    /// A variable without a value.
    pub fn new() -> (variable: Variable)
        ensures
            variable@ == (VariableView {
                defined: false,
                value: ValueView::Literal(LiteralView::Nil),
            }),
    {
        Variable { defined: false, value: Value::nil() }
    }

    /// A variable with a value.
    pub fn initialize(value: Value) -> (variable: Variable)
        ensures
            variable@ == (VariableView { defined: true, value: value@ }),
    {
        Variable { defined: true, value }
    }

    /// Gives the variable a value.
    pub fn assign(&mut self, value: Value)
        ensures
            final(self)@ == (VariableView { defined: true, value: value@ }),
    {
        self.defined = true;
        self.value = value;
    }
}

/// A link to a scope: its place among the scopes, or nothing.
pub type Link = Option<usize>;

/// A scope: its variables by name, the later of two of a name first to be
/// found, and the scope around it.
pub struct ScopedEnvironment {
    pub names: Vec<Vec<u8>>,
    pub values: Vec<Variable>,
    pub parent: Link,
}

/// What a scope holds.
pub struct ScopeView {
    pub names: Seq<Seq<u8>>,
    pub values: Seq<VariableView>,
    pub parent: Link,
}

impl View for ScopedEnvironment {
    type V = ScopeView;

    open spec fn view(&self) -> ScopeView {
        ScopeView {
            names: self.names@.map_values(|name: Vec<u8>| name@),
            values: self.values@.map_values(|variable: Variable| variable@),
            parent: self.parent,
        }
    }
}

/// Where a scope holds a name: the last place that has it.
pub open spec fn slot_of(names: Seq<Seq<u8>>, name: Seq<u8>) -> Option<int>
    decreases names.len(),
{
    if names.len() == 0 {
        None
    } else if names.last() == name {
        Some(names.len() - 1)
    } else {
        slot_of(names.drop_last(), name)
    }
}

/// A slot of a name lies within the names and holds the name.
pub proof fn lemma_slot_of(names: Seq<Seq<u8>>, name: Seq<u8>)
    ensures
        slot_of(names, name) matches Some(slot) ==> 0 <= slot < names.len() && names[slot] == name,
        slot_of(names, name).is_none() ==> forall|i: int|
            0 <= i < names.len() ==> names[i] != name,
    decreases names.len(),
{
    if names.len() > 0 && names.last() != name {
        lemma_slot_of(names.drop_last(), name);
        assert forall|i: int| 0 <= i < names.len() && slot_of(names, name).is_none() implies names[i]
            != name by {
            if i < names.len() - 1 {
                assert(names.drop_last()[i] == names[i]);
            }
        }
    }
}

impl ScopedEnvironment {
    /// As many values as names.
    pub open spec fn wf(&self) -> bool {
        self.names@.len() == self.values@.len()
    }

    /// A scope without variables.
    pub fn new(parent: Link) -> (scope: ScopedEnvironment)
        ensures
            scope.wf(),
            scope@ == (ScopeView { names: Seq::empty(), values: Seq::empty(), parent }),
    {
        let scope = ScopedEnvironment { names: Vec::new(), values: Vec::new(), parent };
        assert(scope@.names =~= Seq::<Seq<u8>>::empty());
        assert(scope@.values =~= Seq::<VariableView>::empty());
        scope
    }

    /// Where the scope holds the name, if it does.
    pub fn find(&self, name: &[u8]) -> (slot: Option<usize>)
        requires
            self.wf(),
        ensures
            slot.is_some() <==> slot_of(self@.names, name@).is_some(),
            slot.is_some() ==> slot.unwrap() == slot_of(self@.names, name@).unwrap()
                && slot.unwrap() < self.values@.len(),
    {
        let mut i: usize = self.names.len();
        let ghost all = self@.names;
        assert(all.subrange(0, i as int) =~= all);
        while i > 0
            invariant
                i <= self.names@.len(),
                all == self@.names,
                self.wf(),
                slot_of(all, name@) == slot_of(all.subrange(0, i as int), name@),
            decreases i,
        {
            let ghost prefix = all.subrange(0, i as int);
            assert(prefix.drop_last() =~= all.subrange(0, i - 1));
            assert(prefix.last() == self.names@[i - 1]@);
            i -= 1;
            if bytes_eq(self.names[i].as_slice(), name) {
                return Some(i);
            }
        }
        None
    }

    /// Declares a variable, with a value or without one. A variable of the
    /// same name declared earlier is hidden.
    pub fn define(&mut self, name: Vec<u8>, value: Option<Value>)
        requires
            old(self).wf(),
        ensures
            final(self).wf(),
            final(self)@ == (ScopeView {
                names: old(self)@.names.push(name@),
                values: old(self)@.values.push(
                    match value {
                        Some(v) => VariableView { defined: true, value: v@ },
                        None => VariableView {
                            defined: false,
                            value: ValueView::Literal(LiteralView::Nil),
                        },
                    },
                ),
                parent: old(self)@.parent,
            }),
    {
        let variable: Variable = match value {
            Some(value) => Variable::initialize(value),
            None => Variable::new(),
        };
        self.names.push(name);
        self.values.push(variable);
        assert(self@.names =~= old(self)@.names.push(name@));
        assert(self@.values =~= old(self)@.values.push(variable@));
    }
}

/// The scopes of a running program. A scope stays where it is for as long
/// as the program runs, so that a function can go back to the scope it
/// was made in.
pub struct Scopes {
    pub frames: Vec<ScopedEnvironment>,
}

/// What each scope holds.
pub open spec fn frames_view(frames: Seq<ScopedEnvironment>) -> Seq<ScopeView> {
    frames.map_values(|frame: ScopedEnvironment| frame@)
}

impl View for Scopes {
    type V = Seq<ScopeView>;

    open spec fn view(&self) -> Seq<ScopeView> {
        frames_view(self.frames@)
    }
}

/// Every scope has as many values as names, and the scope around it was
/// made before it.
pub open spec fn scopes_wf(frames: Seq<ScopeView>) -> bool {
    forall|i: int|
        0 <= i < frames.len() ==> (#[trigger] frames[i]).names.len() == frames[i].values.len() && (
        frames[i].parent matches Some(parent) ==> parent < i)
}

/// The scope that lies `distance` scopes around the scope `head`.
pub open spec fn ancestor_of(frames: Seq<ScopeView>, head: Link, distance: nat) -> Link
    decreases distance,
{
    match head {
        None => None,
        Some(index) => if index >= frames.len() {
            None
        } else if distance == 0 {
            Some(index)
        } else {
            ancestor_of(frames, frames[index as int].parent, (distance - 1) as nat)
        },
    }
}

/// The innermost scope, from `head` outwards, that holds the name, and
/// where it holds it.
pub open spec fn lookup(frames: Seq<ScopeView>, head: Link, name: Seq<u8>) -> Option<(int, int)>
    decreases
        match head {
            Some(index) => index + 1,
            None => 0,
        },
{
    match head {
        None => None,
        Some(index) => if index >= frames.len() {
            None
        } else {
            match slot_of(frames[index as int].names, name) {
                Some(slot) => Some((index as int, slot)),
                None => match frames[index as int].parent {
                    Some(parent) => if parent < index {
                        lookup(frames, Some(parent), name)
                    } else {
                        None
                    },
                    None => None,
                },
            }
        },
    }
}

/// The scopes with the variable in place `slot` of scope `index` given the
/// value.
pub open spec fn assigned(frames: Seq<ScopeView>, index: int, slot: int, value: ValueView) -> Seq<
    ScopeView,
> {
    frames.update(
        index,
        ScopeView {
            values: frames[index].values.update(slot, VariableView { defined: true, value }),
            ..frames[index]
        },
    )
}

impl Scopes {
    pub open spec fn wf(&self) -> bool {
        scopes_wf(self@)
    }

    /// No scope.
    pub fn new() -> (scopes: Scopes)
        ensures
            scopes.wf(),
            scopes@ == Seq::<ScopeView>::empty(),
    {
        let scopes = Scopes { frames: Vec::new() };
        assert(scopes@ =~= Seq::<ScopeView>::empty());
        scopes
    }

    /// The number of scopes made.
    pub fn len(&self) -> (len: usize)
        ensures
            len == self@.len(),
    {
        self.frames.len()
    }

    /// Gives a value to the variable in place `slot` of scope `index`.
    fn store(&mut self, index: usize, slot: usize, value: Value)
        requires
            old(self).wf(),
            index < old(self)@.len(),
            slot < old(self)@[index as int].values.len(),
        ensures
            final(self).wf(),
            final(self)@ == assigned(old(self)@, index as int, slot as int, value@),
    {
        let ghost before = self@;
        let ghost given = value@;
        assert(before[index as int] == self.frames@[index as int]@);
        let mut variable: Variable = Variable::new();
        variable.assign(value);
        self.frames[index].values[slot] = variable;
        proof {
            let after = self@;
            assert(after[index as int] == self.frames@[index as int]@);
            assert(after[index as int].values =~= before[index as int].values.update(
                slot as int,
                VariableView { defined: true, value: given },
            ));
            assert(after[index as int].names =~= before[index as int].names);
            assert forall|i: int| 0 <= i < after.len() && i != index implies after[i]
                == before[i] by {
                assert(after[i] == self.frames@[i]@);
                assert(before[i] == old(self).frames@[i]@);
            }
            assert(after =~= assigned(before, index as int, slot as int, given));
            assert forall|i: int| 0 <= i < after.len() implies (#[trigger] after[i]).names.len()
                == after[i].values.len() && (after[i].parent matches Some(parent) ==> parent
                < i) by {
                assert(before[i].names.len() == before[i].values.len());
            }
        }
    }
}

/// A handle on a scope: the innermost of a chain of scopes.
#[derive(Copy, Clone, Debug, PartialEq, Eq, Structural)]
pub struct Environment {
    pub head: Link,
}

impl Environment {
    /// The handle lies within the scopes.
    pub open spec fn within(&self, scopes: &Scopes) -> bool {
        self.head matches Some(index) && index < scopes@.len()
    }

    /// A handle on a new global scope.
    pub fn new(scopes: &mut Scopes) -> (env: Environment)
        requires
            old(scopes).wf(),
        ensures
            final(scopes).wf(),
            env.head == Some(old(scopes)@.len() as usize),
            env.within(final(scopes)),
            final(scopes)@ == old(scopes)@.push(
                ScopeView { names: Seq::empty(), values: Seq::empty(), parent: None },
            ),
    {
        let mut env = Environment { head: None };
        env.push(scopes);
        env
    }

    /// A handle on nothing.
    pub fn empty_env() -> (env: Environment)
        ensures
            env.head.is_none(),
    {
        Environment { head: None }
    }

    /// Whether the handle is on a scope that has no scope around it.
    pub fn is_global(&self, scopes: &Scopes) -> (global: bool)
        ensures
            global == (self.within(scopes) && scopes@[self.head.unwrap() as int].parent.is_none()),
    {
        match self.head {
            Some(index) => {
                if index < scopes.frames.len() {
                    assert(scopes@[index as int] == scopes.frames@[index as int]@);
                    scopes.frames[index].parent.is_none()
                } else {
                    false
                }
            },
            None => false,
        }
    }

    /// Swaps the scopes of two handles.
    pub fn swap(&mut self, other: &mut Environment)
        ensures
            final(self).head == old(other).head,
            final(other).head == old(self).head,
    {
        let head: Link = self.head;
        self.head = other.head;
        other.head = head;
    }

    /// Enters a new scope around which the current one lies.
    pub fn push(&mut self, scopes: &mut Scopes)
        requires
            old(scopes).wf(),
            old(self).head.is_none() || old(self).within(old(scopes)),
        ensures
            final(scopes).wf(),
            final(self).head == Some(old(scopes)@.len() as usize),
            final(self).within(final(scopes)),
            final(scopes)@ == old(scopes)@.push(
                ScopeView { names: Seq::empty(), values: Seq::empty(), parent: old(self).head },
            ),
    {
        let index: usize = scopes.frames.len();
        let frame: ScopedEnvironment = ScopedEnvironment::new(self.head);
        let ghost before = scopes@;
        scopes.frames.push(frame);
        self.head = Some(index);
        proof {
            assert(scopes@ =~= before.push(frame@));
            assert forall|i: int| 0 <= i < scopes@.len() implies (#[trigger] scopes@[i]).names.len()
                == scopes@[i].values.len() && (scopes@[i].parent matches Some(parent) ==> parent
                < i) by {
                if i < before.len() {
                    assert(before[i].names.len() == before[i].values.len());
                }
            }
        }
    }

    /// Leaves the current scope for the one around it. The global scope
    /// cannot be left.
    pub fn pop(&mut self, scopes: &Scopes)
        requires
            old(self).within(scopes),
            scopes@[old(self).head.unwrap() as int].parent.is_some(),
        ensures
            final(self).head == scopes@[old(self).head.unwrap() as int].parent,
    {
        match self.head {
            Some(index) => {
                assert(scopes@[index as int] == scopes.frames@[index as int]@);
                self.head = scopes.frames[index].parent;
            },
            None => {},
        }
    }

    /// Declares a variable in the current scope.
    pub fn define(&self, scopes: &mut Scopes, name: Vec<u8>, value: Option<Value>)
        requires
            old(scopes).wf(),
        ensures
            final(scopes).wf(),
            final(scopes)@.len() == old(scopes)@.len(),
            !self.within(old(scopes)) ==> final(scopes)@ == old(scopes)@,
            self.within(old(scopes)) ==> final(scopes)@ == old(scopes)@.update(
                self.head.unwrap() as int,
                ScopeView {
                    names: old(scopes)@[self.head.unwrap() as int].names.push(name@),
                    values: old(scopes)@[self.head.unwrap() as int].values.push(
                        match value {
                            Some(v) => VariableView { defined: true, value: v@ },
                            None => VariableView {
                                defined: false,
                                value: ValueView::Literal(LiteralView::Nil),
                            },
                        },
                    ),
                    parent: old(scopes)@[self.head.unwrap() as int].parent,
                },
            ),
    {
        match self.head {
            Some(index) => {
                if index < scopes.frames.len() {
                    let ghost before = scopes@;
                    assert(before[index as int] == scopes.frames@[index as int]@);
                    scopes.frames[index].define(name, value);
                    proof {
                        let after = scopes@;
                        assert(after[index as int] == scopes.frames@[index as int]@);
                        assert forall|i: int| 0 <= i < after.len() && i != index implies after[i]
                            == before[i] by {
                            assert(after[i] == scopes.frames@[i]@);
                            assert(before[i] == old(scopes).frames@[i]@);
                        }
                        assert(after =~= before.update(index as int, after[index as int]));
                        assert forall|i: int| 0 <= i < after.len() implies (
                        #[trigger] after[i]).names.len() == after[i].values.len() && (
                        after[i].parent matches Some(parent) ==> parent < i) by {
                            assert(before[i].names.len() == before[i].values.len());
                        }
                    }
                }
            },
            None => {},
        }
    }

    /// Where, from the current scope outwards, the name is found.
    fn locate(&self, scopes: &Scopes, name: &[u8]) -> (place: Option<(usize, usize)>)
        requires
            scopes.wf(),
        ensures
            place.is_some() <==> lookup(scopes@, self.head, name@).is_some(),
            place matches Some((index, slot)) ==> lookup(scopes@, self.head, name@) == Some(
                (index as int, slot as int),
            ) && index < scopes@.len() && slot < scopes@[index as int].values.len(),
    {
        let mut link: Link = self.head;
        loop
            invariant
                scopes.wf(),
                lookup(scopes@, link, name@) == lookup(scopes@, self.head, name@),
            decreases
                    match link {
                        Some(index) => index + 1,
                        None => 0,
                    },
        {
            match link {
                None => {
                    return None;
                },
                Some(index) => {
                    if index >= scopes.frames.len() {
                        return None;
                    }
                    assert(scopes@[index as int] == scopes.frames@[index as int]@);
                    match scopes.frames[index].find(name) {
                        Some(slot) => {
                            return Some((index, slot));
                        },
                        None => {
                            link = scopes.frames[index].parent;
                        },
                    }
                },
            }
        }
    }

    /// Gives a value to the innermost variable of the token's name, from
    /// the current scope outwards. Where there is none, the scopes stay as
    /// they are and the error says so.
    pub fn assign(&self, scopes: &mut Scopes, token: &Token, value: Value) -> (error: Option<
        Failure,
    >)
        requires
            old(scopes).wf(),
        ensures
            final(scopes).wf(),
            match lookup(old(scopes)@, self.head, token.lexeme@) {
                Some((index, slot)) => error.is_none() && final(scopes)@ == assigned(
                    old(scopes)@,
                    index,
                    slot,
                    value@,
                ),
                None => final(scopes)@ == old(scopes)@ && (
                error matches Some(Failure::UndefinedVariable(e)) && e.token@ == token@),
            },
    {
        match self.locate(scopes, token.lexeme.as_slice()) {
            Some((index, slot)) => {
                scopes.store(index, slot, value);
                None
            },
            None => Some(Failure::UndefinedVariable(UndefinedVariableError::new(token.clone()))),
        }
    }

    /// The value of the innermost variable of the token's name, from the
    /// current scope outwards. A variable without a value, and a name that
    /// is not found, are errors.
    pub fn get(&self, scopes: &Scopes, token: &Token) -> (value: Result<Value, Failure>)
        requires
            scopes.wf(),
        ensures
            match lookup(scopes@, self.head, token.lexeme@) {
                Some((index, slot)) => if scopes@[index].values[slot].defined {
                    value matches Ok(v) && v@ == scopes@[index].values[slot].value
                } else {
                    value matches Err(Failure::UndefinedVariable(e)) && e.token@ == token@
                },
                None => value matches Err(Failure::UndefinedVariable(e)) && e.token@ == token@,
            },
    {
        match self.locate(scopes, token.lexeme.as_slice()) {
            Some((index, slot)) => {
                assert(scopes@[index as int] == scopes.frames@[index as int]@);
                let variable: &Variable = &scopes.frames[index].values[slot];
                if variable.defined {
                    Ok(variable.value.clone())
                } else {
                    Err(Failure::UndefinedVariable(UndefinedVariableError::new(token.clone())))
                }
            },
            None => Err(Failure::UndefinedVariable(UndefinedVariableError::new(token.clone()))),
        }
    }

    /// The scope that lies `distance` scopes around the current one.
    pub fn ancestor(&self, scopes: &Scopes, distance: usize) -> (link: Link)
        ensures
            link == ancestor_of(scopes@, self.head, distance as nat),
            link matches Some(index) ==> index < scopes@.len(),
    {
        let mut link: Link = self.head;
        let mut left: usize = distance;
        loop
            invariant
                ancestor_of(scopes@, link, left as nat) == ancestor_of(
                    scopes@,
                    self.head,
                    distance as nat,
                ),
            decreases left,
        {
            match link {
                None => {
                    return None;
                },
                Some(index) => {
                    if index >= scopes.frames.len() {
                        return None;
                    }
                    if left == 0 {
                        return Some(index);
                    }
                    assert(scopes@[index as int] == scopes.frames@[index as int]@);
                    link = scopes.frames[index].parent;
                    left -= 1;
                },
            }
        }
    }

    /// The value of the token's name in the scope that lies `depth` scopes
    /// around the current one, and in the scopes around that. A depth
    /// beyond the outermost scope is a fatal error.
    pub fn get_at(&self, scopes: &Scopes, token: &Token, depth: usize) -> (value: Result<
        Value,
        Failure,
    >)
        requires
            scopes.wf(),
        ensures
            match ancestor_of(scopes@, self.head, depth as nat) {
                None => value matches Err(Failure::Fatal(e)) && e.token@ == token@ && e.message@
                    == "Variable resolved to a scope beyond the outermost one".spec_bytes(),
                Some(start) => match lookup(scopes@, Some(start), token.lexeme@) {
                    Some((index, slot)) => if scopes@[index].values[slot].defined {
                        value matches Ok(v) && v@ == scopes@[index].values[slot].value
                    } else {
                        value matches Err(Failure::UndefinedVariable(e)) && e.token@ == token@
                    },
                    None => value matches Err(Failure::UndefinedVariable(e)) && e.token@
                        == token@,
                },
            },
    {
        match self.ancestor(scopes, depth) {
            None => Err(
                Failure::Fatal(
                    FatalError::new(
                        token.clone(),
                        str_bytes("Variable resolved to a scope beyond the outermost one"),
                    ),
                ),
            ),
            Some(start) => Environment { head: Some(start) }.get(scopes, token),
        }
    }

    /// Gives a value to the token's name in the scope that lies `depth`
    /// scopes around the current one, or in the scopes around that.
    pub fn assign_at(&self, scopes: &mut Scopes, token: &Token, value: Value, depth: usize) -> (error:
        Option<Failure>)
        requires
            old(scopes).wf(),
        ensures
            final(scopes).wf(),
            match ancestor_of(old(scopes)@, self.head, depth as nat) {
                None => final(scopes)@ == old(scopes)@ && (error matches Some(Failure::Fatal(e))
                    && e.token@ == token@ && e.message@
                    == "Variable resolved to a scope beyond the outermost one".spec_bytes()),
                Some(start) => match lookup(old(scopes)@, Some(start), token.lexeme@) {
                    Some((index, slot)) => error.is_none() && final(scopes)@ == assigned(
                        old(scopes)@,
                        index,
                        slot,
                        value@,
                    ),
                    None => final(scopes)@ == old(scopes)@ && (
                    error matches Some(Failure::UndefinedVariable(e)) && e.token@ == token@),
                },
            },
    {
        match self.ancestor(scopes, depth) {
            None => Some(
                Failure::Fatal(
                    FatalError::new(
                        token.clone(),
                        str_bytes("Variable resolved to a scope beyond the outermost one"),
                    ),
                ),
            ),
            Some(start) => Environment { head: Some(start) }.assign(scopes, token, value),
        }
    }
}

/// Two handles on one scope see each other's assignments: what one assigns
/// the other finds. A scope that neither handle's chain reaches is left as
/// it was by an assignment through either.
pub proof fn lemma_shared_scope(
    frames: Seq<ScopeView>,
    first: Environment,
    second: Environment,
    name: Seq<u8>,
    value: ValueView,
)
    requires
        scopes_wf(frames),
        first.head == second.head,
        lookup(frames, first.head, name).is_some(),
    ensures
        ({
            let (index, slot) = lookup(frames, first.head, name).unwrap();
            let after = assigned(frames, index, slot, value);
            &&& lookup(after, second.head, name) == Some((index, slot))
            &&& after[index].values[slot] == (VariableView { defined: true, value })
            &&& forall|other: int| 0 <= other < frames.len() && other != index ==> after[other]
                == frames[other]
        }),
{
    let (index, slot) = lookup(frames, first.head, name).unwrap();
    lemma_lookup_bounds(frames, first.head, name);
    let after = assigned(frames, index, slot, value);
    lemma_lookup_after(frames, second.head, name, index, slot, value);
}

/// A name is found in a scope of the chain, in a slot of that scope; the
/// scope is the head of the chain or was made before it.
pub proof fn lemma_lookup_bounds(frames: Seq<ScopeView>, head: Link, name: Seq<u8>)
    ensures
        lookup(frames, head, name) matches Some((index, slot)) ==> 0 <= index < frames.len() && 0
            <= slot < frames[index].names.len() && frames[index].names[slot] == name && (
        head matches Some(top) && index <= top),
    decreases
        match head {
            Some(index) => index + 1,
            None => 0,
        },
{
    match head {
        None => {},
        Some(index) => {
            if index < frames.len() {
                lemma_slot_of(frames[index as int].names, name);
                match slot_of(frames[index as int].names, name) {
                    Some(slot) => {},
                    None => {
                        match frames[index as int].parent {
                            Some(parent) => {
                                if parent < index {
                                    lemma_lookup_bounds(frames, Some(parent), name);
                                }
                            },
                            None => {},
                        }
                    },
                }
            }
        },
    }
}

/// An assignment changes no name and no link, so every lookup finds what
/// it found before.
pub proof fn lemma_lookup_after(
    frames: Seq<ScopeView>,
    head: Link,
    name: Seq<u8>,
    index: int,
    slot: int,
    value: ValueView,
)
    requires
        0 <= index < frames.len(),
        0 <= slot < frames[index].values.len(),
    ensures
        lookup(assigned(frames, index, slot, value), head, name) == lookup(frames, head, name),
    decreases
        match head {
            Some(index) => index + 1,
            None => 0,
        },
{
    let after = assigned(frames, index, slot, value);
    match head {
        None => {},
        Some(at) => {
            if at < frames.len() {
                assert(after[at as int].names == frames[at as int].names);
                assert(after[at as int].parent == frames[at as int].parent);
                match frames[at as int].parent {
                    Some(parent) => {
                        if parent < at {
                            lemma_lookup_after(frames, Some(parent), name, index, slot, value);
                        }
                    },
                    None => {},
                }
            }
        },
    }
}

} // verus!
