use crate::bytecode::value::{Value, ValueView};
use crate::compiler::source::Source;
use crate::compiler::token::Token;
use crate::text::bytes_eq;
use vstd::prelude::*;

verus! {

/// The global variables of a running program, by name.
pub struct GlobalMap {
    entries: Vec<(Vec<u8>, Value)>,
}

impl GlobalMap {
    /// Where the given name is bound, among the first `count` entries.
    pub closed spec fn bound_at(&self, name: Seq<u8>, i: int) -> bool {
        0 <= i < self.entries@.len() && self.entries@[i].0@ == name
    }

    /// No name is bound twice.
    pub closed spec fn wf(&self) -> bool {
        forall|i: int, j: int|
            0 <= i < j < self.entries@.len() ==> self.entries@[i].0@ != self.entries@[j].0@
    }

    /// No variable.
    pub fn new() -> (globals: GlobalMap)
        ensures
            globals.wf(),
            globals@ == Map::<Seq<u8>, ValueView>::empty(),
    {
        let globals = GlobalMap { entries: Vec::new() };
        assert(globals@ =~= Map::<Seq<u8>, ValueView>::empty());
        globals
    }

    /// Where the name is bound, if it is.
    fn find(&self, name: &[u8]) -> (index: Option<usize>)
        ensures
            index.is_some() <==> self@.dom().contains(name@),
            index.is_some() ==> self.bound_at(name@, index.unwrap() as int),
            index.is_none() ==> forall|i: int| !self.bound_at(name@, i),
    {
        let mut i: usize = 0;
        while i < self.entries.len()
            invariant
                i <= self.entries@.len(),
                forall|k: int| 0 <= k < i ==> !self.bound_at(name@, k),
            decreases self.entries@.len() - i,
        {
            if bytes_eq(self.entries[i].0.as_slice(), name) {
                assert(self.bound_at(name@, i as int));
                return Some(i);
            }
            i += 1;
        }
        None
    }

    /// Binds the name to the value, whether or not it was bound before.
    pub fn define(&mut self, name: Vec<u8>, value: Value)
        requires
            old(self).wf(),
        ensures
            final(self).wf(),
            final(self)@ == old(self)@.insert(name@, value@),
    {
        match self.find(name.as_slice()) {
            Some(index) => {
                let ghost key = name@;
                let ghost val = value@;
                self.entries[index] = (name, value);
                proof {
                    assert forall|i: int, j: int| 0 <= i < j < self.entries@.len() implies self.entries@[i].0@
                        != self.entries@[j].0@ by {
                        assert(old(self).entries@[i].0@ != old(self).entries@[j].0@);
                        assert(self.entries@[i].0@ == old(self).entries@[i].0@);
                        assert(self.entries@[j].0@ == old(self).entries@[j].0@);
                    }
                    assert forall|k: Seq<u8>| self@.dom().contains(k) == old(self)@.insert(
                        key,
                        val,
                    ).dom().contains(k) by {
                        if self@.dom().contains(k) {
                            let i = choose|i: int| self.bound_at(k, i);
                            assert(old(self).bound_at(k, i) || k == key);
                        }
                        if old(self)@.dom().contains(k) {
                            let i = choose|i: int| old(self).bound_at(k, i);
                            assert(self.bound_at(k, i));
                        }
                        if k == key {
                            assert(self.bound_at(k, index as int));
                        }
                    }
                    assert forall|k: Seq<u8>| self@.dom().contains(k) implies self@[k] == old(
                        self,
                    )@.insert(key, val)[k] by {
                        let i = choose|i: int| self.bound_at(k, i);
                        if k != key {
                            let j = choose|j: int| old(self).bound_at(k, j);
                            assert(old(self).bound_at(k, i));
                            assert(i == j);
                        } else {
                            assert(i == index);
                        }
                    }
                    assert(self@ =~= old(self)@.insert(key, val));
                }
            },
            None => {
                let ghost key = name@;
                let ghost val = value@;
                self.entries.push((name, value));
                proof {
                    let last = old(self).entries@.len() as int;
                    assert(self.bound_at(key, last));
                    assert forall|i: int, j: int| 0 <= i < j < self.entries@.len() implies self.entries@[i].0@
                        != self.entries@[j].0@ by {
                        if j == last {
                            assert(!old(self).bound_at(key, i));
                        } else {
                            assert(old(self).entries@[i].0@ != old(self).entries@[j].0@);
                        }
                    }
                    assert forall|k: Seq<u8>| self@.dom().contains(k) == old(self)@.insert(
                        key,
                        val,
                    ).dom().contains(k) by {
                        if self@.dom().contains(k) {
                            let i = choose|i: int| self.bound_at(k, i);
                            if i < last {
                                assert(old(self).bound_at(k, i));
                            }
                        }
                        if old(self)@.dom().contains(k) {
                            let i = choose|i: int| old(self).bound_at(k, i);
                            assert(self.bound_at(k, i));
                        }
                    }
                    assert forall|k: Seq<u8>| self@.dom().contains(k) implies self@[k] == old(
                        self,
                    )@.insert(key, val)[k] by {
                        let i = choose|i: int| self.bound_at(k, i);
                        if k != key {
                            let j = choose|j: int| old(self).bound_at(k, j);
                            assert(old(self).bound_at(k, i));
                            assert(i == j);
                        } else {
                            if i < last {
                                assert(old(self).bound_at(key, i));
                            }
                            assert(i == last);
                        }
                    }
                    assert(self@ =~= old(self)@.insert(key, val));
                }
            },
        }
    }

    /// The value bound to the name, if it is bound.
    pub fn get(&self, name: &[u8]) -> (value: Option<&Value>)
        requires
            self.wf(),
        ensures
            value.is_some() <==> self@.dom().contains(name@),
            value.is_some() ==> value.unwrap()@ == self@[name@],
    {
        match self.find(name) {
            Some(index) => {
                proof {
                    let i = choose|i: int| self.bound_at(name@, i);
                    assert(i == index);
                }
                Some(&self.entries[index].1)
            },
            None => None,
        }
    }

    /// Gives a bound name a new value and returns `true`; leaves the map as
    /// it is and returns `false` where the name is not bound.
    pub fn set(&mut self, name: &[u8], value: Value) -> (assigned: bool)
        requires
            old(self).wf(),
        ensures
            final(self).wf(),
            assigned == old(self)@.dom().contains(name@),
            assigned ==> final(self)@ == old(self)@.insert(name@, value@),
            !assigned ==> final(self)@ == old(self)@,
    {
        if self.find(name).is_some() {
            self.define(crate::text::to_bytes(name), value);
            true
        } else {
            false
        }
    }

    /// The number of variables.
    pub fn len(&self) -> (len: usize)
        requires
            self.wf(),
        ensures
            len == self.count(),
    {
        self.entries.len()
    }

    /// The number of entries.
    pub closed spec fn count(&self) -> nat {
        self.entries@.len()
    }
}

impl View for GlobalMap {
    type V = Map<Seq<u8>, ValueView>;

    closed spec fn view(&self) -> Map<Seq<u8>, ValueView> {
        Map::new(
            |name: Seq<u8>| exists|i: int| self.bound_at(name, i),
            |name: Seq<u8>| self.entries@[choose|i: int| self.bound_at(name, i)].1@,
        )
    }
}

/// The depth recorded for a local variable that is declared and not yet
/// initialized.
pub const UNINITIALIZED: usize = usize::MAX;

/// The most local variables that can be live at once.
pub const MAX_LOCALS: usize = 255;

/// A local variable: the token that names it and the depth of the scope that
/// declared it.
#[derive(Copy, Clone, Debug)]
pub struct Local {
    pub name: Token,
    pub depth: usize,
}

impl Local {
    pub fn new(name: Token, depth: usize) -> (local: Local)
        ensures
            local == (Local { name, depth }),
    {
        Local { name, depth }
    }
}

/// Why a local variable could not be declared.
#[derive(Copy, Clone, Debug, PartialEq, Eq, Structural)]
pub enum LocalError {
    /// 255 locals are live already.
    TooMany,
    /// The scope has declared the name already.
    Duplicate,
}

/// The local variables that are live at a point of compilation, innermost
/// last, and the depth of the current scope. The index of a local is the
/// slot of the machine's stack that holds its value.
pub struct LocalMap {
    locals: Vec<Local>,
    scope_depth: usize,
}

/// The bytes that a token names in a text; none where the token does not lie
/// within the text.
pub open spec fn name_of(text: Seq<u8>, token: &Token) -> Option<Seq<u8>> {
    if token.position.start <= token.position.end <= text.len() {
        Some(text.subrange(token.position.start as int, token.position.end as int))
    } else {
        None
    }
}

/// The locals without the longest run at their end whose depth exceeds
/// `depth`.
pub open spec fn trimmed(locals: Seq<Local>, depth: usize) -> Seq<Local>
    decreases locals.len(),
{
    if locals.len() > 0 && locals.last().depth > depth {
        trimmed(locals.drop_last(), depth)
    } else {
        locals
    }
}

/// Whether a scope of the given depth has declared `name` among `locals`.
pub open spec fn declared_in_scope(
    locals: Seq<Local>,
    depth: usize,
    text: Seq<u8>,
    name: &Token,
) -> bool {
    exists|i: int| 0 <= i < locals.len() && clashes(#[trigger] locals[i], depth, text, name)
}

/// Whether a local was declared by a scope of the given depth under the name
/// that `name` spells.
pub open spec fn clashes(local: Local, depth: usize, text: Seq<u8>, name: &Token) -> bool {
    local.depth == depth && name_of(text, &local.name).is_some() && name_of(text, &local.name)
        == name_of(text, name)
}

/// Whether the local at `index` is named `name`.
pub open spec fn named(locals: Seq<Local>, index: int, text: Seq<u8>, name: Seq<u8>) -> bool {
    0 <= index < locals.len() && name_of(text, &locals[index].name) == Some(name)
}

/// The innermost local called `name`: the last one in the list.
pub open spec fn innermost(locals: Seq<Local>, text: Seq<u8>, name: Seq<u8>) -> Option<int>
    decreases locals.len(),
{
    if locals.len() == 0 {
        None
    } else if named(locals, locals.len() - 1, text, name) {
        Some(locals.len() - 1)
    } else {
        innermost(locals.drop_last(), text, name)
    }
}

impl LocalMap {
    /// The live locals, innermost last.
    pub closed spec fn entries(&self) -> Seq<Local> {
        self.locals@
    }

    /// The depth of the current scope; 0 outside every block.
    pub closed spec fn depth(&self) -> usize {
        self.scope_depth
    }

    /// At most 255 locals are live.
    pub open spec fn wf(&self) -> bool {
        self.entries().len() <= MAX_LOCALS
    }

    /// No local, outside every block.
    pub fn new() -> (map: LocalMap)
        ensures
            map.wf(),
            map.entries() == Seq::<Local>::empty(),
            map.depth() == 0,
    {
        LocalMap { locals: Vec::new(), scope_depth: 0 }
    }

    /// The number of live locals.
    pub fn len(&self) -> (len: usize)
        ensures
            len == self.entries().len(),
    {
        self.locals.len()
    }

    /// The depth of the current scope.
    pub fn scope_depth(&self) -> (depth: usize)
        ensures
            depth == self.depth(),
    {
        self.scope_depth
    }

    /// Enters a block. The depth has to be below the largest number.
    pub fn begin_scope(&mut self)
        requires
            old(self).depth() < usize::MAX,
        ensures
            final(self).depth() == old(self).depth() + 1,
            final(self).entries() == old(self).entries(),
    {
        self.scope_depth += 1;
    }

    /// Leaves a block: drops the locals at the end of the list whose depth
    /// exceeds the depth of the enclosing scope, and returns how many they
    /// were. There has to be a block to leave.
    pub fn end_scope(&mut self) -> (num_pops: u8)
        requires
            old(self).wf(),
            old(self).depth() > 0,
        ensures
            final(self).wf(),
            final(self).depth() == old(self).depth() - 1,
            final(self).entries() == trimmed(old(self).entries(), final(self).depth()),
            num_pops == old(self).entries().len() - final(self).entries().len(),
    {
        self.scope_depth -= 1;
        let mut num_pops: u8 = 0;
        while self.locals.len() > 0 && self.locals[self.locals.len() - 1].depth > self.scope_depth
            invariant
                self.scope_depth == old(self).scope_depth - 1,
                self.locals@.len() <= old(self).locals@.len() <= MAX_LOCALS,
                num_pops == old(self).locals@.len() - self.locals@.len(),
                trimmed(self.locals@, self.scope_depth) == trimmed(
                    old(self).locals@,
                    self.scope_depth,
                ),
            decreases self.locals@.len(),
        {
            let ghost before = self.locals@;
            self.locals.pop();
            assert(self.locals@ == before.drop_last());
            num_pops += 1;
        }
        num_pops
    }

    /// Whether compilation is inside a block.
    pub fn in_scope(&self) -> (inside: bool)
        ensures
            inside == (self.depth() > 0),
    {
        self.scope_depth > 0
    }

    /// Declares a local named by `name`, not yet initialized. Fails, leaving
    /// the list as it was, where 255 locals are live or where the current
    /// scope has declared the name already.
    pub fn add(&mut self, name: Token, source: &Source) -> (added: Result<(), LocalError>)
        ensures
            final(self).depth() == old(self).depth(),
            added == if old(self).entries().len() >= MAX_LOCALS {
                Err::<(), LocalError>(LocalError::TooMany)
            } else if declared_in_scope(
                old(self).entries(),
                old(self).depth(),
                source.bytes(),
                &name,
            ) {
                Err::<(), LocalError>(LocalError::Duplicate)
            } else {
                Ok::<(), LocalError>(())
            },
            added.is_ok() ==> final(self).entries() == old(self).entries().push(
                Local { name, depth: UNINITIALIZED },
            ),
            added.is_err() ==> final(self).entries() == old(self).entries(),
            old(self).wf() ==> final(self).wf(),
    {
        if self.locals.len() >= MAX_LOCALS {
            return Err(LocalError::TooMany);
        }
        let wanted: Option<&[u8]> = source.try_lexeme(&name);
        if let Some(wanted_name) = wanted {
            let mut i: usize = 0;
            while i < self.locals.len()
                invariant
                    i <= self.locals@.len() < MAX_LOCALS,
                    self.locals@ == old(self).locals@,
                    self.scope_depth == old(self).scope_depth,
                    source.covers(&name),
                    wanted_name@ == source.lexeme(&name),
                    forall|k: int|
                        0 <= k < i ==> !clashes(
                            #[trigger] self.locals@[k],
                            self.scope_depth,
                            source.bytes(),
                            &name,
                        ),
                decreases self.locals@.len() - i,
            {
                let local: &Local = &self.locals[i];
                if local.depth == self.scope_depth {
                    if let Some(other) = source.try_lexeme(&local.name) {
                        if bytes_eq(other, wanted_name) {
                            assert(clashes(
                                old(self).entries()[i as int],
                                old(self).depth(),
                                source.bytes(),
                                &name,
                            ));
                            return Err(LocalError::Duplicate);
                        }
                    }
                }
                i += 1;
            }
        }
        self.locals.push(Local::new(name, UNINITIALIZED));
        Ok(())
    }

    /// Marks the local declared last as initialized in the current scope.
    pub fn mark_initialized(&mut self)
        ensures
            final(self).depth() == old(self).depth(),
            old(self).entries().len() == 0 ==> final(self).entries() == old(self).entries(),
            old(self).entries().len() > 0 ==> final(self).entries() == old(
                self,
            ).entries().drop_last().push(
                Local { name: old(self).entries().last().name, depth: old(self).depth() },
            ),
            old(self).wf() ==> final(self).wf(),
    {
        let len: usize = self.locals.len();
        if len > 0 {
            let name: Token = self.locals[len - 1].name;
            self.locals[len - 1] = Local::new(name, self.scope_depth);
            assert(self.locals@ =~= old(self).locals@.drop_last().push(
                Local { name, depth: self.scope_depth },
            ));
        }
    }

    /// The slot of the innermost local called `name`, if there is one.
    pub fn resolve(&self, name: &[u8], source: &Source) -> (slot: Option<u8>)
        requires
            self.wf(),
        ensures
            slot.is_some() <==> innermost(self.entries(), source.bytes(), name@).is_some(),
            slot.is_some() ==> slot.unwrap() == innermost(
                self.entries(),
                source.bytes(),
                name@,
            ).unwrap(),
    {
        let mut i: usize = self.locals.len();
        assert(self.locals@.subrange(0, i as int) =~= self.locals@);
        while i > 0
            invariant
                i <= self.locals@.len() <= MAX_LOCALS,
                innermost(self.locals@, source.bytes(), name@) == innermost(
                    self.locals@.subrange(0, i as int),
                    source.bytes(),
                    name@,
                ),
            decreases i,
        {
            let ghost prefix = self.locals@.subrange(0, i as int);
            assert(prefix.drop_last() =~= self.locals@.subrange(0, i - 1));
            assert(prefix[i - 1] == self.locals@[i - 1]);
            i -= 1;
            if let Some(other) = source.try_lexeme(&self.locals[i].name) {
                if bytes_eq(other, name) {
                    return Some(i as u8);
                }
            }
        }
        assert(self.locals@.subrange(0, 0).len() == 0);
        None
    }

    /// Whether the local in the given slot is initialized. A slot that holds
    /// no local counts as initialized.
    pub fn is_initialized(&self, slot: u8) -> (initialized: bool)
        ensures
            initialized == !(slot < self.entries().len() && self.entries()[slot as int].depth
                == UNINITIALIZED),
    {
        let index: usize = slot as usize;
        if index < self.locals.len() {
            self.locals[index].depth != UNINITIALIZED
        } else {
            true
        }
    }
}

/// Leaving a scope leaves only locals of the enclosing scopes, and where the
/// locals stand in the order of their depths, it drops exactly those whose
/// depth exceeds the depth of the enclosing scope.
pub proof fn lemma_trimmed(locals: Seq<Local>, depth: usize)
    ensures
        trimmed(locals, depth).len() <= locals.len(),
        trimmed(locals, depth) == locals.subrange(0, trimmed(locals, depth).len() as int),
        trimmed(locals, depth).len() > 0 ==> trimmed(locals, depth).last().depth <= depth,
        forall|k: int|
            trimmed(locals, depth).len() <= k < locals.len() ==> (#[trigger] locals[k]).depth
                > depth,
        (forall|i: int, j: int| 0 <= i <= j < locals.len() ==> locals[i].depth <= locals[j].depth)
            ==> trimmed(locals, depth) == locals.filter(|l: Local| l.depth <= depth),
    decreases locals.len(),
{
    if locals.len() > 0 && locals.last().depth > depth {
        lemma_trimmed(locals.drop_last(), depth);
        let rest = trimmed(locals.drop_last(), depth);
        assert(rest =~= locals.subrange(0, rest.len() as int));
        assert forall|k: int| rest.len() <= k < locals.len() implies (#[trigger] locals[k]).depth
            > depth by {
            if k < locals.len() - 1 {
                assert(locals.drop_last()[k] == locals[k]);
            }
        }
        if forall|i: int, j: int| 0 <= i <= j < locals.len() ==> locals[i].depth <= locals[j].depth {
            assert forall|i: int, j: int| 0 <= i <= j < locals.drop_last().len() implies locals.drop_last()[i].depth
                <= locals.drop_last()[j].depth by {
                assert(locals.drop_last()[i] == locals[i]);
                assert(locals.drop_last()[j] == locals[j]);
            }
            let keep = |l: Local| l.depth <= depth;
            assert(locals =~= locals.drop_last().push(locals.last()));
            locals.drop_last().lemma_filter_push(locals.last(), keep);
        }
    } else {
        assert(trimmed(locals, depth) =~= locals.subrange(0, locals.len() as int));
        if forall|i: int, j: int| 0 <= i <= j < locals.len() ==> locals[i].depth <= locals[j].depth {
            let keep = |l: Local| l.depth <= depth;
            if locals.len() > 0 {
                assert forall|i: int| 0 <= i < locals.len() implies keep(#[trigger] locals[i]) by {
                    assert(locals[i].depth <= locals[locals.len() - 1].depth);
                }
            }
            lemma_filter_all(locals, keep);
        }
    }
}

/// The innermost local of a name is a local of that name, and no later
/// local has the name.
pub proof fn lemma_innermost(locals: Seq<Local>, text: Seq<u8>, name: Seq<u8>)
    ensures
        innermost(locals, text, name) matches Some(slot) ==> named(locals, slot, text, name),
        forall|later: int|
            named(locals, later, text, name) ==> innermost(locals, text, name).is_some()
                && later <= innermost(locals, text, name).unwrap(),
    decreases locals.len(),
{
    if locals.len() > 0 && !named(locals, locals.len() - 1, text, name) {
        lemma_innermost(locals.drop_last(), text, name);
        assert forall|later: int| named(locals, later, text, name) implies innermost(
            locals,
            text,
            name,
        ).is_some() && later <= innermost(locals, text, name).unwrap() by {
            assert(named(locals.drop_last(), later, text, name));
        }
    }
}

/// A filter that every element passes keeps the sequence.
pub proof fn lemma_filter_all(s: Seq<Local>, keep: spec_fn(Local) -> bool)
    requires
        forall|i: int| 0 <= i < s.len() ==> keep(#[trigger] s[i]),
    ensures
        s.filter(keep) == s,
    decreases s.len(),
{
    reveal(Seq::filter);
    if s.len() > 0 {
        assert forall|i: int| 0 <= i < s.drop_last().len() implies keep(
            #[trigger] s.drop_last()[i],
        ) by {
            assert(s.drop_last()[i] == s[i]);
        }
        lemma_filter_all(s.drop_last(), keep);
        assert(s =~= s.drop_last().push(s.last()));
    } else {
        assert(s.filter(keep) =~= s);
    }
}

} // verus!
