//! What can be called: built-in functions, functions of the program, and
//! classes, with the instances that classes make.
use crate::bytecode::number::Number;
use crate::front::environment::Environment;
use crate::front::expr::Literal;
use crate::front::stmt::FunctionDecl;
use crate::front::semantics::{field, find_method, own_method, ClassView, InstanceView};
use crate::front::value::{Value, ValueView};
use crate::text::{bytes_eq, str_bytes, to_bytes};
use vstd::prelude::*;
use vstd::string::StringSliceAdditionalSpecFns;

verus! {

/// The built-in function that tells the time.
#[derive(Debug)]
pub struct Clock {
    pub name: Vec<u8>,
    pub arity: usize,
}

impl Clock {
    pub fn new() -> (clock: Clock)
        ensures
            clock.name@ == "clock".spec_bytes(),
            clock.arity == 0,
    {
        Clock { name: str_bytes("clock"), arity: 0 }
    }

    /// The value of a call, given the time that was read: that time, as a
    /// number.
    pub fn call(&self, now: Number) -> (value: Value)
        ensures
            value@ == ValueView::Literal(crate::front::expr::LiteralView::Number(now)),
    {
        Value::Literal(Literal::Number(now))
    }
}

/// A function of the program: its declaration, the scope it was made in,
/// and whether it is the initializer of a class.
pub struct Function<'ast> {
    pub declaration: &'ast FunctionDecl,
    pub closure: Environment,
    pub is_initializer: bool,
}

impl<'ast> Function<'ast> {
    pub fn new(declaration: &'ast FunctionDecl, closure: Environment, is_initializer: bool) -> (function:
        Function<'ast>)
        ensures
            function.declaration == declaration,
            function.closure == closure,
            function.is_initializer == is_initializer,
    {
        Function { declaration, closure, is_initializer }
    }

    /// The number of arguments that the function takes.
    pub fn arity(&self) -> (arity: usize)
        ensures
            arity == self.declaration.params@.len(),
    {
        self.declaration.params.len()
    }

    /// The name of the function.
    pub fn name(&self) -> (name: &Vec<u8>)
        ensures
            name == self.declaration.name.lexeme,
    {
        &self.declaration.name.lexeme
    }
}

/// A class: its name, its methods by name, each given by its place among
/// the functions, and the class it inherits from.
pub struct Class {
    pub name: Vec<u8>,
    pub method_names: Vec<Vec<u8>>,
    pub methods: Vec<usize>,
    pub superclass: Option<usize>,
}

impl View for Class {
    type V = ClassView;

    open spec fn view(&self) -> ClassView {
        ClassView {
            name: self.name@,
            method_names: self.method_names@.map_values(|name: Vec<u8>| name@),
            methods: self.methods@,
            superclass: self.superclass,
        }
    }
}

/// What each class is.
pub open spec fn classes_view(classes: Seq<Class>) -> Seq<ClassView> {
    classes.map_values(|class: Class| class@)
}

impl Class {
    pub fn new(
        name: Vec<u8>,
        superclass: Option<usize>,
        method_names: Vec<Vec<u8>>,
        methods: Vec<usize>,
    ) -> (class: Class)
        ensures
            class.name == name,
            class.superclass == superclass,
            class.method_names == method_names,
            class.methods == methods,
    {
        Class { name, method_names, methods, superclass }
    }

    /// The method that the class itself declares under the name.
    pub fn own(&self, name: &[u8]) -> (method: Option<usize>)
        ensures
            method == own_method(self@.method_names, self@.methods, name@),
    {
        if self.method_names.len() != self.methods.len() {
            return None;
        }
        let mut i: usize = self.method_names.len();
        assert(self@.method_names.subrange(0, i as int) =~= self@.method_names);
        assert(self@.methods.subrange(0, i as int) =~= self@.methods);
        while i > 0
            invariant
                i <= self.method_names@.len(),
                self.method_names@.len() == self.methods@.len(),
                own_method(self@.method_names, self@.methods, name@) == own_method(
                    self@.method_names.subrange(0, i as int),
                    self@.methods.subrange(0, i as int),
                    name@,
                ),
            decreases i,
        {
            let ghost names = self@.method_names.subrange(0, i as int);
            let ghost methods = self@.methods.subrange(0, i as int);
            assert(names.drop_last() =~= self@.method_names.subrange(0, i - 1));
            assert(methods.drop_last() =~= self@.methods.subrange(0, i - 1));
            assert(names.last() == self.method_names@[i - 1]@);
            i -= 1;
            if bytes_eq(self.method_names[i].as_slice(), name) {
                return Some(self.methods[i]);
            }
        }
        None
    }

    /// The method that a name stands for in the class at `class`: its
    /// own, or else that of the classes it inherits from, the nearest
    /// first.
    pub fn find_method(classes: &Vec<Class>, class: usize, name: &[u8]) -> (method: Option<usize>)
        ensures
            method == find_method(classes_view(classes@), class as int, name@, classes@.len()),
    {
        let mut at: usize = class;
        let mut left: usize = classes.len();
        while left > 0
            invariant
                find_method(classes_view(classes@), at as int, name@, left as nat) == find_method(
                    classes_view(classes@),
                    class as int,
                    name@,
                    classes@.len(),
                ),
            decreases left,
        {
            if at >= classes.len() {
                return None;
            }
            assert(classes_view(classes@)[at as int] == classes@[at as int]@);
            match classes[at].own(name) {
                Some(method) => {
                    return Some(method);
                },
                None => {
                    match classes[at].superclass {
                        Some(parent) => {
                            at = parent;
                        },
                        None => {
                            return None;
                        },
                    }
                },
            }
            left -= 1;
        }
        None
    }
}

/// An instance of a class: the class, and the fields by name.
pub struct Instance {
    pub class: usize,
    pub field_names: Vec<Vec<u8>>,
    pub fields: Vec<Value>,
}

impl View for Instance {
    type V = InstanceView;

    open spec fn view(&self) -> InstanceView {
        InstanceView {
            class: self.class,
            field_names: self.field_names@.map_values(|name: Vec<u8>| name@),
            fields: self.fields@.map_values(|value: Value| value@),
        }
    }
}

/// What each instance is.
pub open spec fn instances_view(instances: Seq<Instance>) -> Seq<InstanceView> {
    instances.map_values(|instance: Instance| instance@)
}

impl Instance {
    /// An instance without fields.
    pub fn new(class: usize) -> (instance: Instance)
        ensures
            instance@ == (InstanceView { class, field_names: Seq::empty(), fields: Seq::empty() }),
    {
        let instance = Instance { class, field_names: Vec::new(), fields: Vec::new() };
        assert(instance@.field_names =~= Seq::<Seq<u8>>::empty());
        assert(instance@.fields =~= Seq::<ValueView>::empty());
        instance
    }

    /// The value of a field, if the instance has it.
    pub fn get(&self, name: &[u8]) -> (value: Option<Value>)
        ensures
            match field(self@.field_names, self@.fields, name@) {
                Some(held) => value matches Some(v) && v@ == held,
                None => value.is_none(),
            },
    {
        if self.field_names.len() != self.fields.len() {
            return None;
        }
        let mut i: usize = self.field_names.len();
        assert(self@.field_names.subrange(0, i as int) =~= self@.field_names);
        assert(self@.fields.subrange(0, i as int) =~= self@.fields);
        while i > 0
            invariant
                i <= self.field_names@.len(),
                self.field_names@.len() == self.fields@.len(),
                field(self@.field_names, self@.fields, name@) == field(
                    self@.field_names.subrange(0, i as int),
                    self@.fields.subrange(0, i as int),
                    name@,
                ),
            decreases i,
        {
            let ghost names = self@.field_names.subrange(0, i as int);
            let ghost fields = self@.fields.subrange(0, i as int);
            assert(names.drop_last() =~= self@.field_names.subrange(0, i - 1));
            assert(fields.drop_last() =~= self@.fields.subrange(0, i - 1));
            assert(names.last() == self.field_names@[i - 1]@);
            assert(fields.last() == self.fields@[i - 1]@);
            i -= 1;
            if bytes_eq(self.field_names[i].as_slice(), name) {
                return Some(self.fields[i].clone());
            }
        }
        None
    }

    /// Gives a field a value. A value given earlier under the name is
    /// hidden.
    pub fn set(&mut self, name: &[u8], value: Value)
        ensures
            final(self)@ == (InstanceView {
                class: old(self)@.class,
                field_names: old(self)@.field_names.push(name@),
                fields: old(self)@.fields.push(value@),
            }),
            old(self)@.field_names.len() == old(self)@.fields.len() ==> field(
                final(self)@.field_names,
                final(self)@.fields,
                name@,
            ) == Some(value@),
    {
        self.field_names.push(to_bytes(name));
        self.fields.push(value);
        assert(self@.field_names =~= old(self)@.field_names.push(name@));
        assert(self@.fields =~= old(self)@.fields.push(value@));
    }
}

} // verus!
