//! Type environment: tracks variable bindings, type definitions, function
//! signatures, and scope nesting during type checking.
//!
//! Every table is a list in which a later entry under a key shadows the
//! earlier ones, so registering a name again replaces what it stood for.

use vstd::prelude::*;
use vstd::string::*;
use crate::text::str_eq;
use crate::types::{
    Type, TypeV, TypeId, StructInfo, FieldInfo, EnumInfo, VariantInfo, FunctionInfo, ParamInfo,
    AbilityInfo, TaskInfo,
};

verus! {

broadcast use vstd::string::group_string_axioms;

/// The last element of `list` that satisfies `is_key`.
pub open spec fn last_match<T>(list: Seq<T>, is_key: spec_fn(T) -> bool) -> Option<T>
    decreases list.len(),
{
    if list.len() == 0 {
        None
    } else if is_key(list.last()) {
        Some(list.last())
    } else {
        last_match(list.drop_last(), is_key)
    }
}

proof fn lemma_last_match_step<T>(list: Seq<T>, i: int, is_key: spec_fn(T) -> bool)
    requires
        0 < i <= list.len(),
    ensures
        list.take(i).last() == list[i - 1],
        list.take(i).drop_last() =~= list.take(i - 1),
{
}

/// Information about a bound variable.
#[derive(Debug)]
pub struct VarBinding {
    pub ty: Type,
    pub mutable: bool,
    pub _initialized: bool,
}

/// A single scope level in the type environment.
#[derive(Debug)]
struct Scope {
    variables: Vec<(String, VarBinding)>,
    types: Vec<(String, TypeId)>,
}

/// The contents of one scope: its variable and type bindings, newest last.
#[verifier::ext_equal]
pub struct Frame {
    pub vars: Seq<(Seq<char>, VarBinding)>,
    pub types: Seq<(Seq<char>, TypeId)>,
}

pub open spec fn empty_frame() -> Frame {
    Frame { vars: Seq::empty(), types: Seq::empty() }
}

/// The binding of `name` in a list of variable bindings.
pub open spec fn var_in(vars: Seq<(Seq<char>, VarBinding)>, name: Seq<char>) -> Option<VarBinding> {
    match last_match(vars, |e: (Seq<char>, VarBinding)| e.0 == name) {
        Some(e) => Some(e.1),
        None => None,
    }
}

/// The type id bound to `name` in a list of type bindings.
pub open spec fn type_in(types: Seq<(Seq<char>, TypeId)>, name: Seq<char>) -> Option<TypeId> {
    match last_match(types, |e: (Seq<char>, TypeId)| e.0 == name) {
        Some(e) => Some(e.1),
        None => None,
    }
}

/// The binding of `name`, searched from the innermost scope outwards.
pub open spec fn lookup_var_in(frames: Seq<Frame>, name: Seq<char>) -> Option<VarBinding>
    decreases frames.len(),
{
    if frames.len() == 0 {
        None
    } else {
        match var_in(frames.last().vars, name) {
            Some(b) => Some(b),
            None => lookup_var_in(frames.drop_last(), name),
        }
    }
}

/// The type id of `name`, searched from the innermost scope outwards.
pub open spec fn lookup_type_in(frames: Seq<Frame>, name: Seq<char>) -> Option<TypeId>
    decreases frames.len(),
{
    if frames.len() == 0 {
        None
    } else {
        match type_in(frames.last().types, name) {
            Some(t) => Some(t),
            None => lookup_type_in(frames.drop_last(), name),
        }
    }
}

/// Scopes after binding `name` to `b` in the innermost one.
pub open spec fn bind_in(frames: Seq<Frame>, name: Seq<char>, b: VarBinding) -> Seq<Frame> {
    let f = frames.last();
    frames.update(frames.len() - 1, Frame { vars: f.vars.push((name, b)), types: f.types })
}

/// Scopes after binding type `name` to `id` in the innermost one.
pub open spec fn bind_type_in(frames: Seq<Frame>, name: Seq<char>, id: TypeId) -> Seq<Frame> {
    let f = frames.last();
    frames.update(frames.len() - 1, Frame { vars: f.vars, types: f.types.push((name, id)) })
}

/// Scopes after leaving the innermost one; the outermost is never left.
pub open spec fn pop_in(frames: Seq<Frame>) -> Seq<Frame> {
    if frames.len() > 1 {
        frames.drop_last()
    } else {
        frames
    }
}

/// Entries registered under an id, the newest one wins.
pub open spec fn struct_in(list: Seq<StructInfo>, id: TypeId) -> Option<StructInfo> {
    last_match(list, |s: StructInfo| s.id == id)
}

pub open spec fn enum_in(list: Seq<EnumInfo>, id: TypeId) -> Option<EnumInfo> {
    last_match(list, |e: EnumInfo| e.id == id)
}

pub open spec fn function_in(list: Seq<FunctionInfo>, name: Seq<char>) -> Option<FunctionInfo> {
    last_match(list, |f: FunctionInfo| f.name@ == name)
}

/// The type environment tracks all named entities across nested scopes.
pub struct TypeEnv {
    scopes: Vec<Scope>,
    structs: Vec<StructInfo>,
    enums: Vec<EnumInfo>,
    abilities: Vec<AbilityInfo>,
    functions: Vec<FunctionInfo>,
    tasks: Vec<TaskInfo>,
    next_type_id: TypeId,
    next_infer_id: u64,
}

spec fn scope_frame(s: Scope) -> Frame {
    Frame {
        vars: Seq::new(s.variables@.len(), |i: int| (s.variables@[i].0@, s.variables@[i].1)),
        types: Seq::new(s.types@.len(), |i: int| (s.types@[i].0@, s.types@[i].1)),
    }
}

/// The environment a checker starts from: one global scope holding the
/// `console` object, the built-in `Option` and `Result` enums and the
/// `Console` struct with its `write` method, and nothing else.
pub open spec fn starts_fresh(env: TypeEnv) -> bool {
    &&& env.wf()
    &&& env.frames().len() == 1
    &&& env.spec_lookup_type("Option"@) == Some(1u64)
    &&& env.spec_lookup_type("Result"@) == Some(2u64)
    &&& env.spec_lookup_type("Console"@) == Some(3u64)
    &&& env.spec_lookup_var("console"@) matches Some(b) && b.ty@ == (TypeV::Struct { id: 3, name: "Console"@, generics: Seq::empty(), }) && !b.mutable
    &&& struct_in(env.struct_list(), 3) matches Some(s) && s.name@ == "Console"@
    &&& env.struct_list().len() == 1
    &&& env.struct_list()[0].fields@.len() == 0
    &&& env.struct_list()[0].methods@.len() == 1
    &&& env.struct_list()[0].methods@[0].name@ == "write"@
    &&& env.struct_list()[0].methods@[0].params@.len() == 1
    &&& env.struct_list()[0].methods@[0].params@[0].name@ == "text"@
    &&& env.struct_list()[0].methods@[0].params@[0].ty@ == TypeV::Text
    &&& !env.struct_list()[0].methods@[0].params@[0].is_mut
    &&& env.struct_list()[0].methods@[0].return_type@ == TypeV::Unit
    &&& env.struct_list()[0].methods@[0].effects@.len() == 1
    &&& env.struct_list()[0].methods@[0].effects@[0]@ == "io"@
    &&& env.enum_list().len() == 2
    &&& env.enum_list()[0].id == 1 && env.enum_list()[0].name@ == "Option"@
    &&& env.enum_list()[0].variants@.len() == 2
    &&& env.enum_list()[0].variants@[0].name@ == "Some"@
    &&& env.enum_list()[0].variants@[1].name@ == "None"@
    &&& env.enum_list()[1].id == 2 && env.enum_list()[1].name@ == "Result"@
    &&& env.enum_list()[1].variants@.len() == 2
    &&& env.enum_list()[1].variants@[0].name@ == "Ok"@
    &&& env.enum_list()[1].variants@[1].name@ == "Err"@
    &&& env.ability_list().len() == 0
    &&& env.type_counter() == 4
    &&& env.infer_counter() == 1
    &&& env.function_list().len() == 0
    &&& env.task_list().len() == 0
}

impl TypeEnv {
    /// The scopes, outermost first.
    pub closed spec fn frames(&self) -> Seq<Frame> {
        Seq::new(self.scopes@.len(), |i: int| scope_frame(self.scopes@[i]))
    }

    pub closed spec fn struct_list(&self) -> Seq<StructInfo> {
        self.structs@
    }

    pub closed spec fn enum_list(&self) -> Seq<EnumInfo> {
        self.enums@
    }

    pub closed spec fn ability_list(&self) -> Seq<AbilityInfo> {
        self.abilities@
    }

    pub closed spec fn function_list(&self) -> Seq<FunctionInfo> {
        self.functions@
    }

    pub closed spec fn task_list(&self) -> Seq<TaskInfo> {
        self.tasks@
    }

    /// The next type id to be handed out.
    pub closed spec fn type_counter(&self) -> u64 {
        self.next_type_id
    }

    /// The next inference variable id to be handed out.
    pub closed spec fn infer_counter(&self) -> u64 {
        self.next_infer_id
    }

    /// There is always at least the global scope.
    pub open spec fn wf(&self) -> bool {
        self.frames().len() >= 1
    }

    /// `self` and `other` differ at most in their scopes.
    pub open spec fn same_tables(&self, other: &TypeEnv) -> bool {
        &&& self.struct_list() == other.struct_list()
        &&& self.enum_list() == other.enum_list()
        &&& self.ability_list() == other.ability_list()
        &&& self.function_list() == other.function_list()
        &&& self.task_list() == other.task_list()
    }

    /// `self` and `other` hand out the same ids next.
    pub open spec fn same_counters(&self, other: &TypeEnv) -> bool {
        &&& self.type_counter() == other.type_counter()
        &&& self.infer_counter() == other.infer_counter()
    }

    pub open spec fn spec_lookup_var(&self, name: Seq<char>) -> Option<VarBinding> {
        lookup_var_in(self.frames(), name)
    }

    pub open spec fn spec_lookup_type(&self, name: Seq<char>) -> Option<TypeId> {
        lookup_type_in(self.frames(), name)
    }

    /// A hand-out of a fresh type id.
    pub fn fresh_type_id(&mut self) -> (id: TypeId)
        ensures
            id == old(self).type_counter(),
            final(self).type_counter() == old(self).type_counter().wrapping_add(1),
            final(self).infer_counter() == old(self).infer_counter(),
            final(self).frames() == old(self).frames(),
            final(self).same_tables(old(self)),
    {
        let id = self.next_type_id;
        self.next_type_id = self.next_type_id.wrapping_add(1);
        id
    }

    /// A hand-out of a fresh inference variable id.
    pub fn fresh_infer_id(&mut self) -> (id: u64)
        ensures
            id == old(self).infer_counter(),
            final(self).infer_counter() == old(self).infer_counter().wrapping_add(1),
            final(self).type_counter() == old(self).type_counter(),
            final(self).frames() == old(self).frames(),
            final(self).same_tables(old(self)),
    {
        let id = self.next_infer_id;
        self.next_infer_id = self.next_infer_id.wrapping_add(1);
        id
    }

    /// Enter a new innermost scope.
    pub fn push_scope(&mut self)
        ensures
            final(self).frames() == old(self).frames().push(empty_frame()),
            final(self).same_tables(old(self)),
            final(self).same_counters(old(self)),
    {
        let sc = Scope { variables: Vec::new(), types: Vec::new() };
        self.scopes.push(sc);
        proof {
            assert(scope_frame(sc) =~= empty_frame());
            assert(self.frames() =~= old(self).frames().push(empty_frame()));
        }
    }

    /// Leave the innermost scope; the global scope is never left.
    pub fn pop_scope(&mut self)
        ensures
            final(self).frames() == pop_in(old(self).frames()),
            final(self).same_tables(old(self)),
            final(self).same_counters(old(self)),
    {
        if self.scopes.len() > 1 {
            self.scopes.pop();
            proof {
                assert(self.frames() =~= old(self).frames().drop_last());
            }
        }
    }

    /// Bind a variable in the current scope.
    pub fn bind_var(&mut self, name: &str, ty: Type, mutable: bool)
        requires
            old(self).wf(),
        ensures
            final(self).frames() == bind_in(
                old(self).frames(),
                name@,
                VarBinding { ty, mutable, _initialized: true },
            ),
            final(self).same_tables(old(self)),
            final(self).same_counters(old(self)),
    {
        let n = self.scopes.len();
        let ghost b = VarBinding { ty, mutable, _initialized: true };
        let mut scope = self.scopes.pop().unwrap();
        scope.variables.push((String::from_str(name), VarBinding { ty, mutable, _initialized: true }));
        self.scopes.push(scope);
        proof {
            let f = old(self).frames().last();
            assert(scope_frame(scope) =~= Frame { vars: f.vars.push((name@, b)), types: f.types });
            assert(self.frames() =~= bind_in(old(self).frames(), name@, b));
        }
    }

    /// Bind a type name to an id in the current scope.
    fn bind_type(&mut self, name: &str, id: TypeId)
        requires
            old(self).wf(),
        ensures
            final(self).frames() == bind_type_in(old(self).frames(), name@, id),
            final(self).same_tables(old(self)),
            final(self).same_counters(old(self)),
    {
        let mut scope = self.scopes.pop().unwrap();
        scope.types.push((String::from_str(name), id));
        self.scopes.push(scope);
        proof {
            let f = old(self).frames().last();
            assert(scope_frame(scope) =~= Frame { vars: f.vars, types: f.types.push((name@, id)) });
            assert(self.frames() =~= bind_type_in(old(self).frames(), name@, id));
        }
    }

    /// Look up a variable by name, searching from innermost to outermost scope.
    #[verifier::loop_isolation(false)]
    pub fn lookup_var(&self, name: &str) -> (b: Option<&VarBinding>)
        ensures
            match b {
                Some(b) => self.spec_lookup_var(name@) == Some(*b),
                None => self.spec_lookup_var(name@).is_none(),
            },
    {
        let ghost frames = self.frames();
        let mut k = self.scopes.len();
        assert(frames.take(k as int) =~= frames);
        while k > 0
            invariant
                k <= self.scopes@.len(),
                frames == self.frames(),
                lookup_var_in(frames, name@) == lookup_var_in(frames.take(k as int), name@),
            decreases k,
        {
            let scope = &self.scopes[k - 1];
            let ghost vars = frames[k - 1].vars;
            let ghost is_key = |e: (Seq<char>, VarBinding)| e.0 == name@;
            let mut i = scope.variables.len();
            assert(vars.take(i as int) =~= vars);
            while i > 0
                invariant
                    i <= scope.variables@.len(),
                    vars == scope_frame(*scope).vars,
                    last_match(vars, is_key) == last_match(vars.take(i as int), is_key),
                decreases i,
            {
                proof {
                    lemma_last_match_step(vars, i as int, is_key);
                }
                if str_eq(scope.variables[i - 1].0.as_str(), name) {
                    proof {
                        lemma_last_match_step(frames, k as int, |f: Frame| true);
                    }
                    return Some(&scope.variables[i - 1].1);
                }
                i = i - 1;
            }
            proof {
                assert(vars.take(0) =~= Seq::<(Seq<char>, VarBinding)>::empty());
                lemma_last_match_step(frames, k as int, |f: Frame| true);
            }
            k = k - 1;
        }
        proof {
            assert(frames.take(0) =~= Seq::<Frame>::empty());
        }
        None
    }

    /// Look up a type by name.
    #[verifier::loop_isolation(false)]
    pub fn lookup_type(&self, name: &str) -> (t: Option<TypeId>)
        ensures
            t == self.spec_lookup_type(name@),
    {
        let ghost frames = self.frames();
        let mut k = self.scopes.len();
        assert(frames.take(k as int) =~= frames);
        while k > 0
            invariant
                k <= self.scopes@.len(),
                frames == self.frames(),
                lookup_type_in(frames, name@) == lookup_type_in(frames.take(k as int), name@),
            decreases k,
        {
            let scope = &self.scopes[k - 1];
            let ghost types = frames[k - 1].types;
            let ghost is_key = |e: (Seq<char>, TypeId)| e.0 == name@;
            let mut i = scope.types.len();
            assert(types.take(i as int) =~= types);
            while i > 0
                invariant
                    i <= scope.types@.len(),
                    types == scope_frame(*scope).types,
                    last_match(types, is_key) == last_match(types.take(i as int), is_key),
                decreases i,
            {
                proof {
                    lemma_last_match_step(types, i as int, is_key);
                }
                if str_eq(scope.types[i - 1].0.as_str(), name) {
                    proof {
                        lemma_last_match_step(frames, k as int, |f: Frame| true);
                    }
                    return Some(scope.types[i - 1].1);
                }
                i = i - 1;
            }
            proof {
                assert(types.take(0) =~= Seq::<(Seq<char>, TypeId)>::empty());
                lemma_last_match_step(frames, k as int, |f: Frame| true);
            }
            k = k - 1;
        }
        proof {
            assert(frames.take(0) =~= Seq::<Frame>::empty());
        }
        None
    }

    /// Get struct info by id.
    #[verifier::loop_isolation(false)]
    pub fn get_struct(&self, key: TypeId) -> (r: Option<&StructInfo>)
        ensures
            match r {
                Some(x) => struct_in(self.struct_list(), key) == Some(*x),
                None => struct_in(self.struct_list(), key).is_none(),
            },
    {
        let ghost is_key = |x: StructInfo| x.id == key;
        let mut i = self.structs.len();
        assert(self.struct_list().take(i as int) =~= self.struct_list());
        while i > 0
            invariant
                i <= self.struct_list().len(),
                last_match(self.struct_list(), is_key) == last_match(self.struct_list().take(i as int), is_key),
            decreases i,
        {
            proof {
                lemma_last_match_step(self.struct_list(), i as int, is_key);
            }
            if self.structs[i - 1].id == key {
                return Some(&self.structs[i - 1]);
            }
            i = i - 1;
        }
        assert(self.struct_list().take(0) =~= Seq::<StructInfo>::empty());
        None
    }

    /// Get enum info by id.
    #[verifier::loop_isolation(false)]
    pub fn get_enum(&self, key: TypeId) -> (r: Option<&EnumInfo>)
        ensures
            match r {
                Some(x) => enum_in(self.enum_list(), key) == Some(*x),
                None => enum_in(self.enum_list(), key).is_none(),
            },
    {
        let ghost is_key = |x: EnumInfo| x.id == key;
        let mut i = self.enums.len();
        assert(self.enum_list().take(i as int) =~= self.enum_list());
        while i > 0
            invariant
                i <= self.enum_list().len(),
                last_match(self.enum_list(), is_key) == last_match(self.enum_list().take(i as int), is_key),
            decreases i,
        {
            proof {
                lemma_last_match_step(self.enum_list(), i as int, is_key);
            }
            if self.enums[i - 1].id == key {
                return Some(&self.enums[i - 1]);
            }
            i = i - 1;
        }
        assert(self.enum_list().take(0) =~= Seq::<EnumInfo>::empty());
        None
    }

    /// Get function info by name.
    #[verifier::loop_isolation(false)]
    pub fn get_function(&self, key: &str) -> (r: Option<&FunctionInfo>)
        ensures
            match r {
                Some(x) => function_in(self.function_list(), key@) == Some(*x),
                None => function_in(self.function_list(), key@).is_none(),
            },
    {
        let ghost is_key = |x: FunctionInfo| x.name@ == key@;
        let mut i = self.functions.len();
        assert(self.function_list().take(i as int) =~= self.function_list());
        while i > 0
            invariant
                i <= self.function_list().len(),
                last_match(self.function_list(), is_key) == last_match(self.function_list().take(i as int), is_key),
            decreases i,
        {
            proof {
                lemma_last_match_step(self.function_list(), i as int, is_key);
            }
            if str_eq(self.functions[i - 1].name.as_str(), key) {
                return Some(&self.functions[i - 1]);
            }
            i = i - 1;
        }
        assert(self.function_list().take(0) =~= Seq::<FunctionInfo>::empty());
        None
    }

    /// Get struct info by name.
    pub fn get_struct_by_name(&self, name: &str) -> (r: Option<&StructInfo>)
        ensures
            match self.spec_lookup_type(name@) {
                Some(id) => match r {
                    Some(x) => struct_in(self.struct_list(), id) == Some(*x),
                    None => struct_in(self.struct_list(), id).is_none(),
                },
                None => r.is_none(),
            },
    {
        match self.lookup_type(name) {
            Some(id) => self.get_struct(id),
            None => None,
        }
    }

    /// Register a struct definition under its id and bind its name in the
    /// current scope.
    pub fn register_struct(&mut self, info: StructInfo)
        requires
            old(self).wf(),
        ensures
            final(self).struct_list() == old(self).struct_list().push(info),
            final(self).frames() == bind_type_in(old(self).frames(), info.name@, info.id),
            final(self).enum_list() == old(self).enum_list(),
            final(self).ability_list() == old(self).ability_list(),
            final(self).function_list() == old(self).function_list(),
            final(self).task_list() == old(self).task_list(),
            final(self).same_counters(old(self)),
    {
        let id = info.id;
        let name = info.name.clone();
        self.structs.push(info);
        self.bind_type(name.as_str(), id);
    }

    /// Register an enum definition under its id and bind its name in the
    /// current scope.
    pub fn register_enum(&mut self, info: EnumInfo)
        requires
            old(self).wf(),
        ensures
            final(self).enum_list() == old(self).enum_list().push(info),
            final(self).frames() == bind_type_in(old(self).frames(), info.name@, info.id),
            final(self).struct_list() == old(self).struct_list(),
            final(self).ability_list() == old(self).ability_list(),
            final(self).function_list() == old(self).function_list(),
            final(self).task_list() == old(self).task_list(),
            final(self).same_counters(old(self)),
    {
        let id = info.id;
        let name = info.name.clone();
        self.enums.push(info);
        self.bind_type(name.as_str(), id);
    }

    /// Register an ability definition under its id and bind its name in the
    /// current scope.
    pub fn register_ability(&mut self, info: AbilityInfo)
        requires
            old(self).wf(),
        ensures
            final(self).ability_list() == old(self).ability_list().push(info),
            final(self).frames() == bind_type_in(old(self).frames(), info.name@, info.id),
            final(self).struct_list() == old(self).struct_list(),
            final(self).enum_list() == old(self).enum_list(),
            final(self).function_list() == old(self).function_list(),
            final(self).task_list() == old(self).task_list(),
            final(self).same_counters(old(self)),
    {
        let id = info.id;
        let name = info.name.clone();
        self.abilities.push(info);
        self.bind_type(name.as_str(), id);
    }

    /// Register a function under its name.
    pub fn register_function(&mut self, info: FunctionInfo)
        ensures
            final(self).function_list() == old(self).function_list().push(info),
            final(self).frames() == old(self).frames(),
            final(self).struct_list() == old(self).struct_list(),
            final(self).enum_list() == old(self).enum_list(),
            final(self).ability_list() == old(self).ability_list(),
            final(self).task_list() == old(self).task_list(),
            final(self).same_counters(old(self)),
    {
        self.functions.push(info);
    }

    /// Register a task under its name.
    pub fn register_task(&mut self, info: TaskInfo)
        ensures
            final(self).task_list() == old(self).task_list().push(info),
            final(self).frames() == old(self).frames(),
            final(self).same_counters(old(self)),
            final(self).struct_list() == old(self).struct_list(),
            final(self).enum_list() == old(self).enum_list(),
            final(self).ability_list() == old(self).ability_list(),
            final(self).function_list() == old(self).function_list(),
    {
        self.tasks.push(info);
    }

    /// Register a built-in generic enum with field-less variants.
    fn register_builtin_enum(&mut self, name: &str, variants: &[&str])
        requires
            old(self).wf(),
        ensures
            final(self).wf(),
            final(self).type_counter() == old(self).type_counter().wrapping_add(1),
            final(self).infer_counter() == old(self).infer_counter(),
            final(self).frames() == bind_type_in(old(self).frames(), name@, old(self).type_counter()),
            final(self).enum_list().len() == old(self).enum_list().len() + 1,
            final(self).enum_list().drop_last() == old(self).enum_list(),
            final(self).enum_list().last().id == old(self).type_counter(),
            final(self).enum_list().last().name@ == name@,
            final(self).enum_list().last().variants@.len() == variants@.len(),
            forall|i: int| 0 <= i < variants@.len() ==> {
                &&& (#[trigger] final(self).enum_list().last().variants@[i]).name@ == variants@[i]@
                &&& final(self).enum_list().last().variants@[i].fields@.len() == 0
            },
            final(self).struct_list() == old(self).struct_list(),
            final(self).ability_list() == old(self).ability_list(),
            final(self).function_list() == old(self).function_list(),
            final(self).task_list() == old(self).task_list(),
    {
        let id = self.fresh_type_id();
        let mut variant_infos: Vec<VariantInfo> = Vec::new();
        let mut i: usize = 0;
        while i < variants.len()
            invariant
                i <= variants@.len(),
                variant_infos@.len() == i,
                forall|j: int| 0 <= j < i ==> {
                    &&& (#[trigger] variant_infos@[j]).name@ == variants@[j]@
                    &&& variant_infos@[j].fields@.len() == 0
                },
            decreases variants@.len() - i,
        {
            variant_infos.push(VariantInfo { name: String::from_str(variants[i]), fields: Vec::new() });
            i = i + 1;
        }
        let mut generic_params: Vec<String> = Vec::new();
        generic_params.push(String::from_str("T"));
        self.register_enum(EnumInfo {
            id,
            name: String::from_str(name),
            variants: variant_infos,
            generic_params,
        });
    }

    /// The environment at the start of checking: the built-in `Option` and
    /// `Result` enums, the `Console` struct with its `write` method (which
    /// requires the `io` effect), and the immutable `console` value.
    pub fn new() -> (env: TypeEnv)
        ensures
            starts_fresh(env),
    {
        let mut scopes: Vec<Scope> = Vec::new();
        scopes.push(Scope { variables: Vec::new(), types: Vec::new() });
        let mut env = TypeEnv {
            scopes,
            structs: Vec::new(),
            enums: Vec::new(),
            abilities: Vec::new(),
            functions: Vec::new(),
            tasks: Vec::new(),
            next_type_id: 1,
            next_infer_id: 1,
        };
        proof {
            assert(env.frames().len() == 1);
        }
        env.register_builtin_enum("Option", &["Some", "None"]);
        env.register_builtin_enum("Result", &["Ok", "Err"]);

        // The console built-in
        let console_id = env.fresh_type_id();
        let mut params: Vec<ParamInfo> = Vec::new();
        params.push(ParamInfo { name: String::from_str("text"), ty: Type::Text, is_mut: false });
        let mut effects: Vec<String> = Vec::new();
        effects.push(String::from_str("io"));
        let mut methods: Vec<FunctionInfo> = Vec::new();
        methods.push(
            FunctionInfo {
                name: String::from_str("write"),
                params,
                return_type: Type::Unit,
                generic_params: Vec::new(),
                effects,
                is_pub: true,
            },
        );
        env.structs.push(
            StructInfo {
                id: console_id,
                name: String::from_str("Console"),
                fields: Vec::new(),
                generic_params: Vec::new(),
                methods,
            },
        );
        env.bind_type("Console", console_id);
        let console_ty = Type::Struct { id: console_id, name: String::from_str("Console"), generics: Vec::new() };
        env.bind_var("console", console_ty, false);
        proof {
            let f0 = env.frames();
            reveal_strlit("Option");
            reveal_strlit("Result");
            reveal_strlit("Console");
            reveal_strlit("console");
            assert(env.struct_list().last().id == 3);
            assert(env.enum_list()[0] == env.enum_list().drop_last()[0]);
            reveal_with_fuel(last_match, 4);
            assert("Option"@[0] != "Result"@[0]);
            assert("Option"@ != "Result"@);
            assert("Option"@[0] != "Console"@[0]);
            assert("Option"@ != "Console"@);
            assert("Result"@ != "Console"@);
            if let TypeV::Struct { generics: g, .. } = console_ty@ {
                assert(g =~= Seq::<TypeV>::empty());
            }
        }
        env
    }
}

} // verus!

verus! {

/// A binding is found right after it is made, and it leaves every other
/// name's binding as it was.
pub proof fn law_bind_then_lookup(frames: Seq<Frame>, name: Seq<char>, b: VarBinding, other: Seq<char>)
    requires
        frames.len() >= 1,
        other != name,
    ensures
        lookup_var_in(bind_in(frames, name, b), name) == Some(b),
        lookup_var_in(bind_in(frames, name, b), other) == lookup_var_in(frames, other),
{
    let g = bind_in(frames, name, b);
    assert(g.drop_last() =~= frames.drop_last());
    assert(g.last().vars.drop_last() =~= frames.last().vars);
}

/// Entering a scope changes no lookup.
pub proof fn law_push_scope_keeps_lookups(frames: Seq<Frame>, name: Seq<char>)
    ensures
        lookup_var_in(frames.push(empty_frame()), name) == lookup_var_in(frames, name),
        lookup_type_in(frames.push(empty_frame()), name) == lookup_type_in(frames, name),
{
    assert(frames.push(empty_frame()).drop_last() =~= frames);
}

/// Bindings made in a scope are forgotten when it is left: entering a
/// scope, binding a name there and leaving the scope restores every lookup.
pub proof fn law_scope_restores(frames: Seq<Frame>, name: Seq<char>, b: VarBinding, other: Seq<char>)
    requires
        frames.len() >= 1,
    ensures
        lookup_var_in(pop_in(bind_in(frames.push(empty_frame()), name, b)), other)
            == lookup_var_in(frames, other),
{
    let g = bind_in(frames.push(empty_frame()), name, b);
    assert(pop_in(g) =~= frames);
}

/// A type name is found right after it is bound, and binding it leaves
/// every other type name's lookup as it was.
pub proof fn law_bind_type_then_lookup(frames: Seq<Frame>, name: Seq<char>, id: TypeId, other: Seq<char>)
    requires
        frames.len() >= 1,
        other != name,
    ensures
        lookup_type_in(bind_type_in(frames, name, id), name) == Some(id),
        lookup_type_in(bind_type_in(frames, name, id), other) == lookup_type_in(frames, other),
{
    let g = bind_type_in(frames, name, id);
    assert(g.drop_last() =~= frames.drop_last());
    assert(g.last().types.drop_last() =~= frames.last().types);
}

/// Type names bound in a scope are forgotten when it is left: entering a
/// scope, binding a type name there and leaving the scope restores every
/// type lookup and every variable lookup.
pub proof fn law_type_scope_restores(frames: Seq<Frame>, name: Seq<char>, id: TypeId, other: Seq<char>)
    requires
        frames.len() >= 1,
    ensures
        lookup_type_in(pop_in(bind_type_in(frames.push(empty_frame()), name, id)), other)
            == lookup_type_in(frames, other),
        lookup_var_in(pop_in(bind_type_in(frames.push(empty_frame()), name, id)), other)
            == lookup_var_in(frames, other),
{
    let g = bind_type_in(frames.push(empty_frame()), name, id);
    assert(pop_in(g) =~= frames);
}

/// Leaving a scope just entered gives back the scopes as they were, so
/// every variable and type lookup is restored.
pub proof fn law_pop_undoes_push(frames: Seq<Frame>)
    requires
        frames.len() >= 1,
    ensures
        pop_in(frames.push(empty_frame())) == frames,
{
    assert(frames.push(empty_frame()).drop_last() =~= frames);
}

/// Type ids are handed out in increasing order: from a counter below its
/// largest value, the id the next call hands out is greater than the one
/// handed out now, so no id is handed out twice before the counter wraps.
pub proof fn law_fresh_ids_increase(first: u64, next_counter: u64, second: u64)
    requires
        first < u64::MAX,
        next_counter == first.wrapping_add(1),
        second == next_counter,
    ensures
        first < second,
{
    assert(first.wrapping_add(1) == first + 1) by (bit_vector)
        requires
            first < u64::MAX,
    ;
}

/// The global scope is never left.
pub proof fn law_pop_keeps_global(frames: Seq<Frame>)
    requires
        frames.len() >= 1,
    ensures
        pop_in(frames).len() >= 1,
        frames.len() == 1 ==> pop_in(frames) == frames,
{
}

} // verus!
