use vstd::prelude::*;

use crate::types::{
    copy_type, identity, lemma_type_eq_reflexive, same_identity, same_type, type_eq, ObjectImpl, Type,
};

verus! {

/// One declaration fact extracted from a crate.
#[derive(Debug)]
pub enum Metadata {
    Namespace { crate_name: String, name: String },
    UdlFile { module: String, namespace: String },
    Func { module: String, name: String },
    Constructor { module: String, self_name: String, name: String },
    Method { module: String, self_name: String, name: String },
    Record { module: String, name: String },
    Enum { module: String, name: String },
    Object { module: String, name: String, imp: ObjectImpl },
    UniffiTrait { module: String, self_name: String, name: String },
    ObjectTraitImpl { module: String, self_name: String, trait_name: String },
    CallbackInterface { module: String, name: String },
    TraitMethod { module: String, trait_name: String, name: String },
    CustomType { module: String, name: String, builtin: Type },
}

/// The namespace that a crate's items belong to.
#[derive(Debug)]
pub struct NamespaceInfo {
    pub crate_name: String,
    pub name: String,
}

/// The items of one crate, in the order in which they were declared.
#[derive(Debug)]
pub struct MetadataGroup {
    pub namespace: NamespaceInfo,
    pub items: Vec<Metadata>,
}

/// The kinds of definition that a component interface holds.
#[derive(Clone, Copy, Debug, PartialEq, Eq, Structural)]
pub enum DefinitionKind {
    Function,
    Constructor,
    Method,
    Record,
    Enum,
    Object,
    UniffiTrait,
    TraitImpl,
    CallbackInterface,
    TraitMethod,
}

/// A definition: its kind, the object or trait it belongs to, and its name.
#[derive(Debug)]
pub struct Definition {
    pub kind: DefinitionKind,
    pub owner: Option<String>,
    pub name: String,
}

/// Why a merge failed.
#[derive(Debug)]
pub enum MergeError {
    /// A group belongs to another namespace than the interface.
    NamespaceMismatch { expected: String, found: String, crate_name: String },
    /// An item comes from a crate for which no namespace was declared.
    UnknownCrate { crate_name: String },
    /// A second, different type was declared under a known type's identity.
    TypeConflict { name: String, module: String },
    /// A definition of this kind, owner and name is already present.
    DuplicateDefinition { name: String },
    /// A definition names an owner that is not yet defined.
    UnknownOwner { owner: String },
    /// Two callable definitions share one low-level symbol.
    DuplicateSymbol { symbol: String },
    /// The item at this position of the pool repeats an earlier one.
    DuplicateItem { index: usize },
}

/// The interface being assembled for one namespace.
#[derive(Debug)]
pub struct ComponentInterface {
    pub namespace: String,
    pub types: Vec<Type>,
    pub definitions: Vec<Definition>,
    pub ffi_funcs: Vec<String>,
}

/// No two known types share an identity.
pub open spec fn types_wf(types: Seq<Type>) -> bool {
    forall|i: int, j: int|
        0 <= i < types.len() && 0 <= j < types.len() && i != j && (#[trigger] identity(types[i]))
            is Some ==> identity(types[i]) != #[trigger] identity(types[j])
}

/// Some known type has the identity of `t` and differs from it.
pub open spec fn conflicts(types: Seq<Type>, t: Type) -> bool {
    exists|i: int|
        0 <= i < types.len() && identity(#[trigger] types[i]) is Some && identity(types[i])
            == identity(t) && !type_eq(types[i], t)
}

/// Some known type equals `t`.
pub open spec fn known(types: Seq<Type>, t: Type) -> bool {
    exists|i: int| 0 <= i < types.len() && type_eq(#[trigger] types[i], t)
}

/// The known types after adding `t`, or `None` on a conflict.
pub open spec fn add_type_outcome(types: Seq<Type>, t: Type) -> Option<Seq<Type>> {
    if conflicts(types, t) {
        None
    } else if known(types, t) {
        Some(types)
    } else {
        Some(types.push(t))
    }
}

/// The kinds that belong to an object or trait.
pub open spec fn is_owned_kind(k: DefinitionKind) -> bool {
    k == DefinitionKind::Constructor || k == DefinitionKind::Method || k
        == DefinitionKind::UniffiTrait || k == DefinitionKind::TraitImpl || k
        == DefinitionKind::TraitMethod
}

/// The owner named for a definition of kind `k` is defined: an object, or
/// for a trait method also a callback interface.
pub open spec fn owner_defined(defs: Seq<Definition>, k: DefinitionKind, owner: Seq<char>) -> bool {
    exists|i: int|
        0 <= i < defs.len() && owner_fits(k, #[trigger] defs[i]) && defs[i].name@ == owner
}

/// A definition `e` can own one of kind `k`.
pub open spec fn owner_fits(k: DefinitionKind, e: Definition) -> bool {
    e.kind == DefinitionKind::Object || (k == DefinitionKind::TraitMethod && e.kind
        == DefinitionKind::CallbackInterface)
}

/// A definition that needs an owner names none, or one not yet defined.
pub open spec fn owner_missing(defs: Seq<Definition>, d: Definition) -> bool {
    is_owned_kind(d.kind) && (d.owner is None || !owner_defined(defs, d.kind, d.owner->0@))
}

/// The error that applying `item` to these types and definitions gives:
/// the type conflict, with the type's identity, where its type conflicts;
/// else the definition's missing owner or taken name.
pub open spec fn item_error(types: Seq<Type>, defs: Seq<Definition>, item: Metadata, e: MergeError) -> bool {
    if item_type(item) is Some && conflicts(types, item_type(item)->0) {
        e is TypeConflict && identity(item_type(item)->0) == Some(
            (e->TypeConflict_name@, e->TypeConflict_module@),
        )
    } else if owner_missing(defs, item_definition(item)->0) {
        e is UnknownOwner
    } else {
        e is DuplicateDefinition
    }
}

/// A top-level definition of another kind already has this name.
pub open spec fn name_taken(defs: Seq<Definition>, d: Definition) -> bool {
    d.owner is None && exists|i: int|
        0 <= i < defs.len() && (#[trigger] defs[i]).owner is None && defs[i].name@ == d.name@
            && defs[i].kind != d.kind
}

pub open spec fn same_owner(a: Option<String>, b: Option<String>) -> bool {
    match (a, b) {
        (Some(x), Some(y)) => x@ == y@,
        (None, None) => true,
        _ => false,
    }
}

/// A definition of the same kind, owner and name is present.
pub open spec fn defined(defs: Seq<Definition>, d: Definition) -> bool {
    exists|i: int|
        0 <= i < defs.len() && (#[trigger] defs[i]).kind == d.kind && same_owner(defs[i].owner, d.owner)
            && defs[i].name@ == d.name@
}

/// The definitions after adding `d`: unchanged where the same definition is
/// already there, `None` where its owner is unknown or another top-level
/// definition has its name.
pub open spec fn add_def_outcome(defs: Seq<Definition>, d: Definition) -> Option<Seq<Definition>> {
    if is_owned_kind(d.kind) && (d.owner is None || !owner_defined(defs, d.kind, d.owner->0@)) {
        None
    } else if defined(defs, d) {
        Some(defs)
    } else if name_taken(defs, d) {
        None
    } else {
        Some(defs.push(d))
    }
}

/// The definition an item adds, if it adds one.
pub open spec fn item_definition(item: Metadata) -> Option<Definition> {
    match item {
        Metadata::Func { name, .. } => Some(Definition { kind: DefinitionKind::Function, owner: None, name }),
        Metadata::Constructor { self_name, name, .. } => Some(
            Definition { kind: DefinitionKind::Constructor, owner: Some(self_name), name },
        ),
        Metadata::Method { self_name, name, .. } => Some(
            Definition { kind: DefinitionKind::Method, owner: Some(self_name), name },
        ),
        Metadata::Record { name, .. } => Some(Definition { kind: DefinitionKind::Record, owner: None, name }),
        Metadata::Enum { name, .. } => Some(Definition { kind: DefinitionKind::Enum, owner: None, name }),
        Metadata::Object { name, .. } => Some(Definition { kind: DefinitionKind::Object, owner: None, name }),
        Metadata::UniffiTrait { self_name, name, .. } => Some(
            Definition { kind: DefinitionKind::UniffiTrait, owner: Some(self_name), name },
        ),
        Metadata::ObjectTraitImpl { self_name, trait_name, .. } => Some(
            Definition { kind: DefinitionKind::TraitImpl, owner: Some(self_name), name: trait_name },
        ),
        Metadata::CallbackInterface { name, .. } => Some(
            Definition { kind: DefinitionKind::CallbackInterface, owner: None, name },
        ),
        Metadata::TraitMethod { trait_name, name, .. } => Some(
            Definition { kind: DefinitionKind::TraitMethod, owner: Some(trait_name), name },
        ),
        _ => None,
    }
}

/// The type an item registers before its definition, if it registers one.
pub open spec fn item_type(item: Metadata) -> Option<Type> {
    match item {
        Metadata::Record { module, name } => Some(Type::Record { module, name }),
        Metadata::Enum { module, name } => Some(Type::Enum { module, name }),
        Metadata::Object { module, name, imp } => Some(Type::Object { module, name, imp }),
        Metadata::CustomType { module, name, builtin } => Some(
            Type::Custom { module, name, builtin: Box::new(builtin) },
        ),
        _ => None,
    }
}

/// The known types and definitions after applying one item, or `None`
/// where it fails.
pub open spec fn item_outcome(types: Seq<Type>, defs: Seq<Definition>, item: Metadata) -> Option<
    (Seq<Type>, Seq<Definition>),
> {
    let t2 = match item_type(item) {
        Some(t) => add_type_outcome(types, t),
        None => Some(types),
    };
    if t2 is None {
        None
    } else {
        match item_definition(item) {
            Some(d) => match add_def_outcome(defs, d) {
                Some(d2) => Some((t2->0, d2)),
                None => None,
            },
            None => Some((t2->0, defs)),
        }
    }
}

/// The known types and definitions after applying items in order, or `None`
/// where one fails.
pub open spec fn items_outcome(types: Seq<Type>, defs: Seq<Definition>, items: Seq<Metadata>) -> Option<
    (Seq<Type>, Seq<Definition>),
>
    decreases items.len(),
{
    if items.len() == 0 {
        Some((types, defs))
    } else {
        match items_outcome(types, defs, items.drop_last()) {
            Some((t, d)) => item_outcome(t, d, items.last()),
            None => None,
        }
    }
}

/// The definitions that cross the call boundary.
pub open spec fn is_callable(k: DefinitionKind) -> bool {
    k == DefinitionKind::Function || k == DefinitionKind::Constructor || k
        == DefinitionKind::Method || k == DefinitionKind::TraitMethod
}

/// The low-level symbol of a callable definition.
pub open spec fn ffi_symbol(namespace: Seq<char>, d: Definition) -> Seq<char> {
    match d.owner {
        Some(o) => namespace + "_"@ + o@ + "_"@ + d.name@,
        None => namespace + "_"@ + d.name@,
    }
}

/// The low-level symbols of the callable definitions, in order.
pub open spec fn ffi_symbols(namespace: Seq<char>, defs: Seq<Definition>) -> Seq<Seq<char>>
    decreases defs.len(),
{
    if defs.len() == 0 {
        seq![]
    } else if is_callable(defs.last().kind) {
        ffi_symbols(namespace, defs.drop_last()).push(ffi_symbol(namespace, defs.last()))
    } else {
        ffi_symbols(namespace, defs.drop_last())
    }
}

/// No symbol occurs twice.
pub open spec fn distinct_symbols(syms: Seq<Seq<char>>) -> bool {
    forall|i: int, j: int| 0 <= i < j < syms.len() ==> syms[i] != syms[j]
}

pub open spec fn string_views(v: Seq<String>) -> Seq<Seq<char>> {
    v.map_values(|s: String| s@)
}

/// What merging a group does to an interface whose namespace matches: the
/// model after its items, or `None` where an item fails.
pub open spec fn group_outcome(ci: ComponentInterface, items: Seq<Metadata>) -> Option<
    (Seq<Type>, Seq<Definition>),
> {
    items_outcome(ci.types@, ci.definitions@, items)
}

/// Copies a string.
fn copy_string(s: &String) -> (r: String)
    ensures
        r == *s,
{
    s.clone()
}

impl ComponentInterface {
    /// An empty interface for a namespace.
    pub fn new(namespace: String) -> (r: ComponentInterface)
        ensures
            r.namespace == namespace,
            r.types@ == Seq::<Type>::empty(),
            r.definitions@ == Seq::<Definition>::empty(),
            r.ffi_funcs@ == Seq::<String>::empty(),
            r.wf(),
    {
        ComponentInterface {
            namespace,
            types: Vec::new(),
            definitions: Vec::new(),
            ffi_funcs: Vec::new(),
        }
    }

    /// The interface's invariant: no two known types share an identity.
    pub open spec fn wf(&self) -> bool {
        types_wf(self.types@)
    }

    /// Decides the interface's invariant.
    pub fn is_well_formed(&self) -> (r: bool)
        ensures
            r == self.wf(),
    {
        let n = self.types.len();
        let mut j: usize = 0;
        while j < n
            invariant
                n == self.types@.len(),
                0 <= j <= n,
                forall|a: int, b: int|
                    0 <= a < j && 0 <= b < j && a != b && (#[trigger] identity(self.types@[a]))
                        is Some ==> identity(self.types@[a]) != #[trigger] identity(self.types@[b]),
            decreases n - j,
        {
            let mut i: usize = 0;
            while i < j
                invariant
                    n == self.types@.len(),
                    0 <= i <= j < n,
                    forall|a: int, b: int|
                        0 <= a < j && 0 <= b < j && a != b && (#[trigger] identity(self.types@[a]))
                            is Some ==> identity(self.types@[a]) != #[trigger] identity(
                            self.types@[b],
                        ),
                    forall|a: int|
                        0 <= a < i ==> !(identity(#[trigger] self.types@[a]) is Some && identity(
                            self.types@[a],
                        ) == identity(self.types@[j as int])),
                decreases j - i,
            {
                if same_identity(&self.types[i], &self.types[j]) {
                    return false;
                }
                i = i + 1;
            }
            j = j + 1;
        }
        true
    }

    /// The name of the namespace being assembled.
    pub fn namespace(&self) -> (r: &str)
        ensures
            r@ == self.namespace@,
    {
        self.namespace.as_str()
    }

    /// Registers a type. Adding an equal type again changes nothing; adding a
    /// different type under a known identity fails and changes nothing.
    pub fn add_known_type(&mut self, t: &Type) -> (r: Result<(), MergeError>)
        requires
            old(self).wf(),
        ensures
            final(self).wf(),
            final(self).namespace == old(self).namespace,
            final(self).definitions == old(self).definitions,
            final(self).ffi_funcs == old(self).ffi_funcs,
            r is Ok <==> !conflicts(old(self).types@, *t),
            r is Err ==> r->Err_0 is TypeConflict && final(self).types == old(self).types,
            r matches Err(MergeError::TypeConflict { name, module }) ==> identity(*t) == Some(
                (name@, module@),
            ),
            r is Ok ==> final(self).types@ == add_type_outcome(old(self).types@, *t)->0,
    {
        let mut i: usize = 0;
        let mut found = false;
        while i < self.types.len()
            invariant
                0 <= i <= self.types@.len(),
                types_wf(self.types@),
                found ==> known(self.types@, *t),
                forall|k: int|
                    0 <= k < i ==> !(identity(#[trigger] self.types@[k]) is Some && identity(
                        self.types@[k],
                    ) == identity(*t) && !type_eq(self.types@[k], *t)),
                !found ==> forall|k: int| 0 <= k < i ==> !type_eq(#[trigger] self.types@[k], *t),
            decreases self.types@.len() - i,
        {
            if same_type(&self.types[i], t) {
                found = true;
            } else if same_identity(&self.types[i], t) {
                let (name, module) = match t {
                    Type::Record { module, name } => (copy_string(name), copy_string(module)),
                    Type::Enum { module, name } => (copy_string(name), copy_string(module)),
                    Type::Object { module, name, .. } => (copy_string(name), copy_string(module)),
                    Type::CallbackInterface { module, name } => (
                        copy_string(name),
                        copy_string(module),
                    ),
                    Type::Custom { module, name, .. } => (copy_string(name), copy_string(module)),
                    _ => (String::new(), String::new()),
                };
                return Err(MergeError::TypeConflict { name, module });
            }
            i = i + 1;
        }
        if !found {
            proof {
                assert forall|a: int, b: int|
                    0 <= a < self.types@.push(*t).len() && 0 <= b < self.types@.push(*t).len()
                        && a != b && (#[trigger] identity(self.types@.push(*t)[a])) is Some
                        implies identity(self.types@.push(*t)[a]) != #[trigger] identity(
                    self.types@.push(*t)[b],
                ) by {
                    if a == self.types@.len() as int {
                        assert(!type_eq(self.types@[b], *t));
                    } else if b == self.types@.len() as int {
                        assert(!type_eq(self.types@[a], *t));
                        assert(identity(self.types@[a]) is Some);
                    }
                }
            }
            self.types.push(copy_type(t));
        }
        Ok(())
    }

    /// Adds a definition after checking that its owner is defined and that it
    /// is new.
    pub fn add_definition(&mut self, d: Definition) -> (r: Result<(), MergeError>)
        ensures
            final(self).namespace == old(self).namespace,
            final(self).types == old(self).types,
            final(self).ffi_funcs == old(self).ffi_funcs,
            r is Ok <==> add_def_outcome(old(self).definitions@, d) is Some,
            r is Ok ==> final(self).definitions@ == add_def_outcome(old(self).definitions@, d)->0,
            r is Err ==> final(self).definitions == old(self).definitions && (r->Err_0 is UnknownOwner
                || r->Err_0 is DuplicateDefinition),
            r is Err ==> (r->Err_0 is UnknownOwner <==> owner_missing(old(self).definitions@, d)),
    {
        if d.kind == DefinitionKind::Constructor || d.kind == DefinitionKind::Method || d.kind
            == DefinitionKind::UniffiTrait || d.kind == DefinitionKind::TraitImpl || d.kind
            == DefinitionKind::TraitMethod {
            match &d.owner {
                None => {
                    return Err(MergeError::UnknownOwner { owner: String::new() });
                },
                Some(o) => {
                    let mut i: usize = 0;
                    let mut found = false;
                    while i < self.definitions.len()
                        invariant
                            0 <= i <= self.definitions@.len(),
                            found ==> owner_defined(self.definitions@, d.kind, o@),
                            !found ==> forall|k: int|
                                0 <= k < i ==> !(owner_fits(d.kind, #[trigger] self.definitions@[k])
                                    && self.definitions@[k].name@ == o@),
                        decreases self.definitions@.len() - i,
                    {
                        let e = &self.definitions[i];
                        if (e.kind == DefinitionKind::Object || (d.kind
                            == DefinitionKind::TraitMethod && e.kind
                            == DefinitionKind::CallbackInterface)) && e.name == *o {
                            found = true;
                        }
                        i = i + 1;
                    }
                    if !found {
                        return Err(MergeError::UnknownOwner { owner: copy_string(o) });
                    }
                },
            }
        }
        let mut i: usize = 0;
        let mut taken = false;
        while i < self.definitions.len()
            invariant
                0 <= i <= self.definitions@.len(),
                forall|k: int|
                    0 <= k < i ==> !((#[trigger] self.definitions@[k]).kind == d.kind && same_owner(
                        self.definitions@[k].owner,
                        d.owner,
                    ) && self.definitions@[k].name@ == d.name@),
                taken ==> name_taken(self.definitions@, d),
                is_owned_kind(d.kind) ==> d.owner is Some && owner_defined(
                    self.definitions@,
                    d.kind,
                    d.owner->0@,
                ),
                !taken ==> forall|k: int|
                    0 <= k < i ==> !(d.owner is None && (#[trigger] self.definitions@[k]).owner is None
                        && self.definitions@[k].name@ == d.name@ && self.definitions@[k].kind
                        != d.kind),
            decreases self.definitions@.len() - i,
        {
            let e = &self.definitions[i];
            let owners_equal = match (&e.owner, &d.owner) {
                (Some(x), Some(y)) => *x == *y,
                (None, None) => true,
                _ => false,
            };
            if e.kind == d.kind && owners_equal && e.name == d.name {
                assert(defined(self.definitions@, d)) by {
                    assert(self.definitions@[i as int] == *e);
                }
                return Ok(());
            }
            if d.owner.is_none() && e.owner.is_none() && e.name == d.name {
                taken = true;
            }
            i = i + 1;
        }
        if taken {
            return Err(MergeError::DuplicateDefinition { name: d.name });
        }
        self.definitions.push(d);
        Ok(())
    }
}


impl ComponentInterface {
    /// Computes the low-level symbol of every callable definition.
    pub fn derive_ffi_funcs(&mut self)
        ensures
            final(self).namespace == old(self).namespace,
            final(self).types == old(self).types,
            final(self).definitions == old(self).definitions,
            string_views(final(self).ffi_funcs@) == ffi_symbols(
                old(self).namespace@,
                old(self).definitions@,
            ),
    {
        let mut out: Vec<String> = Vec::new();
        let mut i: usize = 0;
        while i < self.definitions.len()
            invariant
                0 <= i <= self.definitions@.len(),
                string_views(out@) == ffi_symbols(
                    self.namespace@,
                    self.definitions@.subrange(0, i as int),
                ),
            decreases self.definitions@.len() - i,
        {
            let d = &self.definitions[i];
            let ghost pre = self.definitions@.subrange(0, i as int);
            assert(self.definitions@.subrange(0, i + 1).drop_last() =~= pre);
            if d.kind == DefinitionKind::Function || d.kind == DefinitionKind::Constructor || d.kind
                == DefinitionKind::Method || d.kind == DefinitionKind::TraitMethod {
                let mut sym = self.namespace.clone();
                sym.append("_");
                match &d.owner {
                    Some(o) => {
                        sym.append(o.as_str());
                        sym.append("_");
                    },
                    None => {},
                }
                sym.append(d.name.as_str());
                assert(sym@ =~= ffi_symbol(self.namespace@, *d));
                let ghost before = out@;
                out.push(sym);
                assert(string_views(out@) =~= string_views(before).push(sym@));
            }
            i = i + 1;
        }
        assert(self.definitions@.subrange(0, self.definitions@.len() as int) =~= self.definitions@);
        self.ffi_funcs = out;
    }

    /// Checks that no two callable definitions share a low-level symbol.
    pub fn check_consistency(&self) -> (r: Result<(), MergeError>)
        ensures
            r is Ok <==> distinct_symbols(string_views(self.ffi_funcs@)),
            r is Err ==> r->Err_0 is DuplicateSymbol,
    {
        let ghost syms = string_views(self.ffi_funcs@);
        let mut j: usize = 0;
        while j < self.ffi_funcs.len()
            invariant
                0 <= j <= self.ffi_funcs@.len(),
                syms == string_views(self.ffi_funcs@),
                forall|a: int, b: int| 0 <= a < b < j ==> syms[a] != syms[b],
            decreases self.ffi_funcs@.len() - j,
        {
            let mut i: usize = 0;
            while i < j
                invariant
                    0 <= i <= j < self.ffi_funcs@.len(),
                    syms == string_views(self.ffi_funcs@),
                    forall|a: int, b: int| 0 <= a < b < j ==> syms[a] != syms[b],
                    forall|a: int| 0 <= a < i ==> syms[a] != syms[j as int],
                decreases j - i,
            {
                if self.ffi_funcs[i] == self.ffi_funcs[j] {
                    assert(syms[i as int] == syms[j as int]);
                    return Err(MergeError::DuplicateSymbol { symbol: copy_string(&self.ffi_funcs[j]) });
                }
                i = i + 1;
            }
            j = j + 1;
        }
        Ok(())
    }
}

/// The errors that applying one item can give.
pub open spec fn is_item_error(e: MergeError) -> bool {
    e is TypeConflict || e is DuplicateDefinition || e is UnknownOwner
}

/// Applies one item: registers its type, if it has one, then adds its
/// definition, if it has one.
pub fn add_item_to_ci(ci: &mut ComponentInterface, item: &Metadata) -> (r: Result<(), MergeError>)
    requires
        old(ci).wf(),
        !(item is Namespace),
    ensures
        final(ci).wf(),
        final(ci).namespace == old(ci).namespace,
        final(ci).ffi_funcs == old(ci).ffi_funcs,
        r is Ok <==> item_outcome(old(ci).types@, old(ci).definitions@, *item) is Some,
        r is Err ==> is_item_error(r->Err_0),
        r is Err ==> final(ci).types@ == old(ci).types@ && final(ci).definitions@ == old(
            ci,
        ).definitions@,
        r is Err ==> item_error(old(ci).types@, old(ci).definitions@, *item, r->Err_0),
        r is Ok ==> (final(ci).types@, final(ci).definitions@) == item_outcome(
            old(ci).types@,
            old(ci).definitions@,
            *item,
        )->0,
{
    let ty: Option<Type> = match item {
        Metadata::Record { module, name } => Some(
            Type::Record { module: copy_string(module), name: copy_string(name) },
        ),
        Metadata::Enum { module, name } => Some(
            Type::Enum { module: copy_string(module), name: copy_string(name) },
        ),
        Metadata::Object { module, name, imp } => Some(
            Type::Object { module: copy_string(module), name: copy_string(name), imp: *imp },
        ),
        Metadata::CustomType { module, name, builtin } => Some(
            Type::Custom {
                module: copy_string(module),
                name: copy_string(name),
                builtin: Box::new(copy_type(builtin)),
            },
        ),
        _ => None,
    };
    assert(ty == item_type(*item));
    let len0 = ci.types.len();
    match ty {
        Some(t) => {
            match ci.add_known_type(&t) {
                Ok(()) => {},
                Err(e) => {
                    return Err(e);
                },
            }
        },
        None => {},
    }
    let def: Option<Definition> = match item {
        Metadata::Func { name, .. } => Some(
            Definition { kind: DefinitionKind::Function, owner: None, name: copy_string(name) },
        ),
        Metadata::Constructor { self_name, name, .. } => Some(
            Definition {
                kind: DefinitionKind::Constructor,
                owner: Some(copy_string(self_name)),
                name: copy_string(name),
            },
        ),
        Metadata::Method { self_name, name, .. } => Some(
            Definition {
                kind: DefinitionKind::Method,
                owner: Some(copy_string(self_name)),
                name: copy_string(name),
            },
        ),
        Metadata::Record { name, .. } => Some(
            Definition { kind: DefinitionKind::Record, owner: None, name: copy_string(name) },
        ),
        Metadata::Enum { name, .. } => Some(
            Definition { kind: DefinitionKind::Enum, owner: None, name: copy_string(name) },
        ),
        Metadata::Object { name, .. } => Some(
            Definition { kind: DefinitionKind::Object, owner: None, name: copy_string(name) },
        ),
        Metadata::UniffiTrait { self_name, name, .. } => Some(
            Definition {
                kind: DefinitionKind::UniffiTrait,
                owner: Some(copy_string(self_name)),
                name: copy_string(name),
            },
        ),
        Metadata::ObjectTraitImpl { self_name, trait_name, .. } => Some(
            Definition {
                kind: DefinitionKind::TraitImpl,
                owner: Some(copy_string(self_name)),
                name: copy_string(trait_name),
            },
        ),
        Metadata::CallbackInterface { name, .. } => Some(
            Definition {
                kind: DefinitionKind::CallbackInterface,
                owner: None,
                name: copy_string(name),
            },
        ),
        Metadata::TraitMethod { trait_name, name, .. } => Some(
            Definition {
                kind: DefinitionKind::TraitMethod,
                owner: Some(copy_string(trait_name)),
                name: copy_string(name),
            },
        ),
        _ => None,
    };
    assert(def == item_definition(*item));
    match def {
        Some(d) => {
            let res = ci.add_definition(d);
            if res.is_err() {
                ci.types.truncate(len0);
                assert(ci.types@ =~= old(ci).types@);
            }
            res
        },
        None => Ok(()),
    }
}

/// Item `i` is the first to fail, with error `e`.
pub open spec fn fails_at(
    types: Seq<Type>,
    defs: Seq<Definition>,
    items: Seq<Metadata>,
    i: int,
    e: MergeError,
) -> bool {
    match items_outcome(types, defs, items.subrange(0, i)) {
        Some((t, d)) => item_outcome(t, d, items[i]) is None && item_error(t, d, items[i], e),
        None => false,
    }
}

/// Once a prefix of the items fails, the whole sequence fails.
proof fn lemma_failure_persists(
    types: Seq<Type>,
    defs: Seq<Definition>,
    items: Seq<Metadata>,
    i: int,
)
    requires
        0 <= i <= items.len(),
        items_outcome(types, defs, items.subrange(0, i)) is None,
    ensures
        items_outcome(types, defs, items) is None,
    decreases items.len() - i,
{
    if i < items.len() {
        assert(items.subrange(0, i + 1).drop_last() =~= items.subrange(0, i));
        lemma_failure_persists(types, defs, items, i + 1);
    } else {
        assert(items.subrange(0, i) =~= items);
    }
}

/// Merges the items of one group, in order, then derives the low-level
/// symbols and checks them. A group of another namespace is refused before
/// anything changes.
pub fn add_group_to_ci(ci: &mut ComponentInterface, group: &MetadataGroup) -> (r: Result<
    (),
    MergeError,
>)
    requires
        old(ci).wf(),
        forall|k: int| 0 <= k < group.items@.len() ==> !(#[trigger] group.items@[k] is Namespace),
    ensures
        final(ci).wf(),
        final(ci).namespace == old(ci).namespace,
        group.namespace.name@ != old(ci).namespace@ ==> r is Err && r->Err_0 is NamespaceMismatch
            && *final(ci) == *old(ci),
        group.namespace.name@ == old(ci).namespace@ && group_outcome(*old(ci), group.items@) is None
            ==> r is Err,
        group.namespace.name@ == old(ci).namespace@ && r is Err ==> is_item_error(r->Err_0)
            || r->Err_0 is DuplicateSymbol,
        r matches Err(MergeError::NamespaceMismatch { expected, found, crate_name }) ==> expected@
            == old(ci).namespace@ && found@ == group.namespace.name@ && crate_name@
            == group.namespace.crate_name@,
        r is Err && is_item_error(r->Err_0) ==> exists|i: int|
            0 <= i < group.items@.len() && #[trigger] fails_at(
                old(ci).types@,
                old(ci).definitions@,
                group.items@,
                i,
                r->Err_0,
            ),
        group.namespace.name@ == old(ci).namespace@ && group_outcome(*old(ci), group.items@) is Some
            ==> {
            let (t, d) = group_outcome(*old(ci), group.items@)->0;
            &&& final(ci).types@ == t
            &&& final(ci).definitions@ == d
            &&& string_views(final(ci).ffi_funcs@) == ffi_symbols(old(ci).namespace@, d)
            &&& (r is Ok <==> distinct_symbols(ffi_symbols(old(ci).namespace@, d)))
        },
{
    if group.namespace.name != ci.namespace {
        return Err(
            MergeError::NamespaceMismatch {
                expected: copy_string(&ci.namespace),
                found: copy_string(&group.namespace.name),
                crate_name: copy_string(&group.namespace.crate_name),
            },
        );
    }
    let ghost t0 = ci.types@;
    let ghost d0 = ci.definitions@;
    let mut i: usize = 0;
    while i < group.items.len()
        invariant
            0 <= i <= group.items@.len(),
            ci.wf(),
            ci.namespace == old(ci).namespace,
            t0 == old(ci).types@,
            d0 == old(ci).definitions@,
            group.namespace.name@ == ci.namespace@,
            forall|k: int| 0 <= k < group.items@.len() ==> !(#[trigger] group.items@[k] is Namespace),
            items_outcome(t0, d0, group.items@.subrange(0, i as int)) == Some(
                (ci.types@, ci.definitions@),
            ),
        decreases group.items@.len() - i,
    {
        let ghost pre = group.items@.subrange(0, i as int);
        assert(group.items@.subrange(0, i + 1).drop_last() =~= pre);
        let res = add_item_to_ci(ci, &group.items[i]);
        match res {
            Ok(()) => {},
            Err(e) => {
                proof {
                    lemma_failure_persists(t0, d0, group.items@, i + 1);
                    assert(fails_at(t0, d0, group.items@, i as int, e));
                }
                return Err(e);
            },
        }
        i = i + 1;
    }
    assert(group.items@.subrange(0, group.items@.len() as int) =~= group.items@);
    ci.derive_ffi_funcs();
    ci.check_consistency()
}

/// The module an item comes from; a namespace item has none.
pub open spec fn item_module(item: Metadata) -> Seq<char> {
    match item {
        Metadata::Namespace { .. } => seq![],
        Metadata::UdlFile { module, .. } => module@,
        Metadata::Func { module, .. } => module@,
        Metadata::Constructor { module, .. } => module@,
        Metadata::Method { module, .. } => module@,
        Metadata::Record { module, .. } => module@,
        Metadata::Enum { module, .. } => module@,
        Metadata::Object { module, .. } => module@,
        Metadata::UniffiTrait { module, .. } => module@,
        Metadata::ObjectTraitImpl { module, .. } => module@,
        Metadata::CallbackInterface { module, .. } => module@,
        Metadata::TraitMethod { module, .. } => module@,
        Metadata::CustomType { module, .. } => module@,
    }
}

/// The index of the first `::` in `s` at or after `i`, or the length of `s`.
pub open spec fn separator_index(s: Seq<char>, i: int) -> int
    decreases s.len() - i,
{
    if i < 0 || i + 1 >= s.len() {
        s.len() as int
    } else if s[i] == ':' && s[i + 1] == ':' {
        i
    } else {
        separator_index(s, i + 1)
    }
}

/// The crate of a module path: its first segment.
pub open spec fn crate_of(module: Seq<char>) -> Seq<char> {
    module.subrange(0, separator_index(module, 0))
}

/// An item declares a namespace for crate `c`.
pub open spec fn crate_declared(items: Seq<Metadata>, c: Seq<char>) -> bool {
    exists|j: int|
        0 <= j < items.len() && declared_crate(#[trigger] items[j]) == Some(c)
}

/// The crate that an item declares: a namespace item declares its crate, and
/// an interface-file marker declares its module.
pub open spec fn declared_crate(item: Metadata) -> Option<Seq<char>> {
    match item {
        Metadata::Namespace { crate_name, .. } => Some(crate_name@),
        Metadata::UdlFile { module, .. } => Some(module@),
        _ => None,
    }
}

/// The namespace that a declaring item names.
pub open spec fn declared_namespace(item: Metadata) -> Seq<char> {
    match item {
        Metadata::Namespace { name, .. } => name@,
        Metadata::UdlFile { namespace, .. } => namespace@,
        _ => seq![],
    }
}

/// The crate and namespace that an item declares, if it declares one.
fn declaration(item: &Metadata) -> (r: Option<(&String, &String)>)
    ensures
        r is Some <==> declared_crate(*item) is Some,
        r matches Some((c, ns)) ==> c@ == declared_crate(*item)->0 && ns@ == declared_namespace(
            *item,
        ),
{
    match item {
        Metadata::Namespace { crate_name, name } => Some((crate_name, name)),
        Metadata::UdlFile { module, namespace } => Some((module, namespace)),
        _ => None,
    }
}

/// Relies on `uniffi_meta::crate_name`: the text of a module path before
/// its first `::`, or the whole path where there is none.
#[verifier::external_body]
fn crate_prefix(module: &str) -> (r: String)
    ensures
        r@ == crate_of(module@),
{
    uniffi_meta::crate_name(module).to_string()
}

/// The crate of a module path.
pub fn crate_name_of(module: &String) -> (r: String)
    ensures
        r@ == crate_of(module@),
{
    crate_prefix(module.as_str())
}

/// The module of a non-namespace item.
fn module_of(item: &Metadata) -> (r: &String)
    requires
        !(item is Namespace),
    ensures
        r@ == item_module(*item),
{
    match item {
        Metadata::UdlFile { module, .. } => module,
        Metadata::Func { module, .. } => module,
        Metadata::Constructor { module, .. } => module,
        Metadata::Method { module, .. } => module,
        Metadata::Record { module, .. } => module,
        Metadata::Enum { module, .. } => module,
        Metadata::Object { module, .. } => module,
        Metadata::UniffiTrait { module, .. } => module,
        Metadata::ObjectTraitImpl { module, .. } => module,
        Metadata::CallbackInterface { module, .. } => module,
        Metadata::TraitMethod { module, .. } => module,
        Metadata::CustomType { module, .. } => module,
        Metadata::Namespace { crate_name, .. } => crate_name,
    }
}

/// Copies an item.
fn copy_metadata(item: &Metadata) -> (r: Metadata)
    ensures
        r == *item,
{
    match item {
        Metadata::Namespace { crate_name, name } => Metadata::Namespace {
            crate_name: copy_string(crate_name),
            name: copy_string(name),
        },
        Metadata::UdlFile { module, namespace } => Metadata::UdlFile {
            module: copy_string(module),
            namespace: copy_string(namespace),
        },
        Metadata::Func { module, name } => Metadata::Func {
            module: copy_string(module),
            name: copy_string(name),
        },
        Metadata::Constructor { module, self_name, name } => Metadata::Constructor {
            module: copy_string(module),
            self_name: copy_string(self_name),
            name: copy_string(name),
        },
        Metadata::Method { module, self_name, name } => Metadata::Method {
            module: copy_string(module),
            self_name: copy_string(self_name),
            name: copy_string(name),
        },
        Metadata::Record { module, name } => Metadata::Record {
            module: copy_string(module),
            name: copy_string(name),
        },
        Metadata::Enum { module, name } => Metadata::Enum {
            module: copy_string(module),
            name: copy_string(name),
        },
        Metadata::Object { module, name, imp } => Metadata::Object {
            module: copy_string(module),
            name: copy_string(name),
            imp: *imp,
        },
        Metadata::UniffiTrait { module, self_name, name } => Metadata::UniffiTrait {
            module: copy_string(module),
            self_name: copy_string(self_name),
            name: copy_string(name),
        },
        Metadata::ObjectTraitImpl { module, self_name, trait_name } => Metadata::ObjectTraitImpl {
            module: copy_string(module),
            self_name: copy_string(self_name),
            trait_name: copy_string(trait_name),
        },
        Metadata::CallbackInterface { module, name } => Metadata::CallbackInterface {
            module: copy_string(module),
            name: copy_string(name),
        },
        Metadata::TraitMethod { module, trait_name, name } => Metadata::TraitMethod {
            module: copy_string(module),
            trait_name: copy_string(trait_name),
            name: copy_string(name),
        },
        Metadata::CustomType { module, name, builtin } => Metadata::CustomType {
            module: copy_string(module),
            name: copy_string(name),
            builtin: copy_type(builtin),
        },
    }
}

/// The items of crate `c` among `items`, in order; namespace items excluded.
pub open spec fn group_of(items: Seq<Metadata>, c: Seq<char>) -> Seq<Metadata>
    decreases items.len(),
{
    if items.len() == 0 {
        seq![]
    } else {
        let rest = group_of(items.drop_last(), c);
        if !(items.last() is Namespace) && crate_of(item_module(items.last())) == c {
            rest.push(items.last())
        } else {
            rest
        }
    }
}

/// Item `j` declares a crate that no earlier item declares.
pub open spec fn first_declaration(items: Seq<Metadata>, j: int) -> bool {
    &&& declared_crate(items[j]) is Some
    &&& forall|b: int| 0 <= b < j ==> declared_crate(#[trigger] items[b]) != declared_crate(items[j])
}

/// Where merging a pool stands: merged so far with these types, definitions
/// and symbols; stopped on a group of another namespace, with the state
/// before it; or failed inside a group.
pub enum MergeState {
    Merged(Seq<Type>, Seq<Definition>, Seq<Seq<char>>),
    Mismatch(Seq<Type>, Seq<Definition>, Seq<Seq<char>>),
    Failed,
}

/// The state after the group that item `j` declares, if it is the first
/// declaration of a crate with at least one item.
pub open spec fn group_step(
    ns: Seq<char>,
    t: Seq<Type>,
    d: Seq<Definition>,
    f: Seq<Seq<char>>,
    items: Seq<Metadata>,
    j: int,
) -> MergeState {
    if !first_declaration(items, j) {
        MergeState::Merged(t, d, f)
    } else {
        let g = group_of(items, declared_crate(items[j])->0);
        if g.len() == 0 {
            MergeState::Merged(t, d, f)
        } else if declared_namespace(items[j]) != ns {
            MergeState::Mismatch(t, d, f)
        } else {
            match items_outcome(t, d, g) {
                Some((t2, d2)) => if distinct_symbols(ffi_symbols(ns, d2)) {
                    MergeState::Merged(t2, d2, ffi_symbols(ns, d2))
                } else {
                    MergeState::Failed
                },
                None => MergeState::Failed,
            }
        }
    }
}

/// The state after the groups declared by the first `j` items.
pub open spec fn pool_fold(
    ns: Seq<char>,
    t: Seq<Type>,
    d: Seq<Definition>,
    f: Seq<Seq<char>>,
    items: Seq<Metadata>,
    j: int,
) -> MergeState
    decreases j,
{
    if j <= 0 {
        MergeState::Merged(t, d, f)
    } else {
        match pool_fold(ns, t, d, f, items, j - 1) {
            MergeState::Merged(t1, d1, f1) => group_step(ns, t1, d1, f1, items, j - 1),
            other => other,
        }
    }
}

/// What merging a whole pool into `ci` leads to.
pub open spec fn pool_outcome(ci: ComponentInterface, items: Seq<Metadata>) -> MergeState {
    pool_fold(
        ci.namespace@,
        ci.types@,
        ci.definitions@,
        string_views(ci.ffi_funcs@),
        items,
        items.len() as int,
    )
}

/// Once merging stops, later groups change nothing.
proof fn lemma_fold_stops(
    ns: Seq<char>,
    t: Seq<Type>,
    d: Seq<Definition>,
    f: Seq<Seq<char>>,
    items: Seq<Metadata>,
    j: int,
    n: int,
)
    requires
        0 <= j <= n,
        !(pool_fold(ns, t, d, f, items, j) is Merged),
    ensures
        pool_fold(ns, t, d, f, items, n) == pool_fold(ns, t, d, f, items, j),
    decreases n - j,
{
    if j < n {
        lemma_fold_stops(ns, t, d, f, items, j, n - 1);
    }
}

/// The fields of an item that identify it, as views, with a tag per kind.
pub open spec fn item_key(m: Metadata) -> (int, Seq<char>, Seq<char>, Seq<char>) {
    match m {
        Metadata::Namespace { crate_name, name } => (0, crate_name@, name@, seq![]),
        Metadata::UdlFile { module, namespace } => (1, module@, namespace@, seq![]),
        Metadata::Func { module, name } => (2, module@, name@, seq![]),
        Metadata::Constructor { module, self_name, name } => (3, module@, self_name@, name@),
        Metadata::Method { module, self_name, name } => (4, module@, self_name@, name@),
        Metadata::Record { module, name } => (5, module@, name@, seq![]),
        Metadata::Enum { module, name } => (6, module@, name@, seq![]),
        Metadata::Object { module, name, .. } => (7, module@, name@, seq![]),
        Metadata::UniffiTrait { module, self_name, name } => (8, module@, self_name@, name@),
        Metadata::ObjectTraitImpl { module, self_name, trait_name } => (
            9,
            module@,
            self_name@,
            trait_name@,
        ),
        Metadata::CallbackInterface { module, name } => (10, module@, name@, seq![]),
        Metadata::TraitMethod { module, trait_name, name } => (11, module@, trait_name@, name@),
        Metadata::CustomType { module, name, .. } => (12, module@, name@, seq![]),
    }
}

/// Two items are the same item.
pub open spec fn item_eq(a: Metadata, b: Metadata) -> bool {
    &&& item_key(a) == item_key(b)
    &&& match (a, b) {
        (Metadata::Object { imp: i1, .. }, Metadata::Object { imp: i2, .. }) => i1 == i2,
        (Metadata::CustomType { builtin: x, .. }, Metadata::CustomType { builtin: y, .. }) =>
            type_eq(x, y),
        _ => true,
    }
}

/// Every item's crate is declared, and no item occurs twice.
pub open spec fn pool_valid(items: Seq<Metadata>) -> bool {
    forall|k: int| 0 <= k < items.len() && !(#[trigger] items[k] is Namespace) ==> item_accepted(items, k)
}

/// Item `k`'s crate is declared, and no earlier item equals it.
pub open spec fn item_accepted(items: Seq<Metadata>, k: int) -> bool {
    &&& crate_declared(items, crate_of(item_module(items[k])))
    &&& forall|b: int| 0 <= b < k ==> !item_eq(#[trigger] items[b], items[k])
}

fn same_opt(a: Option<&String>, b: Option<&String>) -> (r: bool)
    ensures
        r == (match (a, b) {
            (Some(x), Some(y)) => x@ == y@,
            (None, None) => true,
            _ => false,
        }),
{
    match (a, b) {
        (Some(x), Some(y)) => *x == *y,
        (None, None) => true,
        _ => false,
    }
}

pub open spec fn opt_view(o: Option<&String>) -> Seq<char> {
    match o {
        Some(x) => x@,
        None => seq![],
    }
}

/// The identifying fields of an item.
fn key_of(m: &Metadata) -> (r: (u8, &String, &String, Option<&String>))
    ensures
        item_key(*m) == (r.0 as int, r.1@, r.2@, opt_view(r.3)),
        r.3 is None <==> (r.0 == 0 || r.0 == 1 || r.0 == 2 || r.0 == 5 || r.0 == 6 || r.0 == 7
            || r.0 == 10 || r.0 == 12),
{
    match m {
        Metadata::Namespace { crate_name, name } => (0, crate_name, name, None),
        Metadata::UdlFile { module, namespace } => (1, module, namespace, None),
        Metadata::Func { module, name } => (2, module, name, None),
        Metadata::Constructor { module, self_name, name } => (3, module, self_name, Some(name)),
        Metadata::Method { module, self_name, name } => (4, module, self_name, Some(name)),
        Metadata::Record { module, name } => (5, module, name, None),
        Metadata::Enum { module, name } => (6, module, name, None),
        Metadata::Object { module, name, .. } => (7, module, name, None),
        Metadata::UniffiTrait { module, self_name, name } => (8, module, self_name, Some(name)),
        Metadata::ObjectTraitImpl { module, self_name, trait_name } => (
            9,
            module,
            self_name,
            Some(trait_name),
        ),
        Metadata::CallbackInterface { module, name } => (10, module, name, None),
        Metadata::TraitMethod { module, trait_name, name } => (11, module, trait_name, Some(name)),
        Metadata::CustomType { module, name, .. } => (12, module, name, None),
    }
}

/// Decides `item_eq`.
fn same_item(a: &Metadata, b: &Metadata) -> (r: bool)
    ensures
        r == item_eq(*a, *b),
{
    let (ta, a1, a2, a3) = key_of(a);
    let (tb, b1, b2, b3) = key_of(b);
    if !(ta == tb && *a1 == *b1 && *a2 == *b2 && same_opt(a3, b3)) {
        return false;
    }
    match (a, b) {
        (Metadata::Object { imp: i1, .. }, Metadata::Object { imp: i2, .. }) => *i1 == *i2,
        (Metadata::CustomType { builtin: x, .. }, Metadata::CustomType { builtin: y, .. }) =>
            same_type(x, y),
        _ => true,
    }
}

/// Merges the group that item `j` declares, where it is the first
/// declaration of a crate with at least one item.
fn merge_declared_group(
    ci: &mut ComponentInterface,
    items: &Vec<Metadata>,
    crates: &Vec<String>,
    j: usize,
) -> (r: Result<(), MergeError>)
    requires
        old(ci).wf(),
        j < items@.len(),
        crates@.len() == items@.len(),
        forall|a: int|
            0 <= a < items@.len() && !(#[trigger] items@[a] is Namespace) ==> crates@[a]@
                == crate_of(item_module(items@[a])),
    ensures
        final(ci).wf(),
        final(ci).namespace == old(ci).namespace,
        match group_step(
            old(ci).namespace@,
            old(ci).types@,
            old(ci).definitions@,
            string_views(old(ci).ffi_funcs@),
            items@,
            j as int,
        ) {
            MergeState::Merged(t, d, f) => r is Ok && final(ci).types@ == t
                && final(ci).definitions@ == d && string_views(final(ci).ffi_funcs@) == f,
            MergeState::Mismatch(t, d, f) => r is Err && r->Err_0 is NamespaceMismatch
                && r->Err_0->NamespaceMismatch_expected@ == old(ci).namespace@
                && final(ci).types@ == t && final(ci).definitions@ == d && string_views(
                final(ci).ffi_funcs@,
            ) == f,
            MergeState::Failed => r is Err && (is_item_error(r->Err_0)
                || r->Err_0 is DuplicateSymbol),
        },
{
    let n = items.len();
    match declaration(&items[j]) {
        Some((crate_name, name)) => {
            let mut b: usize = 0;
            let mut seen = false;
            while b < j
                invariant
                    n == items@.len(),
                    0 <= b <= j < n,
                    declared_crate(items@[j as int]) == Some(crate_name@),
                    !seen ==> forall|x: int|
                        0 <= x < b ==> declared_crate(#[trigger] items@[x]) != Some(
                            crate_name@,
                        ),
                    seen ==> !first_declaration(items@, j as int),
                decreases j - b,
            {
                match declaration(&items[b]) {
                    Some((c2, _)) => {
                        if *c2 == *crate_name {
                            seen = true;
                        }
                    },
                    None => {},
                }
                b = b + 1;
            }
            if !seen {
                assert(first_declaration(items@, j as int));
                let mut group_items: Vec<Metadata> = Vec::new();
                let mut a: usize = 0;
                while a < n
                    invariant
                        n == items@.len(),
                        0 <= a <= n,
                        crates@.len() == n,
                        forall|x: int|
                            0 <= x < n && !(#[trigger] items@[x] is Namespace) ==> crates@[x]@
                                == crate_of(item_module(items@[x])),
                        forall|x: int|
                            0 <= x < group_items@.len() ==> !(#[trigger] group_items@[x] is Namespace),
                        group_items@ == group_of(items@.subrange(0, a as int), crate_name@),
                    decreases n - a,
                {
                    assert(items@.subrange(0, a + 1).drop_last() =~= items@.subrange(
                        0,
                        a as int,
                    ));
                    if !(matches!(&items[a], Metadata::Namespace { .. })) && crates[a]
                        == *crate_name {
                        group_items.push(copy_metadata(&items[a]));
                    }
                    a = a + 1;
                }
                assert(items@.subrange(0, n as int) =~= items@);
                if group_items.len() > 0 {
                    if *name != ci.namespace {
                        return Err(
                            MergeError::NamespaceMismatch {
                                expected: copy_string(&ci.namespace),
                                found: copy_string(name),
                                crate_name: copy_string(crate_name),
                            },
                        );
                    }
                    let group = MetadataGroup {
                        namespace: NamespaceInfo {
                            crate_name: copy_string(crate_name),
                            name: copy_string(name),
                        },
                        items: group_items,
                    };
                    match add_group_to_ci(ci, &group) {
                        Ok(()) => {},
                        Err(e) => {
                            return Err(e);
                        },
                    }
                }
            }
        },
        None => {},
    }
    Ok(())
}

/// Merges a flat pool of items. Each item's crate must be declared by a
/// namespace item or an interface-file marker, and no item may occur twice;
/// otherwise nothing changes. Then the items are grouped by crate, keeping
/// their order, and each non-empty group is merged in the order in which its
/// crate was first declared; a group of another namespace stops the merge.
pub fn add_to_ci(ci: &mut ComponentInterface, items: Vec<Metadata>) -> (r: Result<(), MergeError>)
    requires
        old(ci).wf(),
    ensures
        final(ci).wf(),
        final(ci).namespace == old(ci).namespace,
        !pool_valid(items@) <==> (r is Err && (r->Err_0 is UnknownCrate || r->Err_0 is DuplicateItem)),
        !pool_valid(items@) ==> *final(ci) == *old(ci),
        r is Err && r->Err_0 is UnknownCrate ==> exists|k: int|
            0 <= k < items@.len() && !(#[trigger] items@[k] is Namespace) && !crate_declared(
                items@,
                crate_of(item_module(items@[k])),
            ),
        r is Err && r->Err_0 is DuplicateItem ==> exists|k: int, b: int|
            0 <= b < k < items@.len() && !(#[trigger] items@[k] is Namespace) && item_eq(
                #[trigger] items@[b],
                items@[k],
            ),
        pool_valid(items@) ==> match pool_outcome(*old(ci), items@) {
            MergeState::Merged(t, d, f) => r is Ok && final(ci).types@ == t
                && final(ci).definitions@ == d && string_views(final(ci).ffi_funcs@) == f,
            MergeState::Mismatch(t, d, f) => r is Err && r->Err_0 is NamespaceMismatch
                && r->Err_0->NamespaceMismatch_expected@ == old(ci).namespace@
                && final(ci).types@ == t && final(ci).definitions@ == d && string_views(
                final(ci).ffi_funcs@,
            ) == f,
            MergeState::Failed => r is Err && (is_item_error(r->Err_0)
                || r->Err_0 is DuplicateSymbol),
        },
{
    let n = items.len();
    let mut crates: Vec<String> = Vec::new();
    let mut k: usize = 0;
    while k < n
        invariant
            n == items@.len(),
            0 <= k <= n,
            ci.wf(),
            *ci == *old(ci),
            crates@.len() == k,
            forall|a: int|
                0 <= a < k && !(#[trigger] items@[a] is Namespace) ==> crates@[a]@ == crate_of(
                    item_module(items@[a]),
                ) && item_accepted(items@, a),
        decreases n - k,
    {
        if let Metadata::Namespace { .. } = &items[k] {
            crates.push(String::new());
        } else {
            let c = crate_name_of(module_of(&items[k]));
            let mut j: usize = 0;
            let mut found = false;
            while j < n
                invariant
                    n == items@.len(),
                    0 <= j <= n,
                    ci.wf(),
                    *ci == *old(ci),
                    k < n,
                    !(items@[k as int] is Namespace),
                    c@ == crate_of(item_module(items@[k as int])),
                    found ==> crate_declared(items@, c@),
                    !found ==> forall|b: int|
                        0 <= b < j ==> declared_crate(#[trigger] items@[b]) != Some(c@),
                decreases n - j,
            {
                match declaration(&items[j]) {
                    Some((crate_name, _)) => {
                        if *crate_name == c {
                            found = true;
                        }
                    },
                    None => {},
                }
                j = j + 1;
            }
            if !found {
                assert(!(items@[k as int] is Namespace) && !crate_declared(
                    items@,
                    crate_of(item_module(items@[k as int])),
                ));
                return Err(MergeError::UnknownCrate { crate_name: c });
            }
            let mut b: usize = 0;
            while b < k
                invariant
                    n == items@.len(),
                    0 <= b <= k < n,
                    ci.wf(),
                    *ci == *old(ci),
                    !(items@[k as int] is Namespace),
                    crate_declared(items@, crate_of(item_module(items@[k as int]))),
                    forall|x: int| 0 <= x < b ==> !item_eq(#[trigger] items@[x], items@[k as int]),
                decreases k - b,
            {
                if same_item(&items[b], &items[k]) {
                    assert(!(items@[k as int] is Namespace) && item_eq(
                        items@[b as int],
                        items@[k as int],
                    ));
                    return Err(MergeError::DuplicateItem { index: k });
                }
                b = b + 1;
            }
            crates.push(c);
        }
        k = k + 1;
    }
    assert(pool_valid(items@));
    let ghost ns = ci.namespace@;
    let ghost t0 = ci.types@;
    let ghost d0 = ci.definitions@;
    let ghost f0 = string_views(ci.ffi_funcs@);
    let mut j: usize = 0;
    while j < n
        invariant
            n == items@.len(),
            0 <= j <= n,
            ci.wf(),
            ci.namespace == old(ci).namespace,
            ns == old(ci).namespace@,
            t0 == old(ci).types@,
            d0 == old(ci).definitions@,
            f0 == string_views(old(ci).ffi_funcs@),
            pool_valid(items@),
            crates@.len() == n,
            forall|a: int|
                0 <= a < n && !(#[trigger] items@[a] is Namespace) ==> crates@[a]@ == crate_of(
                    item_module(items@[a]),
                ),
            pool_fold(ns, t0, d0, f0, items@, j as int) == MergeState::Merged(
                ci.types@,
                ci.definitions@,
                string_views(ci.ffi_funcs@),
            ),
        decreases n - j,
    {
        let ghost t1 = ci.types@;
        let ghost d1 = ci.definitions@;
        let ghost f1 = string_views(ci.ffi_funcs@);
        assert(pool_fold(ns, t0, d0, f0, items@, j + 1) == group_step(
            ns,
            t1,
            d1,
            f1,
            items@,
            j as int,
        ));
        match merge_declared_group(ci, &items, &crates, j) {
            Ok(()) => {},
            Err(e) => {
                proof {
                    lemma_fold_stops(ns, t0, d0, f0, items@, j + 1, n as int);
                }
                return Err(e);
            },
        }
        j = j + 1;
    }
    Ok(())
}

/// Adding a type a second time succeeds and changes nothing.
pub proof fn lemma_add_type_idempotent(types: Seq<Type>, t: Type)
    requires
        add_type_outcome(types, t) is Some,
    ensures
        add_type_outcome(add_type_outcome(types, t)->0, t) == add_type_outcome(types, t),
{
    let t2 = add_type_outcome(types, t)->0;
    lemma_type_eq_reflexive(t);
    if !known(types, t) {
        assert(t2[types.len() as int] == t);
        assert(known(t2, t));
        if conflicts(t2, t) {
            let i = choose|i: int|
                0 <= i < t2.len() && identity(#[trigger] t2[i]) is Some && identity(t2[i])
                    == identity(t) && !type_eq(t2[i], t);
            assert(i < types.len());
            assert(types[i] == t2[i]);
        }
    }
}

/// Applying an item a second time succeeds and changes nothing: its type is
/// already known and its definition already present.
pub proof fn lemma_item_idempotent(
    types: Seq<Type>,
    defs: Seq<Definition>,
    item: Metadata,
    t2: Seq<Type>,
    d2: Seq<Definition>,
)
    requires
        item_outcome(types, defs, item) == Some((t2, d2)),
    ensures
        item_outcome(t2, d2, item) == Some((t2, d2)),
{
    if item_type(item) is Some {
        lemma_add_type_idempotent(types, item_type(item)->0);
    }
    if item_definition(item) is Some {
        let d = item_definition(item)->0;
        assert(defined(d2, d)) by {
            if defined(defs, d) {
                let i = choose|i: int|
                    0 <= i < defs.len() && (#[trigger] defs[i]).kind == d.kind && same_owner(
                        defs[i].owner,
                        d.owner,
                    ) && defs[i].name@ == d.name@;
                assert(d2[i] == defs[i]);
            } else {
                assert(d2[defs.len() as int] == d);
                assert(same_owner(d.owner, d.owner));
            }
        }
        if is_owned_kind(d.kind) {
            let i = choose|i: int|
                0 <= i < defs.len() && owner_fits(d.kind, #[trigger] defs[i]) && defs[i].name@
                    == d.owner->0@;
            assert(d2[i] == defs[i]);
            assert(owner_defined(d2, d.kind, d.owner->0@));
        }
    }
}

/// Once a record is known, an object of the same name and module conflicts
/// with it and is refused.
pub proof fn lemma_record_then_object_conflicts(
    types: Seq<Type>,
    module: String,
    name: String,
    imp: ObjectImpl,
)
    requires
        add_type_outcome(types, Type::Record { module, name }) is Some,
    ensures
        add_type_outcome(
            add_type_outcome(types, Type::Record { module, name })->0,
            Type::Object { module, name, imp },
        ) is None,
{
    let rec = Type::Record { module, name };
    let t2 = add_type_outcome(types, rec)->0;
    let obj = Type::Object { module, name, imp };
    if known(types, rec) {
        let i = choose|i: int| 0 <= i < types.len() && type_eq(#[trigger] types[i], rec);
        assert(identity(t2[i]) == identity(obj) && !type_eq(t2[i], obj));
    } else {
        let i = types.len() as int;
        assert(t2[i] == rec);
        assert(identity(t2[i]) == identity(obj) && !type_eq(t2[i], obj));
    }
}

/// Items apply in the order given: a method before its object fails, since
/// its owner is not yet defined, while the object then the method succeeds
/// wherever the object alone would.
pub proof fn lemma_order_is_kept(
    types: Seq<Type>,
    defs: Seq<Definition>,
    object: Metadata,
    method: Metadata,
)
    requires
        object is Object,
        method is Method,
        method->Method_self_name@ == object->Object_name@,
        !owner_defined(defs, DefinitionKind::Method, object->Object_name@),
    ensures
        items_outcome(types, defs, seq![method, object]) is None,
        item_outcome(types, defs, object) is Some ==> items_outcome(
            types,
            defs,
            seq![object, method],
        ) is Some,
{
    let fwd = seq![object, method];
    let rev = seq![method, object];
    assert(rev.drop_last() =~= seq![method]);
    assert(seq![method].drop_last() =~= Seq::<Metadata>::empty());
    assert(fwd.drop_last() =~= seq![object]);
    assert(seq![object].drop_last() =~= Seq::<Metadata>::empty());
    assert(items_outcome(types, defs, Seq::empty()) == Some((types, defs)));
    assert(item_outcome(types, defs, method) is None);
    assert(items_outcome(types, defs, seq![method]) is None);
    if item_outcome(types, defs, object) is Some {
        let (t1, d1) = item_outcome(types, defs, object)->0;
        assert(items_outcome(types, defs, seq![object]) == Some((t1, d1)));
        let od = item_definition(object)->0;
        let md = item_definition(method)->0;
        assert(!defined(defs, od)) by {
            if defined(defs, od) {
                let i = choose|i: int|
                    0 <= i < defs.len() && (#[trigger] defs[i]).kind == od.kind && same_owner(
                        defs[i].owner,
                        od.owner,
                    ) && defs[i].name@ == od.name@;
                assert(owner_fits(DefinitionKind::Method, defs[i]));
            }
        }
        assert(d1[defs.len() as int] == od);
        assert(owner_fits(DefinitionKind::Method, d1[defs.len() as int]));
        assert(owner_defined(d1, md.kind, md.owner->0@));
        assert(item_outcome(t1, d1, method) is Some);
    }
}

} // verus!
