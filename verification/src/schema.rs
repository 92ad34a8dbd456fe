//! Type schemas: what the caller knows of the shape of the typed value that
//! a JSON value stands for.

use vstd::prelude::*;

verus! {

/// The structural kind of a type. A list or an array names the type of its
/// items by that type's place in the registry.
#[derive(Debug, Clone, Copy, PartialEq, Eq, Structural)]
pub enum TypeKind {
    Struct,
    TupleStruct,
    Tuple,
    List { item: usize },
    Array { item: usize },
    KeyValueMap,
    ValueSet,
    Enum,
    Opaque,
}

/// The description of one type: its path, for diagnostics, and its kind.
#[derive(Debug, Clone, PartialEq)]
pub struct TypeInfo {
    pub type_path: String,
    pub kind: TypeKind,
}

/// The types that a conversion may refer to. A type is named by its place
/// in `types`.
#[derive(Debug, Clone, PartialEq)]
pub struct TypeRegistry {
    pub types: Vec<TypeInfo>,
}

impl TypeKind {
    /// The type of the items, for a list or an array.
    pub open spec fn item_type(self) -> Option<usize> {
        match self {
            TypeKind::List { item } => Some(item),
            TypeKind::Array { item } => Some(item),
            _ => None,
        }
    }
}

impl TypeInfo {
    /// Describes a type.
    pub fn new(type_path: &str, kind: TypeKind) -> (info: TypeInfo)
        ensures
            info.type_path@ == type_path@,
            info.kind == kind,
    {
        TypeInfo { type_path: type_path.to_owned(), kind }
    }

    /// The type of the items, for a list or an array.
    pub fn item_type(&self) -> (item: Option<usize>)
        ensures
            item == self.kind.item_type(),
    {
        match self.kind {
            TypeKind::List { item } => Some(item),
            TypeKind::Array { item } => Some(item),
            _ => None,
        }
    }
}

impl TypeRegistry {
    /// Whether every type that `info` refers to is registered.
    pub open spec fn resolves(&self, info: &TypeInfo) -> bool {
        match info.kind.item_type() {
            Some(item) => item < self.types.len(),
            None => true,
        }
    }

    /// Whether the registry is complete: every type that a registered type
    /// refers to is registered too.
    pub open spec fn is_complete(&self) -> bool {
        forall|id: int| 0 <= id < self.types.len() ==> self.resolves(#[trigger] &self.types[id])
    }

    /// A registry without types.
    pub fn new() -> (registry: TypeRegistry)
        ensures
            registry.types@.len() == 0,
            registry.is_complete(),
    {
        TypeRegistry { types: Vec::new() }
    }

    /// Registers `info` and returns the place that names it from now on.
    pub fn register(&mut self, info: TypeInfo) -> (id: usize)
        ensures
            id == old(self).types.len(),
            final(self).types@ == old(self).types@.push(info),
    {
        let id = self.types.len();
        self.types.push(info);
        id
    }

    /// The description of the type at `id`, if one is registered there.
    pub fn get(&self, id: usize) -> (info: Option<&TypeInfo>)
        ensures
            id < self.types.len() ==> info == Some(&self.types[id as int]),
            id >= self.types.len() ==> info is None,
    {
        if id < self.types.len() {
            Some(&self.types[id])
        } else {
            None
        }
    }

    /// Tests whether every type that `info` refers to is registered.
    pub fn check_resolves(&self, info: &TypeInfo) -> (ok: bool)
        ensures
            ok == self.resolves(info),
    {
        match info.item_type() {
            Some(item) => item < self.types.len(),
            None => true,
        }
    }

    /// Tests whether the registry is complete.
    pub fn check_complete(&self) -> (ok: bool)
        ensures
            ok == self.is_complete(),
    {
        let mut id: usize = 0;
        while id < self.types.len()
            invariant
                id <= self.types.len(),
                forall|k: int| 0 <= k < id ==> self.resolves(#[trigger] &self.types[k]),
            decreases self.types.len() - id,
        {
            if !self.check_resolves(&self.types[id]) {
                return false;
            }
            id += 1;
        }
        true
    }
}

} // verus!
