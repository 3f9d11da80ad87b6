//! Type system.
use vstd::prelude::*;
use vstd::string::*;

verus! {

#[derive(Debug, Clone, Copy, PartialEq, Eq, Structural)]
pub struct TypeId(pub u32);

impl TypeId {
    // Important: The values of the built-in type identifiers must
    //            match the index in `init_type_table()`.
    pub open spec fn spec_void_id() -> TypeId {
        TypeId(0)
    }

    pub open spec fn spec_int_id() -> TypeId {
        TypeId(1)
    }

    pub open spec fn spec_float_id() -> TypeId {
        TypeId(2)
    }

    pub open spec fn spec_string_id() -> TypeId {
        TypeId(3)
    }

    /// The identifier of [`Type::Void`].
    #[verifier::when_used_as_spec(spec_void_id)]
    pub fn void_id() -> (id: TypeId)
        ensures
            id == Self::spec_void_id(),
    {
        TypeId(0)
    }

    /// The identifier of [`Type::Int`].
    #[verifier::when_used_as_spec(spec_int_id)]
    pub fn int_id() -> (id: TypeId)
        ensures
            id == Self::spec_int_id(),
    {
        TypeId(1)
    }

    /// The identifier of [`Type::Float`].
    #[verifier::when_used_as_spec(spec_float_id)]
    pub fn float_id() -> (id: TypeId)
        ensures
            id == Self::spec_float_id(),
    {
        TypeId(2)
    }

    /// The identifier of [`Type::String`].
    #[verifier::when_used_as_spec(spec_string_id)]
    pub fn string_id() -> (id: TypeId)
        ensures
            id == Self::spec_string_id(),
    {
        TypeId(3)
    }
}

#[derive(Debug, PartialEq, Eq)]
pub enum Type {
    /// The "unit" type returned by functions with no return value.
    ///
    /// It is a type error to assign [`Type::Void`] to a variable.
    /// A block or function that returns void must have its value discarded.
    Void,
    Int,
    Float,
    String,
    /// List of types for when multiple values are returned from a block,
    /// or function.
    Tuple(Vec<TypeId>),
    Array(TypeId),
    /// Hash table.
    Table(TypeId, TypeId),
    /// Type of both the closure value and the function prototype.
    Func { args: Vec<TypeId>, retunr_: TypeId },
    Struct { fields: Vec<()> },
}

impl Default for TypeId {
    fn default() -> (id: Self)
        ensures
            id == TypeId::spec_void_id(),
    {
        TypeId::void_id()
    }
}

impl Type {
    /// The name of the kind of type, as it prints.
    pub fn to_string(&self) -> (name: String)
        ensures
            name@ == (match *self {
                Type::Void => "Void"@,
                Type::Int => "Int"@,
                Type::Float => "Float"@,
                Type::String => "String"@,
                Type::Tuple(_) => "Tuple"@,
                Type::Array(_) => "Array"@,
                Type::Table(_, _) => "Table"@,
                Type::Func { .. } => "Func"@,
                Type::Struct { .. } => "Struct"@,
            }),
    {
        let name = match self {
            Type::Void => "Void",
            Type::Int => "Int",
            Type::Float => "Float",
            Type::String => "String",
            Type::Tuple(_) => "Tuple",
            Type::Array(_) => "Array",
            Type::Table(_, _) => "Table",
            Type::Func { .. } => "Func",
            Type::Struct { .. } => "Struct",
        };
        String::from_str(name)
    }
}

/// Initialiase the table of types, with the built in types in their proper positions.
pub fn init_type_table() -> (table: Vec<Type>)
    ensures
        table@ == seq![Type::Void, Type::Int, Type::Float, Type::String],
        table@[TypeId::spec_void_id().0 as int] == Type::Void,
        table@[TypeId::spec_int_id().0 as int] == Type::Int,
        table@[TypeId::spec_float_id().0 as int] == Type::Float,
        table@[TypeId::spec_string_id().0 as int] == Type::String,
{
    let mut table = Vec::new();
    table.push(Type::Void);
    table.push(Type::Int);
    table.push(Type::Float);
    table.push(Type::String);
    assert(table@ =~= seq![Type::Void, Type::Int, Type::Float, Type::String]);
    table
}

/// The names of the built-in types, each with its identifier, in the order
/// of the type table. No name occurs twice.
pub open spec fn built_in_aliases() -> Seq<(Seq<char>, TypeId)> {
    seq![
        ("Void"@, TypeId::spec_void_id()),
        ("Int"@, TypeId::spec_int_id()),
        ("Float"@, TypeId::spec_float_id()),
        ("String"@, TypeId::spec_string_id()),
    ]
}

/// The name and the identifier of each entry, in order.
pub open spec fn alias_views(aliases: Seq<(String, TypeId)>) -> Seq<(Seq<char>, TypeId)> {
    Seq::new(aliases.len(), |i: int| (aliases[i].0@, aliases[i].1))
}

pub fn init_type_aliases() -> (aliases: Vec<(String, TypeId)>)
    ensures
        alias_views(aliases@) == built_in_aliases(),
{
    let mut aliases = Vec::new();
    aliases.push((String::from_str("Void"), TypeId::void_id()));
    aliases.push((String::from_str("Int"), TypeId::int_id()));
    aliases.push((String::from_str("Float"), TypeId::float_id()));
    aliases.push((String::from_str("String"), TypeId::string_id()));
    assert(alias_views(aliases@) =~= built_in_aliases());
    aliases
}

} // verus!
