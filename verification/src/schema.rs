use convert_case::Casing;
use vstd::prelude::*;

verus! {

/// A declarative wire type, as the schema compiler records it for each
/// parameter and return field of an endpoint.
pub enum Type {
    Date,
    Int,
    BigInt,
    Numeric,
    TimeStampMs,
    Struct { name: String, fields: Vec<Field> },
    StructRef(String),
    Object,
    DataTable { name: String, fields: Vec<Field> },
    List(Box<Type>),
    Unit,
    Optional(Box<Type>),
    Boolean,
    Text,
    Bytea,
    UUID,
    Inet,
    Enum { name: String, variants: Vec<EnumVariant> },
    EnumRef(String),
    BlockchainDecimal,
    BlockchainAddress,
    BlockchainTransactionHash,
}

/// A named field of a struct, parameter list or return list.
pub struct Field {
    pub name: String,
    pub ty: Type,
    pub description: String,
}

/// One variant of a declared enum: its symbolic name, numeric value and
/// documentation line.
pub struct EnumVariant {
    pub name: String,
    pub value: i64,
    pub comment: String,
}

/// Declarative description of one endpoint: its unique name and numeric
/// code, the ordered parameter and return field lists, an optional streaming
/// response type, a documentation line and the roles allowed to call it.
pub struct EndpointSchema {
    pub name: String,
    pub code: u32,
    pub parameters: Vec<Field>,
    pub returns: Vec<Field>,
    pub stream_response: Option<Type>,
    pub description: String,
    pub roles: Vec<String>,
}

/// What `convert_case` turns a name into under its camel-case rule; the
/// result depends on the characters of the name alone.
pub uninterp spec fn camel_of(s: Seq<char>) -> Seq<char>;

/// Relies on convert_case's `Casing::to_case` with the camel case: the wire
/// key of a schema field is the camel-cased field name.
#[verifier::external_body]
pub fn camel_case(s: &str) -> (r: String)
    ensures
        r@ == camel_of(s@),
{
    s.to_case(convert_case::Case::Camel)
}

impl Type {
    /// A field of this type may be absent from a request object.
    pub fn is_optional(&self) -> (r: bool)
        ensures
            r == (self is Optional),
    {
        match self {
            Type::Optional(_) => true,
            _ => false,
        }
    }
}

} // verus!
