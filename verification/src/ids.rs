//! Opaque integer identifiers used throughout the IRs.

use vstd::prelude::*;

verus! {

/// Identifier wrapping a raw `u32` index.
#[derive(Debug, Clone, Copy, PartialEq, Eq, Structural, Hash, PartialOrd, Ord)]
pub struct TypeId(pub u32);

impl TypeId {
    /// Builds the identifier from its raw index.
    pub fn from_raw(raw: u32) -> (id: Self)
        ensures
            id.0 == raw,
    {
        TypeId(raw)
    }

    /// The raw index of the identifier.
    pub fn raw(self) -> (raw: u32)
        ensures
            raw == self.0,
    {
        self.0
    }
}

impl From<u32> for TypeId {
    fn from(raw: u32) -> (id: Self) {
        TypeId(raw)
    }
}

impl vstd::std_specs::convert::FromSpecImpl<u32> for TypeId {
    open spec fn obeys_from_spec() -> bool {
        true
    }

    open spec fn from_spec(raw: u32) -> Self {
        TypeId(raw)
    }
}

impl From<TypeId> for u32 {
    fn from(id: TypeId) -> (raw: u32) {
        id.0
    }
}

impl vstd::std_specs::convert::FromSpecImpl<TypeId> for u32 {
    open spec fn obeys_from_spec() -> bool {
        true
    }

    open spec fn from_spec(id: TypeId) -> u32 {
        id.0
    }
}

/// Identifier wrapping a raw `u32` index.
#[derive(Debug, Clone, Copy, PartialEq, Eq, Structural, Hash, PartialOrd, Ord)]
pub struct StructId(pub u32);

impl StructId {
    /// Builds the identifier from its raw index.
    pub fn from_raw(raw: u32) -> (id: Self)
        ensures
            id.0 == raw,
    {
        StructId(raw)
    }

    /// The raw index of the identifier.
    pub fn raw(self) -> (raw: u32)
        ensures
            raw == self.0,
    {
        self.0
    }
}

impl From<u32> for StructId {
    fn from(raw: u32) -> (id: Self) {
        StructId(raw)
    }
}

impl vstd::std_specs::convert::FromSpecImpl<u32> for StructId {
    open spec fn obeys_from_spec() -> bool {
        true
    }

    open spec fn from_spec(raw: u32) -> Self {
        StructId(raw)
    }
}

impl From<StructId> for u32 {
    fn from(id: StructId) -> (raw: u32) {
        id.0
    }
}

impl vstd::std_specs::convert::FromSpecImpl<StructId> for u32 {
    open spec fn obeys_from_spec() -> bool {
        true
    }

    open spec fn from_spec(id: StructId) -> u32 {
        id.0
    }
}

/// Identifier wrapping a raw `u32` index.
#[derive(Debug, Clone, Copy, PartialEq, Eq, Structural, Hash, PartialOrd, Ord)]
pub struct FunctionId(pub u32);

impl FunctionId {
    /// Builds the identifier from its raw index.
    pub fn from_raw(raw: u32) -> (id: Self)
        ensures
            id.0 == raw,
    {
        FunctionId(raw)
    }

    /// The raw index of the identifier.
    pub fn raw(self) -> (raw: u32)
        ensures
            raw == self.0,
    {
        self.0
    }
}

impl From<u32> for FunctionId {
    fn from(raw: u32) -> (id: Self) {
        FunctionId(raw)
    }
}

impl vstd::std_specs::convert::FromSpecImpl<u32> for FunctionId {
    open spec fn obeys_from_spec() -> bool {
        true
    }

    open spec fn from_spec(raw: u32) -> Self {
        FunctionId(raw)
    }
}

impl From<FunctionId> for u32 {
    fn from(id: FunctionId) -> (raw: u32) {
        id.0
    }
}

impl vstd::std_specs::convert::FromSpecImpl<FunctionId> for u32 {
    open spec fn obeys_from_spec() -> bool {
        true
    }

    open spec fn from_spec(id: FunctionId) -> u32 {
        id.0
    }
}

/// Identifier wrapping a raw `u32` index.
#[derive(Debug, Clone, Copy, PartialEq, Eq, Structural, Hash, PartialOrd, Ord)]
pub struct FieldId(pub u32);

impl FieldId {
    /// Builds the identifier from its raw index.
    pub fn from_raw(raw: u32) -> (id: Self)
        ensures
            id.0 == raw,
    {
        FieldId(raw)
    }

    /// The raw index of the identifier.
    pub fn raw(self) -> (raw: u32)
        ensures
            raw == self.0,
    {
        self.0
    }
}

impl From<u32> for FieldId {
    fn from(raw: u32) -> (id: Self) {
        FieldId(raw)
    }
}

impl vstd::std_specs::convert::FromSpecImpl<u32> for FieldId {
    open spec fn obeys_from_spec() -> bool {
        true
    }

    open spec fn from_spec(raw: u32) -> Self {
        FieldId(raw)
    }
}

impl From<FieldId> for u32 {
    fn from(id: FieldId) -> (raw: u32) {
        id.0
    }
}

impl vstd::std_specs::convert::FromSpecImpl<FieldId> for u32 {
    open spec fn obeys_from_spec() -> bool {
        true
    }

    open spec fn from_spec(id: FieldId) -> u32 {
        id.0
    }
}

/// Identifier wrapping a raw `u32` index.
#[derive(Debug, Clone, Copy, PartialEq, Eq, Structural, Hash, PartialOrd, Ord)]
pub struct LocalId(pub u32);

impl LocalId {
    /// Builds the identifier from its raw index.
    pub fn from_raw(raw: u32) -> (id: Self)
        ensures
            id.0 == raw,
    {
        LocalId(raw)
    }

    /// The raw index of the identifier.
    pub fn raw(self) -> (raw: u32)
        ensures
            raw == self.0,
    {
        self.0
    }
}

impl From<u32> for LocalId {
    fn from(raw: u32) -> (id: Self) {
        LocalId(raw)
    }
}

impl vstd::std_specs::convert::FromSpecImpl<u32> for LocalId {
    open spec fn obeys_from_spec() -> bool {
        true
    }

    open spec fn from_spec(raw: u32) -> Self {
        LocalId(raw)
    }
}

impl From<LocalId> for u32 {
    fn from(id: LocalId) -> (raw: u32) {
        id.0
    }
}

impl vstd::std_specs::convert::FromSpecImpl<LocalId> for u32 {
    open spec fn obeys_from_spec() -> bool {
        true
    }

    open spec fn from_spec(id: LocalId) -> u32 {
        id.0
    }
}

/// Identifier wrapping a raw `u32` index.
#[derive(Debug, Clone, Copy, PartialEq, Eq, Structural, Hash, PartialOrd, Ord)]
pub struct SymbolId(pub u32);

impl SymbolId {
    /// Builds the identifier from its raw index.
    pub fn from_raw(raw: u32) -> (id: Self)
        ensures
            id.0 == raw,
    {
        SymbolId(raw)
    }

    /// The raw index of the identifier.
    pub fn raw(self) -> (raw: u32)
        ensures
            raw == self.0,
    {
        self.0
    }
}

impl From<u32> for SymbolId {
    fn from(raw: u32) -> (id: Self) {
        SymbolId(raw)
    }
}

impl vstd::std_specs::convert::FromSpecImpl<u32> for SymbolId {
    open spec fn obeys_from_spec() -> bool {
        true
    }

    open spec fn from_spec(raw: u32) -> Self {
        SymbolId(raw)
    }
}

impl From<SymbolId> for u32 {
    fn from(id: SymbolId) -> (raw: u32) {
        id.0
    }
}

impl vstd::std_specs::convert::FromSpecImpl<SymbolId> for u32 {
    open spec fn obeys_from_spec() -> bool {
        true
    }

    open spec fn from_spec(id: SymbolId) -> u32 {
        id.0
    }
}

/// Identifier wrapping a raw `u32` index.
#[derive(Debug, Clone, Copy, PartialEq, Eq, Structural, Hash, PartialOrd, Ord)]
pub struct StringId(pub u32);

impl StringId {
    /// Builds the identifier from its raw index.
    pub fn from_raw(raw: u32) -> (id: Self)
        ensures
            id.0 == raw,
    {
        StringId(raw)
    }

    /// The raw index of the identifier.
    pub fn raw(self) -> (raw: u32)
        ensures
            raw == self.0,
    {
        self.0
    }
}

impl From<u32> for StringId {
    fn from(raw: u32) -> (id: Self) {
        StringId(raw)
    }
}

impl vstd::std_specs::convert::FromSpecImpl<u32> for StringId {
    open spec fn obeys_from_spec() -> bool {
        true
    }

    open spec fn from_spec(raw: u32) -> Self {
        StringId(raw)
    }
}

impl From<StringId> for u32 {
    fn from(id: StringId) -> (raw: u32) {
        id.0
    }
}

impl vstd::std_specs::convert::FromSpecImpl<StringId> for u32 {
    open spec fn obeys_from_spec() -> bool {
        true
    }

    open spec fn from_spec(id: StringId) -> u32 {
        id.0
    }
}

/// Identifier wrapping a raw `u32` index.
#[derive(Debug, Clone, Copy, PartialEq, Eq, Structural, Hash, PartialOrd, Ord)]
pub struct UnionId(pub u32);

impl UnionId {
    /// Builds the identifier from its raw index.
    pub fn from_raw(raw: u32) -> (id: Self)
        ensures
            id.0 == raw,
    {
        UnionId(raw)
    }

    /// The raw index of the identifier.
    pub fn raw(self) -> (raw: u32)
        ensures
            raw == self.0,
    {
        self.0
    }
}

impl From<u32> for UnionId {
    fn from(raw: u32) -> (id: Self) {
        UnionId(raw)
    }
}

impl vstd::std_specs::convert::FromSpecImpl<u32> for UnionId {
    open spec fn obeys_from_spec() -> bool {
        true
    }

    open spec fn from_spec(raw: u32) -> Self {
        UnionId(raw)
    }
}

impl From<UnionId> for u32 {
    fn from(id: UnionId) -> (raw: u32) {
        id.0
    }
}

impl vstd::std_specs::convert::FromSpecImpl<UnionId> for u32 {
    open spec fn obeys_from_spec() -> bool {
        true
    }

    open spec fn from_spec(id: UnionId) -> u32 {
        id.0
    }
}

/// Identifier wrapping a raw `u32` index.
#[derive(Debug, Clone, Copy, PartialEq, Eq, Structural, Hash, PartialOrd, Ord)]
pub struct EnumId(pub u32);

impl EnumId {
    /// Builds the identifier from its raw index.
    pub fn from_raw(raw: u32) -> (id: Self)
        ensures
            id.0 == raw,
    {
        EnumId(raw)
    }

    /// The raw index of the identifier.
    pub fn raw(self) -> (raw: u32)
        ensures
            raw == self.0,
    {
        self.0
    }
}

impl From<u32> for EnumId {
    fn from(raw: u32) -> (id: Self) {
        EnumId(raw)
    }
}

impl vstd::std_specs::convert::FromSpecImpl<u32> for EnumId {
    open spec fn obeys_from_spec() -> bool {
        true
    }

    open spec fn from_spec(raw: u32) -> Self {
        EnumId(raw)
    }
}

impl From<EnumId> for u32 {
    fn from(id: EnumId) -> (raw: u32) {
        id.0
    }
}

impl vstd::std_specs::convert::FromSpecImpl<EnumId> for u32 {
    open spec fn obeys_from_spec() -> bool {
        true
    }

    open spec fn from_spec(id: EnumId) -> u32 {
        id.0
    }
}

/// Identifier wrapping a raw `u32` index.
#[derive(Debug, Clone, Copy, PartialEq, Eq, Structural, Hash, PartialOrd, Ord)]
pub struct VariantId(pub u32);

impl VariantId {
    /// Builds the identifier from its raw index.
    pub fn from_raw(raw: u32) -> (id: Self)
        ensures
            id.0 == raw,
    {
        VariantId(raw)
    }

    /// The raw index of the identifier.
    pub fn raw(self) -> (raw: u32)
        ensures
            raw == self.0,
    {
        self.0
    }
}

impl From<u32> for VariantId {
    fn from(raw: u32) -> (id: Self) {
        VariantId(raw)
    }
}

impl vstd::std_specs::convert::FromSpecImpl<u32> for VariantId {
    open spec fn obeys_from_spec() -> bool {
        true
    }

    open spec fn from_spec(raw: u32) -> Self {
        VariantId(raw)
    }
}

impl From<VariantId> for u32 {
    fn from(id: VariantId) -> (raw: u32) {
        id.0
    }
}

impl vstd::std_specs::convert::FromSpecImpl<VariantId> for u32 {
    open spec fn obeys_from_spec() -> bool {
        true
    }

    open spec fn from_spec(id: VariantId) -> u32 {
        id.0
    }
}

/// Identifier wrapping a raw `u32` index.
#[derive(Debug, Clone, Copy, PartialEq, Eq, Structural, Hash, PartialOrd, Ord)]
pub struct ModuleId(pub u32);

impl ModuleId {
    /// Builds the identifier from its raw index.
    pub fn from_raw(raw: u32) -> (id: Self)
        ensures
            id.0 == raw,
    {
        ModuleId(raw)
    }

    /// The raw index of the identifier.
    pub fn raw(self) -> (raw: u32)
        ensures
            raw == self.0,
    {
        self.0
    }
}

impl From<u32> for ModuleId {
    fn from(raw: u32) -> (id: Self) {
        ModuleId(raw)
    }
}

impl vstd::std_specs::convert::FromSpecImpl<u32> for ModuleId {
    open spec fn obeys_from_spec() -> bool {
        true
    }

    open spec fn from_spec(raw: u32) -> Self {
        ModuleId(raw)
    }
}

impl From<ModuleId> for u32 {
    fn from(id: ModuleId) -> (raw: u32) {
        id.0
    }
}

impl vstd::std_specs::convert::FromSpecImpl<ModuleId> for u32 {
    open spec fn obeys_from_spec() -> bool {
        true
    }

    open spec fn from_spec(id: ModuleId) -> u32 {
        id.0
    }
}

/// Identifier wrapping a raw `u32` index.
#[derive(Debug, Clone, Copy, PartialEq, Eq, Structural, Hash, PartialOrd, Ord)]
pub struct AwaitPointId(pub u32);

impl AwaitPointId {
    /// Builds the identifier from its raw index.
    pub fn from_raw(raw: u32) -> (id: Self)
        ensures
            id.0 == raw,
    {
        AwaitPointId(raw)
    }

    /// The raw index of the identifier.
    pub fn raw(self) -> (raw: u32)
        ensures
            raw == self.0,
    {
        self.0
    }
}

impl From<u32> for AwaitPointId {
    fn from(raw: u32) -> (id: Self) {
        AwaitPointId(raw)
    }
}

impl vstd::std_specs::convert::FromSpecImpl<u32> for AwaitPointId {
    open spec fn obeys_from_spec() -> bool {
        true
    }

    open spec fn from_spec(raw: u32) -> Self {
        AwaitPointId(raw)
    }
}

impl From<AwaitPointId> for u32 {
    fn from(id: AwaitPointId) -> (raw: u32) {
        id.0
    }
}

impl vstd::std_specs::convert::FromSpecImpl<AwaitPointId> for u32 {
    open spec fn obeys_from_spec() -> bool {
        true
    }

    open spec fn from_spec(id: AwaitPointId) -> u32 {
        id.0
    }
}

/// Identifier wrapping a raw `u32` index.
#[derive(Debug, Clone, Copy, PartialEq, Eq, Structural, Hash, PartialOrd, Ord)]
pub struct ClosureId(pub u32);

impl ClosureId {
    /// Builds the identifier from its raw index.
    pub fn from_raw(raw: u32) -> (id: Self)
        ensures
            id.0 == raw,
    {
        ClosureId(raw)
    }

    /// The raw index of the identifier.
    pub fn raw(self) -> (raw: u32)
        ensures
            raw == self.0,
    {
        self.0
    }
}

impl From<u32> for ClosureId {
    fn from(raw: u32) -> (id: Self) {
        ClosureId(raw)
    }
}

impl vstd::std_specs::convert::FromSpecImpl<u32> for ClosureId {
    open spec fn obeys_from_spec() -> bool {
        true
    }

    open spec fn from_spec(raw: u32) -> Self {
        ClosureId(raw)
    }
}

impl From<ClosureId> for u32 {
    fn from(id: ClosureId) -> (raw: u32) {
        id.0
    }
}

impl vstd::std_specs::convert::FromSpecImpl<ClosureId> for u32 {
    open spec fn obeys_from_spec() -> bool {
        true
    }

    open spec fn from_spec(id: ClosureId) -> u32 {
        id.0
    }
}

/// Identifier wrapping a raw `u32` index.
#[derive(Debug, Clone, Copy, PartialEq, Eq, Structural, Hash, PartialOrd, Ord)]
pub struct AsyncTaskId(pub u32);

impl AsyncTaskId {
    /// Builds the identifier from its raw index.
    pub fn from_raw(raw: u32) -> (id: Self)
        ensures
            id.0 == raw,
    {
        AsyncTaskId(raw)
    }

    /// The raw index of the identifier.
    pub fn raw(self) -> (raw: u32)
        ensures
            raw == self.0,
    {
        self.0
    }
}

impl From<u32> for AsyncTaskId {
    fn from(raw: u32) -> (id: Self) {
        AsyncTaskId(raw)
    }
}

impl vstd::std_specs::convert::FromSpecImpl<u32> for AsyncTaskId {
    open spec fn obeys_from_spec() -> bool {
        true
    }

    open spec fn from_spec(raw: u32) -> Self {
        AsyncTaskId(raw)
    }
}

impl From<AsyncTaskId> for u32 {
    fn from(id: AsyncTaskId) -> (raw: u32) {
        id.0
    }
}

impl vstd::std_specs::convert::FromSpecImpl<AsyncTaskId> for u32 {
    open spec fn obeys_from_spec() -> bool {
        true
    }

    open spec fn from_spec(id: AsyncTaskId) -> u32 {
        id.0
    }
}

/// Identifier wrapping a raw `u32` index.
#[derive(Debug, Clone, Copy, PartialEq, Eq, Structural, Hash, PartialOrd, Ord)]
pub struct ErrorId(pub u32);

impl ErrorId {
    /// Builds the identifier from its raw index.
    pub fn from_raw(raw: u32) -> (id: Self)
        ensures
            id.0 == raw,
    {
        ErrorId(raw)
    }

    /// The raw index of the identifier.
    pub fn raw(self) -> (raw: u32)
        ensures
            raw == self.0,
    {
        self.0
    }
}

impl From<u32> for ErrorId {
    fn from(raw: u32) -> (id: Self) {
        ErrorId(raw)
    }
}

impl vstd::std_specs::convert::FromSpecImpl<u32> for ErrorId {
    open spec fn obeys_from_spec() -> bool {
        true
    }

    open spec fn from_spec(raw: u32) -> Self {
        ErrorId(raw)
    }
}

impl From<ErrorId> for u32 {
    fn from(id: ErrorId) -> (raw: u32) {
        id.0
    }
}

impl vstd::std_specs::convert::FromSpecImpl<ErrorId> for u32 {
    open spec fn obeys_from_spec() -> bool {
        true
    }

    open spec fn from_spec(id: ErrorId) -> u32 {
        id.0
    }
}

/// Identifier wrapping a raw `u32` index.
#[derive(Debug, Clone, Copy, PartialEq, Eq, Structural, Hash, PartialOrd, Ord)]
pub struct GenericParamId(pub u32);

impl GenericParamId {
    /// Builds the identifier from its raw index.
    pub fn from_raw(raw: u32) -> (id: Self)
        ensures
            id.0 == raw,
    {
        GenericParamId(raw)
    }

    /// The raw index of the identifier.
    pub fn raw(self) -> (raw: u32)
        ensures
            raw == self.0,
    {
        self.0
    }
}

impl From<u32> for GenericParamId {
    fn from(raw: u32) -> (id: Self) {
        GenericParamId(raw)
    }
}

impl vstd::std_specs::convert::FromSpecImpl<u32> for GenericParamId {
    open spec fn obeys_from_spec() -> bool {
        true
    }

    open spec fn from_spec(raw: u32) -> Self {
        GenericParamId(raw)
    }
}

impl From<GenericParamId> for u32 {
    fn from(id: GenericParamId) -> (raw: u32) {
        id.0
    }
}

impl vstd::std_specs::convert::FromSpecImpl<GenericParamId> for u32 {
    open spec fn obeys_from_spec() -> bool {
        true
    }

    open spec fn from_spec(id: GenericParamId) -> u32 {
        id.0
    }
}

} // verus!
