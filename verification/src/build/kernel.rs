//! What the caller of a kernel has to know of it.
use vstd::prelude::*;

verus! {

/// What a kernel does with a buffer.
#[derive(Clone, Copy, Debug, PartialEq, Eq, Structural)]
pub enum KernelBufferAccess {
    Read,
    ReadWrite,
}

/// What a parameter of a kernel is: a type, or a value of the type.
#[derive(Debug, PartialEq, Eq)]
pub enum KernelParameterType<T> {
    Type,
    Value(T),
}

/// A parameter that is fixed when a kernel is created.
#[derive(Debug, PartialEq, Eq)]
pub struct KernelParameter<T> {
    pub name: T,
    pub ty: KernelParameterType<T>,
}

/// What an argument of a kernel is: a buffer, or a constant of the type.
#[derive(Debug, PartialEq, Eq)]
pub enum KernelArgumentType<T> {
    Buffer(KernelBufferAccess),
    Constant(T),
}

/// An argument that is given when a kernel is encoded.
#[derive(Debug, PartialEq, Eq)]
pub struct KernelArgument<T> {
    pub name: T,
    pub conditional: bool,
    pub ty: KernelArgumentType<T>,
}

impl DeepView for KernelParameter<String> {
    type V = KernelParameter<Seq<char>>;

    open spec fn deep_view(&self) -> KernelParameter<Seq<char>> {
        KernelParameter {
            name: self.name@,
            ty: match self.ty {
                KernelParameterType::Type => KernelParameterType::Type,
                KernelParameterType::Value(value) => KernelParameterType::Value(value@),
            },
        }
    }
}

impl DeepView for KernelArgument<String> {
    type V = KernelArgument<Seq<char>>;

    open spec fn deep_view(&self) -> KernelArgument<Seq<char>> {
        KernelArgument {
            name: self.name@,
            conditional: self.conditional,
            ty: match self.ty {
                KernelArgumentType::Buffer(access) => KernelArgumentType::Buffer(access),
                KernelArgumentType::Constant(constant) => KernelArgumentType::Constant(constant@),
            },
        }
    }
}

/// A kernel as its callers see it.
#[derive(Debug, PartialEq, Eq)]
pub struct Kernel {
    pub name: String,
    pub parameters: Vec<KernelParameter<String>>,
    pub arguments: Vec<KernelArgument<String>>,
}

/// What a [`Kernel`] holds.
#[verifier::ext_equal]
pub ghost struct KernelModel {
    pub name: Seq<char>,
    pub parameters: Seq<KernelParameter<Seq<char>>>,
    pub arguments: Seq<KernelArgument<Seq<char>>>,
}

impl DeepView for Kernel {
    type V = KernelModel;

    open spec fn deep_view(&self) -> KernelModel {
        KernelModel {
            name: self.name@,
            parameters: self.parameters.deep_view(),
            arguments: self.arguments.deep_view(),
        }
    }
}

} // verus!
