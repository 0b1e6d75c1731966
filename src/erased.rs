use std::any::Any;
use std::any::TypeId;
use vstd::prelude::*;

verus! {

#[verifier::external_type_specification]
#[verifier::external_body]
pub struct ExTypeId(TypeId);

/// Relies on `std::any::TypeId::of`: the identifier of the type `T`.
#[verifier::external_body]
pub(crate) fn type_id_of<T: ?Sized + 'static>() -> (r: TypeId) {
    TypeId::of::<T>()
}

/// Relies on `TypeId`'s `==`: two identifiers compare equal exactly when they are the same value.
#[verifier::external_body]
pub(crate) fn same_type(a: &TypeId, b: &TypeId) -> (r: bool)
    ensures
        r == (*a == *b),
{
    *a == *b
}

/// A value whose concrete type is erased and can be recovered by a checked cast.
///
/// Relies on `std::any::Any` (`Box<dyn Any>`, `downcast_ref`, `downcast_mut`), which
/// Verus cannot take as a type: the holder is kept opaque.
#[verifier::external_body]
pub struct ErasedValue {
    value: Box<dyn Any + Send + Sync>,
}

impl ErasedValue {
    /// Relies on the unsizing of `Box<T>` into `Box<dyn Any>`: the value is kept as it is.
    #[verifier::external_body]
    pub(crate) fn new<T: Send + Sync + 'static>(value: T) -> (r: ErasedValue) {
        ErasedValue { value: Box::new(value) }
    }

    /// Relies on `<dyn Any>::downcast_ref`: the held value when it is a `T`, else `None`.
    #[verifier::external_body]
    pub fn downcast_ref<T: 'static>(&self) -> (r: Option<&T>) {
        self.value.downcast_ref::<T>()
    }

    /// Relies on `<dyn Any>::downcast_mut`: the held value when it is a `T`, else `None`.
    #[verifier::external_body]
    pub fn downcast_mut<T: 'static>(&mut self) -> (r: Option<&mut T>) {
        self.value.downcast_mut::<T>()
    }
}

} // verus!
