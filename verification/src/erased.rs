//! The boundary to `std::any` and `std::cell`.
//!
//! A component's value is kept type-erased in a `RefCell`, which hands out
//! shared and exclusive guards and refuses the ones that would alias. Nothing
//! in this file is proved: it declares the types that the store holds, names
//! the runtime type of what a cell and a guard hold, the cell that a guard
//! was taken from and the value that a guard leads to, and states what the
//! calls into `std` do to them. Three of the names have a type parameter:
//! `type_tag`, `shared_value` and `exclusive_value`. They are written with a
//! body that fixes nothing, and are believed like the others.
//!
//! The value of a cell is written only through `exclusive_downcast_mut`, as a
//! `&mut T` to a value that already is a `T`. So the runtime type of what a
//! cell holds is the one it was made with, for as long as the cell lives.

use std::any::{Any, TypeId};
use std::cell::{BorrowError, BorrowMutError, RefCell};
use std::marker::PhantomData;
use vstd::prelude::*;

verus! {

/// `std::any::TypeId`: the identifier that the runtime gives a type.
#[verifier::external_type_specification]
#[verifier::external_body]
pub struct ExTypeId(TypeId);

/// `std::cell::RefCell`: a value with borrow rules that are checked when
/// the program runs.
#[verifier::external_type_specification]
#[verifier::external_body]
#[verifier::reject_recursive_types(T)]
pub struct ExRefCell<T: ?Sized>(RefCell<T>);

/// `std::cell::Ref`: a shared guard of a `RefCell`.
#[verifier::external_type_specification]
#[verifier::external_body]
#[verifier::reject_recursive_types(T)]
pub struct ExCellRef<'b, T: ?Sized>(std::cell::Ref<'b, T>);

/// `std::cell::RefMut`: the exclusive guard of a `RefCell`.
#[verifier::external_type_specification]
#[verifier::external_body]
#[verifier::reject_recursive_types(T)]
pub struct ExCellRefMut<'b, T: ?Sized + 'b>(std::cell::RefMut<'b, T>);

/// `std::cell::BorrowError`: a shared guard was refused.
#[verifier::external_type_specification]
#[verifier::external_body]
pub struct ExBorrowError(BorrowError);

/// `std::cell::BorrowMutError`: the exclusive guard was refused.
#[verifier::external_type_specification]
#[verifier::external_body]
pub struct ExBorrowMutError(BorrowMutError);

/// A value of some `'static` type, boxed as `dyn Any`.
///
/// Verus has no declaration for `dyn Any`, so the box is hidden in this
/// struct; values of it exist only inside cells.
#[verifier::external_body]
pub struct Erased {
    inner: Box<dyn Any>,
}

/// The identifier of the type `T`: one fixed value for each type. Which
/// value it is stays open.
pub closed spec fn type_tag<T: 'static>() -> TypeId {
    arbitrary::<(TypeId, PhantomData<T>)>().0
}

/// The identifier of the runtime type of the value in a cell.
pub uninterp spec fn cell_tag(cell: RefCell<Erased>) -> TypeId;

/// The identifier of the runtime type of the value behind a shared guard.
pub uninterp spec fn shared_tag(guard: std::cell::Ref<Erased>) -> TypeId;

/// The identifier of the runtime type of the value behind an exclusive guard.
pub uninterp spec fn exclusive_tag(guard: std::cell::RefMut<Erased>) -> TypeId;

/// The cell that a shared guard was taken from.
pub uninterp spec fn shared_cell(guard: std::cell::Ref<Erased>) -> RefCell<Erased>;

/// The cell that an exclusive guard was taken from.
pub uninterp spec fn exclusive_cell(guard: std::cell::RefMut<Erased>) -> RefCell<Erased>;

/// The value behind a shared guard, seen as a `T`: one value for each
/// guard. It is the value that the guard leads to where that value's runtime
/// type is `T`, and stays open where it is not.
pub closed spec fn shared_value<T: 'static>(guard: std::cell::Ref<Erased>) -> T {
    arbitrary::<spec_fn(std::cell::Ref<Erased>) -> T>()(guard)
}

/// The value behind an exclusive guard, seen as a `T`: one value for each
/// state of the guard. It is the value that the guard leads to where that
/// value's runtime type is `T`, and stays open where it is not.
pub closed spec fn exclusive_value<T: 'static>(guard: std::cell::RefMut<Erased>) -> T {
    arbitrary::<spec_fn(std::cell::RefMut<Erased>) -> T>()(guard)
}

/// `TypeId::of::<T>()`. The contract claims that the call gives the one
/// identifier of `T`, the same at every call.
#[verifier::external_body]
pub(crate) fn type_id_of<T: 'static>() -> (tag: TypeId)
    ensures
        tag == type_tag::<T>(),
{
    TypeId::of::<T>()
}

/// `TypeId`'s `==`. The contract claims that it holds of two identifiers
/// exactly when they are the same identifier.
#[verifier::external_body]
pub(crate) fn same_type(a: &TypeId, b: &TypeId) -> (same: bool)
    ensures
        same == (*a == *b),
{
    a == b
}

/// `RefCell::new` on the boxed value. The contract claims that the new cell
/// holds a value of runtime type `T`.
#[verifier::external_body]
pub(crate) fn new_cell<T: 'static>(value: T) -> (cell: RefCell<Erased>)
    ensures
        cell_tag(cell) == type_tag::<T>(),
{
    RefCell::new(Erased { inner: Box::new(value) })
}

/// `RefCell::try_borrow`. Whether the guard is granted depends on the
/// guards alive at the call, of which the contract says nothing; it claims
/// that a granted guard is a guard of this cell and leads to its value, so
/// to a value of the cell's runtime type.
#[verifier::external_body]
pub(crate) fn try_borrow<'a>(cell: &'a RefCell<Erased>) -> (attempt: Result<
    std::cell::Ref<'a, Erased>,
    BorrowError,
>)
    ensures
        attempt matches Ok(guard) ==> shared_tag(guard) == cell_tag(*cell),
        attempt matches Ok(guard) ==> shared_cell(guard) == *cell,
{
    cell.try_borrow()
}

/// `RefCell::try_borrow_mut`. Whether the guard is granted depends on the
/// guards alive at the call, of which the contract says nothing; it claims
/// that a granted guard is a guard of this cell and leads to its value, so
/// to a value of the cell's runtime type.
#[verifier::external_body]
pub(crate) fn try_borrow_mut<'a>(cell: &'a RefCell<Erased>) -> (attempt: Result<
    std::cell::RefMut<'a, Erased>,
    BorrowMutError,
>)
    ensures
        attempt matches Ok(guard) ==> exclusive_tag(guard) == cell_tag(*cell),
        attempt matches Ok(guard) ==> exclusive_cell(guard) == *cell,
{
    cell.try_borrow_mut()
}

/// `<dyn Any>::downcast_ref::<T>` on the value behind a shared guard. The
/// contract claims that it gives a reference exactly when the value's
/// runtime type is `T`, and that the reference is to the value that the
/// guard leads to, which is one and the same for as long as the guard lives.
#[verifier::external_body]
pub(crate) fn shared_downcast<'g, 'a, T: 'static>(guard: &'g std::cell::Ref<'a, Erased>) -> (value:
    Option<&'g T>)
    ensures
        value.is_some() == (shared_tag(*guard) == type_tag::<T>()),
        value matches Some(inner) ==> *inner == shared_value::<T>(*guard),
{
    guard.inner.downcast_ref::<T>()
}

/// `<dyn Any>::downcast_ref::<T>` on the value behind an exclusive guard.
/// The contract claims that it gives a reference exactly when the value's
/// runtime type is `T`, and that the reference is to the value that the
/// guard leads to at the call.
#[verifier::external_body]
pub(crate) fn exclusive_downcast<'g, 'a, T: 'static>(
    guard: &'g std::cell::RefMut<'a, Erased>,
) -> (value: Option<&'g T>)
    ensures
        value.is_some() == (exclusive_tag(*guard) == type_tag::<T>()),
        value matches Some(inner) ==> *inner == exclusive_value::<T>(*guard),
{
    guard.inner.downcast_ref::<T>()
}

/// `<dyn Any>::downcast_mut::<T>` on the value behind an exclusive guard.
/// The contract claims that it gives a reference exactly when the value's
/// runtime type is `T`; that the reference is to the value that the guard
/// leads to, so that what is written through it is what the guard leads to
/// afterwards; and that writing a `T` there leaves the runtime type as it
/// is and the guard a guard of the cell it was taken from. The call does
/// not unwind.
#[verifier::external_body]
pub(crate) fn exclusive_downcast_mut<'g, 'a, T: 'static>(
    guard: &'g mut std::cell::RefMut<'a, Erased>,
) -> (value: Option<&'g mut T>)
    ensures
        value.is_some() == (exclusive_tag(*old(guard)) == type_tag::<T>()),
        exclusive_tag(*final(guard)) == exclusive_tag(*old(guard)),
        exclusive_cell(*final(guard)) == exclusive_cell(*old(guard)),
        value matches Some(inner) ==> *inner == exclusive_value::<T>(*old(guard)) && *final(inner)
            == exclusive_value::<T>(*final(guard)),
    no_unwind
{
    guard.inner.downcast_mut::<T>()
}

} // verus!
