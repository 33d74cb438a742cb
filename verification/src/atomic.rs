//! Cells that hold one value and are read and written in indivisible steps.
//!
//! Every operation on a cell is one step: it reads the value, decides, and writes. The cells
//! are plain values, so a step needs the cell by `&mut`; a program that shares a cell among
//! threads keeps it behind a lock and takes one step per acquisition.

use core::cmp::Ordering;
use vstd::prelude::*;
use vstd::std_specs::cmp::{PartialEqSpec, PartialOrdSpec};
use vstd::std_specs::convert::FromSpecImpl;

verus! {

/// A cell that holds one value of type `T`.
pub trait Atomic<T: Clone + PartialEq>: Sized {
    /// The value that the cell holds.
    spec fn value(&self) -> T;

    /// A cell that holds `value`.
    fn new(value: T) -> (cell: Self)
        ensures
            cell.value() == value,
    ;

    /// A copy of the value.
    fn get(&self) -> (value: T)
        ensures
            cloned(self.value(), value),
    ;

    /// Puts `value` into the cell and returns the value that it held.
    fn set(&mut self, value: T) -> (previous: T)
        ensures
            previous == old(self).value(),
            final(self).value() == value,
    ;

    /// Puts `new` into the cell if it holds `current`, and leaves the cell as it is
    /// otherwise. Returns a copy of the value that the cell held.
    fn set_when(&mut self, current: T, new: T) -> (previous: T)
        ensures
            cloned(old(self).value(), previous),
            final(self).value() == new || final(self).value() == old(self).value(),
            T::obeys_eq_spec() ==> final(self).value() == (if old(self).value().eq_spec(&current) {
                new
            } else {
                old(self).value()
            }),
            exists|same: bool| #[trigger]
                call_ensures(T::eq, (&old(self).value(), &current), same) && final(self).value()
                    == (if same {
                    new
                } else {
                    old(self).value()
                }),
    ;

    /// Hands a copy of the value to `f`. If `f` returns a value, that is put into the cell;
    /// otherwise the cell stays as it is. Returns a copy of the value that the cell held.
    fn set_with<F: FnOnce(T) -> Option<T>>(&mut self, f: F) -> (previous: T)
        requires
            forall|given: T| cloned(old(self).value(), given) ==> #[trigger] call_requires(
                f,
                (given,),
            ),
        ensures
            cloned(old(self).value(), previous),
            exists|given: T, answer: Option<T>|
                {
                    &&& cloned(old(self).value(), given)
                    &&& #[trigger] call_ensures(f, (given,), answer)
                    &&& final(self).value() == match answer {
                        Some(new) => new,
                        None => old(self).value(),
                    }
                },
    ;

    /// Takes the value out of the cell.
    fn into_inner(self) -> (value: T)
        ensures
            value == self.value(),
    ;
}

/// A cell that holds a number.
pub trait AtomicNumber<T: Clone + PartialEq>: Atomic<T> {
    /// What [`add`](AtomicNumber::add) leaves in a cell that held `a`: the sum of `a` and
    /// `b`, wrapping around at the bounds of `T`.
    spec fn sum(a: T, b: T) -> T;

    /// What [`sub`](AtomicNumber::sub) leaves in a cell that held `a`: `a` less `b`,
    /// wrapping around at the bounds of `T`.
    spec fn difference(a: T, b: T) -> T;

    /// Adds `rhs` to the value, wrapping around on overflow, and returns the value that
    /// the cell held.
    fn add(&mut self, rhs: T) -> (previous: T)
        ensures
            previous == old(self).value(),
            final(self).value() == Self::sum(old(self).value(), rhs),
    ;

    /// Subtracts `rhs` from the value, wrapping around on overflow, and returns the value
    /// that the cell held.
    fn sub(&mut self, rhs: T) -> (previous: T)
        ensures
            previous == old(self).value(),
            final(self).value() == Self::difference(old(self).value(), rhs),
    ;
}

/// A cell that holds a `bool`.
#[derive(Debug)]
pub struct AtomicBool(bool);

impl Atomic<bool> for AtomicBool {
    closed spec fn value(&self) -> bool {
        self.0
    }

    fn new(value: bool) -> (cell: Self) {
        AtomicBool(value)
    }

    fn get(&self) -> (value: bool) {
        self.0
    }

    fn set(&mut self, value: bool) -> (previous: bool) {
        let previous = self.0;
        self.0 = value;
        previous
    }

    fn set_when(&mut self, current: bool, new: bool) -> (previous: bool) {
        let previous = self.0;
        if previous.eq(&current) {
            self.0 = new;
        }
        previous
    }

    fn set_with<F: FnOnce(bool) -> Option<bool>>(&mut self, f: F) -> (previous: bool) {
        let previous = self.0;
        if let Some(new) = f(previous) {
            self.0 = new;
        }
        previous
    }

    fn into_inner(self) -> (value: bool) {
        self.0
    }
}

impl Clone for AtomicBool {
    fn clone(&self) -> (cell: Self)
        ensures
            cell.value() == self.value(),
    {
        AtomicBool(self.0)
    }
}

impl Default for AtomicBool {
    fn default() -> (cell: Self)
        ensures
            cell.value() == false,
    {
        AtomicBool(false)
    }
}

impl From<bool> for AtomicBool {
    fn from(value: bool) -> (cell: Self)
        ensures
            cell.value() == value,
    {
        AtomicBool(value)
    }
}

impl FromSpecImpl<bool> for AtomicBool {
    open spec fn obeys_from_spec() -> bool {
        true
    }

    closed spec fn from_spec(value: bool) -> Self {
        AtomicBool(value)
    }
}

/// A cell that holds a `u32`.
#[derive(Debug)]
pub struct AtomicU32(u32);

impl Atomic<u32> for AtomicU32 {
    closed spec fn value(&self) -> u32 {
        self.0
    }

    fn new(value: u32) -> (cell: Self) {
        AtomicU32(value)
    }

    fn get(&self) -> (value: u32) {
        self.0
    }

    fn set(&mut self, value: u32) -> (previous: u32) {
        let previous = self.0;
        self.0 = value;
        previous
    }

    fn set_when(&mut self, current: u32, new: u32) -> (previous: u32) {
        let previous = self.0;
        if previous.eq(&current) {
            self.0 = new;
        }
        previous
    }

    fn set_with<F: FnOnce(u32) -> Option<u32>>(&mut self, f: F) -> (previous: u32) {
        let previous = self.0;
        if let Some(new) = f(previous) {
            self.0 = new;
        }
        previous
    }

    fn into_inner(self) -> (value: u32) {
        self.0
    }
}

impl AtomicNumber<u32> for AtomicU32 {
    open spec fn sum(a: u32, b: u32) -> u32 {
        a.wrapping_add(b)
    }

    open spec fn difference(a: u32, b: u32) -> u32 {
        a.wrapping_sub(b)
    }

    fn add(&mut self, rhs: u32) -> (previous: u32) {
        let previous = self.0;
        self.0 = previous.wrapping_add(rhs);
        previous
    }

    fn sub(&mut self, rhs: u32) -> (previous: u32) {
        let previous = self.0;
        self.0 = previous.wrapping_sub(rhs);
        previous
    }
}

impl Clone for AtomicU32 {
    fn clone(&self) -> (cell: Self)
        ensures
            cell.value() == self.value(),
    {
        AtomicU32(self.0)
    }
}

impl Default for AtomicU32 {
    fn default() -> (cell: Self)
        ensures
            cell.value() == 0,
    {
        AtomicU32(0)
    }
}

impl From<u32> for AtomicU32 {
    fn from(value: u32) -> (cell: Self)
        ensures
            cell.value() == value,
    {
        AtomicU32(value)
    }
}

impl FromSpecImpl<u32> for AtomicU32 {
    open spec fn obeys_from_spec() -> bool {
        true
    }

    closed spec fn from_spec(value: u32) -> Self {
        AtomicU32(value)
    }
}

/// A cell that holds a `u64`.
#[derive(Debug)]
pub struct AtomicU64(u64);

impl Atomic<u64> for AtomicU64 {
    closed spec fn value(&self) -> u64 {
        self.0
    }

    fn new(value: u64) -> (cell: Self) {
        AtomicU64(value)
    }

    fn get(&self) -> (value: u64) {
        self.0
    }

    fn set(&mut self, value: u64) -> (previous: u64) {
        let previous = self.0;
        self.0 = value;
        previous
    }

    fn set_when(&mut self, current: u64, new: u64) -> (previous: u64) {
        let previous = self.0;
        if previous.eq(&current) {
            self.0 = new;
        }
        previous
    }

    fn set_with<F: FnOnce(u64) -> Option<u64>>(&mut self, f: F) -> (previous: u64) {
        let previous = self.0;
        if let Some(new) = f(previous) {
            self.0 = new;
        }
        previous
    }

    fn into_inner(self) -> (value: u64) {
        self.0
    }
}

impl AtomicNumber<u64> for AtomicU64 {
    open spec fn sum(a: u64, b: u64) -> u64 {
        a.wrapping_add(b)
    }

    open spec fn difference(a: u64, b: u64) -> u64 {
        a.wrapping_sub(b)
    }

    fn add(&mut self, rhs: u64) -> (previous: u64) {
        let previous = self.0;
        self.0 = previous.wrapping_add(rhs);
        previous
    }

    fn sub(&mut self, rhs: u64) -> (previous: u64) {
        let previous = self.0;
        self.0 = previous.wrapping_sub(rhs);
        previous
    }
}

impl Clone for AtomicU64 {
    fn clone(&self) -> (cell: Self)
        ensures
            cell.value() == self.value(),
    {
        AtomicU64(self.0)
    }
}

impl Default for AtomicU64 {
    fn default() -> (cell: Self)
        ensures
            cell.value() == 0,
    {
        AtomicU64(0)
    }
}

impl From<u64> for AtomicU64 {
    fn from(value: u64) -> (cell: Self)
        ensures
            cell.value() == value,
    {
        AtomicU64(value)
    }
}

impl FromSpecImpl<u64> for AtomicU64 {
    open spec fn obeys_from_spec() -> bool {
        true
    }

    closed spec fn from_spec(value: u64) -> Self {
        AtomicU64(value)
    }
}

/// A cell that holds a `usize`.
#[derive(Debug)]
pub struct AtomicUsize(usize);

impl Atomic<usize> for AtomicUsize {
    closed spec fn value(&self) -> usize {
        self.0
    }

    fn new(value: usize) -> (cell: Self) {
        AtomicUsize(value)
    }

    fn get(&self) -> (value: usize) {
        self.0
    }

    fn set(&mut self, value: usize) -> (previous: usize) {
        let previous = self.0;
        self.0 = value;
        previous
    }

    fn set_when(&mut self, current: usize, new: usize) -> (previous: usize) {
        let previous = self.0;
        if previous.eq(&current) {
            self.0 = new;
        }
        previous
    }

    fn set_with<F: FnOnce(usize) -> Option<usize>>(&mut self, f: F) -> (previous: usize) {
        let previous = self.0;
        if let Some(new) = f(previous) {
            self.0 = new;
        }
        previous
    }

    fn into_inner(self) -> (value: usize) {
        self.0
    }
}

impl AtomicNumber<usize> for AtomicUsize {
    open spec fn sum(a: usize, b: usize) -> usize {
        a.wrapping_add(b)
    }

    open spec fn difference(a: usize, b: usize) -> usize {
        a.wrapping_sub(b)
    }

    fn add(&mut self, rhs: usize) -> (previous: usize) {
        let previous = self.0;
        self.0 = previous.wrapping_add(rhs);
        previous
    }

    fn sub(&mut self, rhs: usize) -> (previous: usize) {
        let previous = self.0;
        self.0 = previous.wrapping_sub(rhs);
        previous
    }
}

impl Clone for AtomicUsize {
    fn clone(&self) -> (cell: Self)
        ensures
            cell.value() == self.value(),
    {
        AtomicUsize(self.0)
    }
}

impl Default for AtomicUsize {
    fn default() -> (cell: Self)
        ensures
            cell.value() == 0,
    {
        AtomicUsize(0)
    }
}

impl From<usize> for AtomicUsize {
    fn from(value: usize) -> (cell: Self)
        ensures
            cell.value() == value,
    {
        AtomicUsize(value)
    }
}

impl FromSpecImpl<usize> for AtomicUsize {
    open spec fn obeys_from_spec() -> bool {
        true
    }

    closed spec fn from_spec(value: usize) -> Self {
        AtomicUsize(value)
    }
}

/// A cell that holds a value of any type that can be copied and compared.
#[derive(Debug, PartialEq)]
pub struct AtomicAny<T>(T);

impl<T: Clone + PartialEq> Atomic<T> for AtomicAny<T> {
    closed spec fn value(&self) -> T {
        self.0
    }

    fn new(value: T) -> (cell: Self) {
        AtomicAny(value)
    }

    fn get(&self) -> (value: T) {
        self.0.clone()
    }

    fn set(&mut self, value: T) -> (previous: T) {
        let mut held = value;
        std::mem::swap(&mut self.0, &mut held);
        held
    }

    fn set_when(&mut self, current: T, new: T) -> (previous: T) {
        if self.0 == current {
            let mut held = new;
            std::mem::swap(&mut self.0, &mut held);
            held
        } else {
            self.0.clone()
        }
    }

    fn set_with<F: FnOnce(T) -> Option<T>>(&mut self, f: F) -> (previous: T) {
        let given = self.0.clone();
        match f(given) {
            Some(new) => {
                let mut held = new;
                std::mem::swap(&mut self.0, &mut held);
                held
            },
            None => self.0.clone(),
        }
    }

    fn into_inner(self) -> (value: T) {
        self.0
    }
}

impl<T: Clone + PartialEq> Clone for AtomicAny<T> {
    fn clone(&self) -> (cell: Self)
        ensures
            cloned(self.value(), cell.value()),
    {
        AtomicAny(self.0.clone())
    }
}

impl<T: Clone + PartialEq + Default> Default for AtomicAny<T> {
    fn default() -> (cell: Self)
        ensures
            call_ensures(T::default, (), cell.value()),
    {
        AtomicAny(T::default())
    }
}

impl<T: Clone + PartialEq> From<T> for AtomicAny<T> {
    fn from(value: T) -> (cell: Self)
        ensures
            cell.value() == value,
    {
        AtomicAny(value)
    }
}

impl<T: Clone + PartialEq> FromSpecImpl<T> for AtomicAny<T> {
    open spec fn obeys_from_spec() -> bool {
        true
    }

    closed spec fn from_spec(value: T) -> Self {
        AtomicAny(value)
    }
}

/// Why a value could not be changed in place.
#[derive(Debug, Clone, Copy, PartialEq, Eq, Structural)]
pub enum MutError {
    /// The value is in the `Unsync` state, which is changed by [`AtomicOption::set`] only.
    Unsync,
    /// The value is in the `Sync` state and is not set, so there is no cell to change.
    Unset,
}

impl MutError {
    /// The error in words.
    pub fn message(&self) -> (text: String)
        ensures
            text@ == (match self {
                MutError::Unsync =>
                    "cannot use interior mutability to modify value in Unsync variant"@,
                MutError::Unset =>
                    "cannot use interior mutability to modify value in an unset Sync variant"@,
            }),
    {
        match self {
            MutError::Unsync =>
                "cannot use interior mutability to modify value in Unsync variant".to_owned(),
            MutError::Unset =>
                "cannot use interior mutability to modify value in an unset Sync variant".to_owned(),
        }
    }
}

/// Whether `copy` is what copying `source` gives: both unset, or both set and the one
/// value a copy of the other.
pub open spec fn option_cloned<P: Clone>(source: Option<P>, copy: Option<P>) -> bool {
    match (source, copy) {
        (Some(a), Some(b)) => cloned(a, b),
        (None, None) => true,
        _ => false,
    }
}

/// An optional setting in one of two states. In the `Unsync` state it is a plain value,
/// which only [`set`](AtomicOption::set) changes. In the `Sync` state it is kept in a cell,
/// and where it is set it can also be changed in place, by [`add`](AtomicOption::add),
/// [`set_max`](AtomicOption::set_max) and [`try_update_with`](AtomicOption::try_update_with).
#[derive(Debug, PartialEq, Eq)]
pub enum AtomicOption<P, A> where P: Clone + PartialEq, A: Atomic<P> {
    Unsync(Option<P>),
    Sync(Option<A>),
}

impl<P, A> AtomicOption<P, A> where P: Clone + PartialEq, A: Atomic<P> {
    /// Whether the setting is in the `Sync` state.
    pub open spec fn is_sync(&self) -> bool {
        self is Sync
    }

    /// The value of the setting, if it is set.
    pub open spec fn value(&self) -> Option<P> {
        match self {
            AtomicOption::Unsync(held) => *held,
            AtomicOption::Sync(Some(cell)) => Some(cell.value()),
            AtomicOption::Sync(None) => None,
        }
    }

    /// A copy of the value, if it is set.
    pub fn get(&self) -> (value: Option<P>)
        ensures
            option_cloned(self.value(), value),
    {
        match self {
            AtomicOption::Unsync(held) => held.clone(),
            AtomicOption::Sync(Some(cell)) => Some(cell.get()),
            AtomicOption::Sync(None) => None,
        }
    }

    /// A copy of the value if it is set, and the default of its type if it is not.
    pub fn get_or_default(&self) -> (value: P) where P: Default
        ensures
            match self.value() {
                Some(held) => cloned(held, value),
                None => call_ensures(P::default, (), value),
            },
    {
        match self.get() {
            Some(value) => value,
            None => P::default(),
        }
    }

    /// Sets or unsets the value, in either state, and returns the value that was set
    /// before.
    pub fn set(&mut self, value: Option<P>) -> (previous: Option<P>)
        ensures
            previous == old(self).value(),
            final(self).value() == value,
            final(self).is_sync() == old(self).is_sync(),
    {
        let mut held = AtomicOption::Unsync(None);
        std::mem::swap(self, &mut held);
        match held {
            AtomicOption::Unsync(previous) => {
                *self = AtomicOption::Unsync(value);
                previous
            },
            AtomicOption::Sync(cell) => {
                *self = AtomicOption::Sync(
                    match value {
                        Some(value) => Some(A::new(value)),
                        None => None,
                    },
                );
                match cell {
                    Some(cell) => Some(cell.into_inner()),
                    None => None,
                }
            },
        }
    }

    /// The same setting in the `Sync` state.
    pub fn into_sync(self) -> (synced: Self)
        ensures
            synced.is_sync(),
            synced.value() == self.value(),
    {
        match self {
            AtomicOption::Unsync(Some(value)) => AtomicOption::Sync(Some(A::new(value))),
            AtomicOption::Unsync(None) => AtomicOption::Sync(None),
            synced => synced,
        }
    }

    /// The same setting in the `Sync` state, set to the default of its type if it was not
    /// set.
    pub fn into_sync_default(self) -> (synced: Self) where P: Default
        ensures
            synced.is_sync(),
            match self.value() {
                Some(held) => synced.value() == Some(held),
                None => synced.value() matches Some(value) && call_ensures(
                    P::default,
                    (),
                    value,
                ),
            },
    {
        match self {
            AtomicOption::Unsync(None) | AtomicOption::Sync(None) => AtomicOption::Sync(
                Some(A::new(P::default())),
            ),
            AtomicOption::Unsync(Some(value)) => AtomicOption::Sync(Some(A::new(value))),
            synced => synced,
        }
    }

    /// The same setting in the `Unsync` state.
    pub fn into_unsync(self) -> (unsynced: Self)
        ensures
            !unsynced.is_sync(),
            unsynced.value() == self.value(),
    {
        match self {
            AtomicOption::Sync(Some(cell)) => AtomicOption::Unsync(Some(cell.into_inner())),
            AtomicOption::Sync(None) => AtomicOption::Unsync(None),
            unsynced => unsynced,
        }
    }

    /// Changes the value in place to what `f` returns for a copy of it, or leaves it as it
    /// is where `f` returns nothing. Returns a copy of the value as it was. Only a setting
    /// that is in the `Sync` state and set can be changed in place.
    pub fn try_update_with<F: FnOnce(P) -> Option<P>>(&mut self, f: F) -> (r: Result<P, MutError>)
        requires
            old(self).is_sync() && old(self).value() is Some ==> forall|given: P|
                cloned(old(self).value().unwrap(), given) ==> #[trigger] call_requires(
                    f,
                    (given,),
                ),
        ensures
            final(self).is_sync() == old(self).is_sync(),
            !old(self).is_sync() ==> r == Err::<P, _>(MutError::Unsync) && *final(self) == *old(
                self,
            ),
            old(self).is_sync() && old(self).value() is None ==> r == Err::<P, _>(MutError::Unset)
                && *final(self) == *old(self),
            old(self).is_sync() ==> (old(self).value() matches Some(held) ==> {
                    &&& r matches Ok(previous) && cloned(held, previous)
                    &&& exists|given: P, answer: Option<P>|
                        {
                            &&& cloned(held, given)
                            &&& #[trigger] call_ensures(f, (given,), answer)
                            &&& final(self).value() == Some(
                                match answer {
                                    Some(new) => new,
                                    None => held,
                                },
                            )
                        }
                }),
    {
        match self {
            AtomicOption::Unsync(_) => Err(MutError::Unsync),
            AtomicOption::Sync(None) => Err(MutError::Unset),
            AtomicOption::Sync(Some(cell)) => Ok(cell.set_with(f)),
        }
    }
}

impl<P, A> AtomicOption<P, A> where P: Copy + PartialEq + PartialOrd, A: AtomicNumber<P> {
    /// Adds `rhs` to the value in place, wrapping around on overflow, and returns the value
    /// as it was. Only a setting that is in the `Sync` state and set can be changed in place.
    pub fn add(&mut self, rhs: P) -> (r: Result<P, MutError>)
        ensures
            final(self).is_sync() == old(self).is_sync(),
            !old(self).is_sync() ==> r == Err::<P, _>(MutError::Unsync) && *final(self) == *old(
                self,
            ),
            old(self).is_sync() && old(self).value() is None ==> r == Err::<P, _>(MutError::Unset)
                && *final(self) == *old(self),
            old(self).is_sync() ==> (old(self).value() matches Some(held) ==> r == Ok::<
                P,
                MutError,
            >(held) && final(self).value() == Some(A::sum(held, rhs))),
    {
        match self {
            AtomicOption::Unsync(_) => Err(MutError::Unsync),
            AtomicOption::Sync(None) => Err(MutError::Unset),
            AtomicOption::Sync(Some(cell)) => Ok(cell.add(rhs)),
        }
    }

    /// Raises the value in place to `rhs` if it is smaller, and returns the value as it
    /// was. Only a setting that is in the `Sync` state and set can be changed in place.
    pub fn set_max(&mut self, rhs: P) -> (r: Result<P, MutError>)
        ensures
            final(self).is_sync() == old(self).is_sync(),
            !old(self).is_sync() ==> r == Err::<P, _>(MutError::Unsync) && *final(self) == *old(
                self,
            ),
            old(self).is_sync() && old(self).value() is None ==> r == Err::<P, _>(MutError::Unset)
                && *final(self) == *old(self),
            old(self).is_sync() ==> (old(self).value() matches Some(held) ==> {
                    &&& r matches Ok(previous) && cloned(held, previous)
                    &&& final(self).value() == Some(held) || final(self).value() == Some(rhs)
                    &&& P::obeys_partial_cmp_spec() ==> exists|given: P| #[trigger]
                        cloned(held, given) && final(self).value() == Some(
                            if given.partial_cmp_spec(&rhs) == Some(Ordering::Less) {
                                rhs
                            } else {
                                held
                            },
                        )
                }),
    {
        match self {
            AtomicOption::Unsync(_) => Err(MutError::Unsync),
            AtomicOption::Sync(None) => Err(MutError::Unset),
            AtomicOption::Sync(Some(cell)) => {
                let raise = |current: P| -> (answer: Option<P>)
                    ensures
                        answer == Some(rhs) || answer is None,
                        P::obeys_partial_cmp_spec() ==> answer == (if current.partial_cmp_spec(&rhs)
                            == Some(Ordering::Less) {
                            Some(rhs)
                        } else {
                            None
                        }),
                    {
                        if current < rhs {
                            Some(rhs)
                        } else {
                            None
                        }
                    };
                Ok(cell.set_with(raise))
            },
        }
    }
}

impl<P, A> Default for AtomicOption<P, A> where P: Clone + PartialEq, A: Atomic<P> {
    fn default() -> (unset: Self)
        ensures
            unset == AtomicOption::<P, A>::Unsync(None),
    {
        AtomicOption::Unsync(None)
    }
}

impl<P, A> Clone for AtomicOption<P, A> where P: Clone + PartialEq, A: Atomic<P> {
    fn clone(&self) -> (copy: Self)
        ensures
            copy.is_sync() == self.is_sync(),
            option_cloned(self.value(), copy.value()),
    {
        match self {
            AtomicOption::Unsync(held) => AtomicOption::Unsync(held.clone()),
            AtomicOption::Sync(Some(cell)) => AtomicOption::Sync(Some(A::new(cell.get()))),
            AtomicOption::Sync(None) => AtomicOption::Sync(None),
        }
    }
}

} // verus!
