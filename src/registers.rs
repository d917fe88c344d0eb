//! Registers: typed bindings of front panel controls and indicators to
//! their addresses.

use vstd::prelude::*;
use crate::error::FPGAError;

verus! {

/// The address of a register.
pub type RegisterAddress = u32;

/// Access to registers by address, as a session provides it.
pub trait RegisterInterface<T> {
    fn read(&self, address: RegisterAddress) -> Result<T, FPGAError>;

    fn write(&self, address: RegisterAddress, data: T) -> Result<(), FPGAError>;

    fn read_array<const N: usize>(&self, address: RegisterAddress) -> Result<[T; N], FPGAError>;

    fn write_array<const N: usize>(&self, address: RegisterAddress, data: &[T; N]) -> Result<(), FPGAError>;
}

/// A register of type `T` at a fixed address.
pub struct Register<T> {
    address: RegisterAddress,
    phantom: core::marker::PhantomData<T>,
}

impl<T> Register<T> {
    pub closed spec fn address_spec(&self) -> RegisterAddress {
        self.address
    }

    pub fn new(address: RegisterAddress) -> (r: Self)
        ensures
            r.address_spec() == address,
    {
        Register { address, phantom: core::marker::PhantomData }
    }

    /// The register's address.
    pub fn address(&self) -> (r: RegisterAddress)
        ensures
            r == self.address_spec(),
    {
        self.address
    }

    /// Reads the register through the session.
    pub fn read<S: RegisterInterface<T>>(&self, session: &S) -> Result<T, FPGAError> {
        session.read(self.address)
    }

    /// Writes the register through the session.
    pub fn write<S: RegisterInterface<T>>(&self, session: &S, value: T) -> Result<(), FPGAError> {
        session.write(self.address, value)
    }
}

/// An array register of `N` elements of type `T` at a fixed address.
pub struct ArrayRegister<T, const N: usize> {
    address: RegisterAddress,
    phantom: core::marker::PhantomData<T>,
}

impl<T, const N: usize> ArrayRegister<T, N> {
    pub closed spec fn address_spec(&self) -> RegisterAddress {
        self.address
    }

    pub fn new(address: RegisterAddress) -> (r: Self)
        ensures
            r.address_spec() == address,
    {
        ArrayRegister { address, phantom: core::marker::PhantomData }
    }

    /// The register's address.
    pub fn address(&self) -> (r: RegisterAddress)
        ensures
            r == self.address_spec(),
    {
        self.address
    }

    /// Reads all elements through the session.
    pub fn read<S: RegisterInterface<T>>(&self, session: &S) -> Result<[T; N], FPGAError> {
        session.read_array::<N>(self.address)
    }

    /// Writes all elements through the session.
    pub fn write<S: RegisterInterface<T>>(&self, session: &S, value: &[T; N]) -> Result<(), FPGAError> {
        session.write_array::<N>(self.address, value)
    }
}

} // verus!
