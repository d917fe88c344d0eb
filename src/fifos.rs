//! DMA FIFOs: typed bindings of FIFO channels to their numbers.

use vstd::prelude::*;
use core::time::Duration;
use crate::error::FPGAError;

verus! {

/// The number of a FIFO channel.
pub type FifoAddress = u32;

/// The endpoint of a peer-to-peer FIFO.
pub type PeerToPeerEndpoint = u32;

/// The element types the FPGA interface transfers natively.
pub trait NativeFpgaType: Copy {}

/// Data transfer through FIFOs by number, as a session provides it.
pub trait FifoInterface<T> {
    /// Reads elements into `buffer`, filling it; returns the number of
    /// elements still waiting to be read.
    fn read_fifo(&self, fifo: FifoAddress, buffer: &mut [T], timeout: Option<Duration>) -> Result<usize, FPGAError>;

    /// Writes the elements of `data`; returns the free space left.
    fn write_fifo(&self, fifo: FifoAddress, data: &[T], timeout: Option<Duration>) -> Result<usize, FPGAError>;
}

/// Control of FIFO channels, as a session provides it.
pub trait FifoControl {
    fn start_fifo(&self, fifo: FifoAddress) -> Result<(), FPGAError>;

    fn stop_fifo(&self, fifo: FifoAddress) -> Result<(), FPGAError>;

    /// Requests a host buffer depth; returns the depth configured.
    fn configure_fifo(&self, fifo: FifoAddress, requested_depth: usize) -> Result<usize, FPGAError>;

    fn get_peer_to_peer_fifo_endpoint(&self, fifo: FifoAddress) -> Result<PeerToPeerEndpoint, FPGAError>;
}

/// What read and write FIFOs have in common.
pub trait Fifo {
    fn address(&self) -> FifoAddress;
}

/// Starts the transfer of a FIFO ahead of the first read or write.
pub fn start<F: Fifo, S: FifoControl>(fifo: &F, session: &S) -> Result<(), FPGAError> {
    session.start_fifo(fifo.address())
}

/// Stops the transfer of a FIFO, dropping the data it holds.
pub fn stop<F: Fifo, S: FifoControl>(fifo: &F, session: &S) -> Result<(), FPGAError> {
    session.stop_fifo(fifo.address())
}

/// Requests a host buffer depth for a FIFO; returns the depth configured.
pub fn configure<F: Fifo, S: FifoControl>(fifo: &F, session: &S, requested_depth: usize) -> Result<usize, FPGAError> {
    session.configure_fifo(fifo.address(), requested_depth)
}

/// The peer-to-peer endpoint of a FIFO.
pub fn get_peer_to_peer_fifo_endpoint<F: Fifo, S: FifoControl>(fifo: &F, session: &S) -> Result<PeerToPeerEndpoint, FPGAError> {
    session.get_peer_to_peer_fifo_endpoint(fifo.address())
}

/// A FIFO the host reads from.
pub struct ReadFifo<T> {
    address: FifoAddress,
    phantom: core::marker::PhantomData<T>,
}

impl<T> ReadFifo<T> {
    pub closed spec fn address_spec(&self) -> FifoAddress {
        self.address
    }

    pub fn new(address: FifoAddress) -> (r: Self)
        ensures
            r.address_spec() == address,
    {
        ReadFifo { address, phantom: core::marker::PhantomData }
    }

    /// Reads into `data`, filling it; returns the number of elements still
    /// waiting. No timeout means waiting as long as it takes.
    pub fn read<S: FifoInterface<T>>(
        &mut self,
        session: &S,
        timeout: Option<Duration>,
        data: &mut [T],
    ) -> Result<usize, FPGAError> {
        session.read_fifo(self.address, data, timeout)
    }

    /// The number of elements waiting, found by reading none.
    pub fn elements_available<S: FifoInterface<T>>(&self, session: &S) -> Result<usize, FPGAError> {
        let mut empty: Vec<T> = Vec::new();
        session.read_fifo(self.address, empty.as_mut_slice(), None)
    }
}

impl<T> Fifo for ReadFifo<T> {
    fn address(&self) -> FifoAddress {
        self.address
    }
}

/// A FIFO the host writes to.
pub struct WriteFifo<T> {
    address: FifoAddress,
    phantom: core::marker::PhantomData<T>,
}

impl<T> WriteFifo<T> {
    pub closed spec fn address_spec(&self) -> FifoAddress {
        self.address
    }

    pub fn new(address: FifoAddress) -> (r: Self)
        ensures
            r.address_spec() == address,
    {
        WriteFifo { address, phantom: core::marker::PhantomData }
    }

    /// Writes the elements of `data`; returns the free space left. No
    /// timeout means waiting as long as it takes.
    pub fn write<S: FifoInterface<T>>(
        &mut self,
        session: &S,
        timeout: Option<Duration>,
        data: &[T],
    ) -> Result<usize, FPGAError> {
        session.write_fifo(self.address, data, timeout)
    }

    /// The free space, found by writing nothing.
    pub fn space_available<S: FifoInterface<T>>(&self, session: &S) -> Result<usize, FPGAError> {
        let empty: Vec<T> = Vec::new();
        session.write_fifo(self.address, empty.as_slice(), None)
    }
}

impl<T> Fifo for WriteFifo<T> {
    fn address(&self) -> FifoAddress {
        self.address
    }
}

} // verus!
