//! Session options and the session state kept on the host side.

use vstd::prelude::*;

verus! {

/// The driver's handle of an open session.
pub type SessionHandle = u32;

/// Options for opening and closing a session.
#[derive(Debug, Clone, Copy, PartialEq, Eq, Structural)]
pub struct SessionOptions {
    /// Reset the FPGA when the session closes.
    pub reset_on_close: bool,
    /// Run the FPGA when the session opens.
    pub run_on_open: bool,
}

impl SessionOptions {
    /// The attribute passed when opening: bit 0 set means "do not run".
    pub fn open_attribute(&self) -> (r: u32)
        ensures
            r == (if self.run_on_open { 0u32 } else { 1u32 }),
    {
        let mut attribute: u32 = 0;
        if !self.run_on_open {
            attribute = attribute | 1;
            assert(0u32 | 1u32 == 1u32) by (bit_vector);
        }
        attribute
    }

    /// The attribute passed when closing: bit 0 set means "do not reset".
    pub fn close_attribute(&self) -> (r: u32)
        ensures
            r == (if self.reset_on_close { 0u32 } else { 1u32 }),
    {
        let mut attribute: u32 = 0;
        if !self.reset_on_close {
            attribute = attribute | 1;
            assert(0u32 | 1u32 == 1u32) by (bit_vector);
        }
        attribute
    }
}

impl Default for SessionOptions {
    /// Run on open and reset on close.
    fn default() -> (r: Self)
        ensures
            r.reset_on_close,
            r.run_on_open,
    {
        SessionOptions { reset_on_close: true, run_on_open: true }
    }
}

/// An open session: the driver's handle and the attribute it is to be
/// closed with.
#[derive(Debug)]
pub struct Session {
    pub handle: SessionHandle,
    pub close_attribute: u32,
}

impl Session {
    /// The session state for a handle the driver opened with `options`.
    pub fn with_handle(handle: SessionHandle, options: &SessionOptions) -> (r: Self)
        ensures
            r.handle == handle,
            r.close_attribute == (if options.reset_on_close { 0u32 } else { 1u32 }),
    {
        Session { handle, close_attribute: options.close_attribute() }
    }

    /// Changes the options that closing the session follows.
    pub fn set_options(&mut self, options: &SessionOptions)
        ensures
            final(self).handle == old(self).handle,
            final(self).close_attribute == (if options.reset_on_close { 0u32 } else { 1u32 }),
    {
        self.close_attribute = options.close_attribute();
    }

    /// The attribute to close the session with.
    pub fn close_attribute(&self) -> (r: u32)
        ensures
            r == self.close_attribute,
    {
        self.close_attribute
    }
}

} // verus!
