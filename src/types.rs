//! Value types shared across the FPGA interface.

use vstd::prelude::*;
use crate::text::push_str;

verus! {

/// A boolean as the FPGA interface represents it: zero is false.
#[derive(Debug, Default, Clone, Copy, PartialEq, Eq, Structural)]
pub struct FpgaBool(pub u8);

impl FpgaBool {
    /// The representation of true.
    pub fn true_value() -> (r: FpgaBool)
        ensures
            r.0 == 1,
    {
        FpgaBool(1)
    }

    /// The representation of false.
    pub fn false_value() -> (r: FpgaBool)
        ensures
            r.0 == 0,
    {
        FpgaBool(0)
    }
}

impl From<bool> for FpgaBool {
    fn from(value: bool) -> (r: Self)
        ensures
            r.0 == (if value { 1u8 } else { 0u8 }),
    {
        if value {
            FpgaBool(1)
        } else {
            FpgaBool(0)
        }
    }
}

impl vstd::std_specs::convert::FromSpecImpl<bool> for FpgaBool {
    open spec fn obeys_from_spec() -> bool {
        true
    }

    open spec fn from_spec(value: bool) -> FpgaBool {
        FpgaBool(if value { 1u8 } else { 0u8 })
    }
}

impl From<FpgaBool> for bool {
    fn from(value: FpgaBool) -> (r: Self)
        ensures
            r == (value.0 != 0),
    {
        value.0 != 0
    }
}

impl vstd::std_specs::convert::FromSpecImpl<FpgaBool> for bool {
    open spec fn obeys_from_spec() -> bool {
        true
    }

    open spec fn from_spec(value: FpgaBool) -> bool {
        value.0 != 0
    }
}

/// A timeout in milliseconds as the FPGA interface takes it; all bits set
/// means no timeout.
#[derive(Debug, Default, Clone, Copy, PartialEq, Eq, Structural)]
pub struct FpgaTimeoutMs(pub u32);

impl FpgaTimeoutMs {
    /// No timeout.
    pub fn infinite() -> (r: FpgaTimeoutMs)
        ensures
            r.0 == 0xFFFFFFFF,
    {
        FpgaTimeoutMs(0xFFFFFFFF)
    }

    /// The timeout for a duration given in whole milliseconds (kept to its
    /// low 32 bits), or no timeout where none is given.
    pub fn from_millis(millis: Option<u128>) -> (r: Self)
        ensures
            match millis {
                None => r.0 == 0xFFFFFFFF,
                Some(ms) => r.0 == ms as u32,
            },
    {
        match millis {
            None => FpgaTimeoutMs(0xFFFFFFFF),
            Some(ms) => FpgaTimeoutMs(ms as u32),
        }
    }
}

/// A selection of interrupt lines 0 to 31, one bit each.
#[derive(Debug, Clone, Copy, PartialEq, Eq, Structural)]
pub struct IrqSelection(pub u32);

/// Whether line `irq` is selected in the bits `bits`.
pub open spec fn irq_bit_set(bits: u32, irq: u8) -> bool {
    bits & (1u32 << irq) != 0
}

impl View for IrqSelection {
    type V = Set<u8>;

    open spec fn view(&self) -> Set<u8> {
        Set::new(|irq: u8| irq < 32 && irq_bit_set(self.0, irq))
    }
}

/// The selected lines below `n`, in increasing order.
pub open spec fn selected_below(bits: u32, n: nat) -> Seq<u8>
    decreases n,
{
    if n == 0 {
        Seq::empty()
    } else {
        let rest = selected_below(bits, (n - 1) as nat);
        if irq_bit_set(bits, (n - 1) as u8) {
            rest.push((n - 1) as u8)
        } else {
            rest
        }
    }
}

/// The decimal digits of a number below 100.
pub open spec fn small_decimal(n: u8) -> Seq<char> {
    if n < 10 {
        seq![('0' as u8 + n) as char]
    } else {
        seq![('0' as u8 + n / 10) as char, ('0' as u8 + n % 10) as char]
    }
}

/// The selected lines, in decimal, separated by `, `.
pub open spec fn joined_lines(lines: Seq<u8>) -> Seq<char>
    decreases lines.len(),
{
    if lines.len() == 0 {
        Seq::empty()
    } else if lines.len() == 1 {
        small_decimal(lines[0])
    } else {
        joined_lines(lines.drop_last()) + ", "@ + small_decimal(lines.last())
    }
}

impl IrqSelection {
    /// The empty selection.
    pub fn none() -> (r: IrqSelection)
        ensures
            r.0 == 0,
            r@ == Set::<u8>::empty(),
    {
        let r = IrqSelection(0);
        assert forall|i: u8| i < 32 implies !irq_bit_set(r.0, i) by {
            assert(0u32 & (1u32 << i) == 0) by (bit_vector);
        }
        assert(r@ =~= Set::<u8>::empty());
        r
    }

    /// A selection of the single line `irq`.
    pub fn new(irq: u8) -> (r: IrqSelection)
        requires
            irq < 32,
        ensures
            r.0 == 1u32 << irq,
            r@ == set![irq],
    {
        let r = IrqSelection(1u32 << irq);
        assert forall|i: u8| i < 32 implies irq_bit_set(r.0, i) == (i == irq) by {
            assert((1u32 << irq) & (1u32 << i) != 0 <==> i == irq) by (bit_vector)
                requires
                    irq < 32,
                    i < 32,
            ;
        }
        assert(r@ =~= set![irq]);
        r
    }

    /// Adds line `irq` to the selection.
    pub fn add_irq(&mut self, irq: u8)
        requires
            irq < 32,
        ensures
            final(self).0 == old(self).0 | (1u32 << irq),
            final(self)@ == old(self)@.insert(irq),
    {
        let old_bits = self.0;
        self.0 = self.0 | (1u32 << irq);
        assert forall|x: u8| self@.contains(x) <==> old(self)@.insert(irq).contains(x) by {
            if x < 32 {
                assert((old_bits | (1u32 << irq)) & (1u32 << x) != 0 <==> (old_bits & (1u32 << x) != 0 || x == irq)) by (bit_vector)
                    requires
                        irq < 32,
                        x < 32,
                ;
            }
        }
        assert(self@ =~= old(self)@.insert(irq));
    }

    /// Whether line `irq` is selected.
    pub fn is_irq_set(&self, irq: u8) -> (r: bool)
        requires
            irq < 32,
        ensures
            r == self@.contains(irq),
    {
        self.0 & (1u32 << irq) != 0
    }

    /// The selected lines, in increasing order.
    pub fn iter(&self) -> (r: Vec<u8>)
        ensures
            r@ == selected_below(self.0, 32),
            forall|i: int| 0 <= i < r@.len() ==> self@.contains(#[trigger] r@[i]),
    {
        let mut r: Vec<u8> = Vec::new();
        let mut irq: u8 = 0;
        while irq < 32
            invariant
                irq <= 32,
                r@ == selected_below(self.0, irq as nat),
                forall|i: int| 0 <= i < r@.len() ==> self@.contains(#[trigger] r@[i]),
            decreases 32 - irq,
        {
            if self.0 & (1u32 << irq) != 0 {
                r.push(irq);
            }
            irq = irq + 1;
        }
        r
    }

    /// The selection written as `IrqSelection[0, 2]`.
    pub fn to_debug_string(&self) -> (r: String)
        ensures
            r@ == "IrqSelection["@ + joined_lines(selected_below(self.0, 32)) + "]"@,
    {
        let lines = self.iter();
        let mut out = String::new();
        push_str(&mut out, "IrqSelection[");
        let ghost head = out@;
        let mut i: usize = 0;
        assert(lines@.take(0) =~= Seq::<u8>::empty());
        assert(out@ =~= head + joined_lines(Seq::<u8>::empty()));
        while i < lines.len()
            invariant
                i <= lines@.len(),
                lines@ == selected_below(self.0, 32),
                forall|k: int| 0 <= k < lines@.len() ==> lines@[k] < 32,
                out@ == head + joined_lines(lines@.take(i as int)),
            decreases lines@.len() - i,
        {
            if i > 0 {
                push_str(&mut out, ", ");
            }
            let n = lines[i];
            assert(n < 32);
            if n < 10 {
                out.push((('0' as u8) + n) as char);
            } else {
                out.push((('0' as u8) + n / 10) as char);
                out.push((('0' as u8) + n % 10) as char);
            }
            proof {
                assert(lines@.take(i + 1).drop_last() =~= lines@.take(i as int));
                assert(lines@.take(i + 1).last() == n);
                if i == 0 {
                    assert(lines@.take(1) =~= seq![n]);
                }
            }
            assert(out@ =~= head + joined_lines(lines@.take(i + 1)));
            i = i + 1;
        }
        push_str(&mut out, "]");
        assert(lines@.take(lines@.len() as int) =~= lines@);
        out
    }
}

impl Default for IrqSelection {
    fn default() -> (r: Self)
        ensures
            r.0 == 0,
    {
        IrqSelection(0)
    }
}

impl From<u32> for IrqSelection {
    fn from(value: u32) -> (r: Self)
        ensures
            r.0 == value,
    {
        IrqSelection(value)
    }
}

impl vstd::std_specs::convert::FromSpecImpl<u32> for IrqSelection {
    open spec fn obeys_from_spec() -> bool {
        true
    }

    open spec fn from_spec(value: u32) -> IrqSelection {
        IrqSelection(value)
    }
}

/// The outcome of waiting for interrupts.
#[derive(Debug, PartialEq, Eq, Clone, Copy, Structural)]
pub enum IrqWaitResult {
    /// The wait timed out.
    TimedOut,
    /// The selected lines were asserted.
    IrqsAsserted(IrqSelection),
}

impl IrqWaitResult {
    /// The outcome of a wait from what the driver reports: a timed-out flag
    /// equal to true means the wait timed out; otherwise the lines that were
    /// asserted.
    pub fn from_wait(asserted: IrqSelection, timed_out: FpgaBool) -> (r: IrqWaitResult)
        ensures
            timed_out.0 == 1 ==> r == IrqWaitResult::TimedOut,
            timed_out.0 != 1 ==> r == IrqWaitResult::IrqsAsserted(asserted),
    {
        if timed_out.0 == 1 {
            IrqWaitResult::TimedOut
        } else {
            IrqWaitResult::IrqsAsserted(asserted)
        }
    }
}

} // verus!
