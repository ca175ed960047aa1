use vstd::prelude::*;

verus! {

/// Address of the first LCD register.
pub const LCD_BASE: u16 = 0xFF40;
/// Number of LCD registers.
pub const LCD_REG_COUNT: usize = 0x15;

/// The LCD controller's register block, mapped from `0xFF40`.
#[derive(Clone, Debug, Default)]
pub struct LCD {
    regs: Vec<u8>,
}

impl View for LCD {
    type V = Seq<u8>;

    closed spec fn view(&self) -> Seq<u8> {
        self.regs@
    }
}

impl LCD {
    pub fn new() -> (r: LCD)
        ensures
            r@ == Seq::new(LCD_REG_COUNT as nat, |i: int| 0u8),
    {
        let regs: Vec<u8> = vec![0x00; LCD_REG_COUNT];
        assert(regs@ =~= Seq::new(LCD_REG_COUNT as nat, |i: int| 0u8));
        LCD { regs: regs }
    }

    /// The register that `addr` names, counted from `0xFF40`.
    pub fn read8(&self, addr: u16) -> (r: u8)
        requires
            LCD_BASE <= addr,
            addr - LCD_BASE < self@.len(),
        ensures
            r == self@[addr - LCD_BASE],
    {
        self.regs[(addr - LCD_BASE) as usize]
    }
}

} // verus!
