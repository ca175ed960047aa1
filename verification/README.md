# LR35902 emulator core

A verified core for a Game Boy emulator.

- `src/rom.rs`: a cartridge image and its header fields (logo, title, CGB
  flag, cartridge type and size, destination, header checksum).
- `src/mem.rs`: the memory controller. Addresses `0x0100..=0x3FFF` go to the
  cartridge image, all others to a 64 kB RAM; 16-bit accesses go to the
  cartridge image.
- `src/lcd.rs`: the LCD register block at `0xFF40`.
- `src/lr35902.rs`: registers, the instruction table, the instructions and the
  step function of the CPU, with a model of each as a function on `CpuView`.
- `app/`: the command-line program, which reads a cartridge file and prints
  its header, and the printing around the CPU.
