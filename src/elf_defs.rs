//! Numbers of the ELF format that the readers and the resolver use.
use vstd::prelude::*;

verus! {

pub const ELFCLASS32: u8 = 1;
pub const ELFCLASS64: u8 = 2;
pub const ELFDATA2LSB: u8 = 1;
pub const ELFDATA2MSB: u8 = 2;

pub const ELFOSABI_SYSV: u8 = 0;
pub const ELFOSABI_NETBSD: u8 = 2;
pub const ELFOSABI_GNU: u8 = 3;
pub const ELFOSABI_SOLARIS: u8 = 6;
pub const ELFOSABI_FREEBSD: u8 = 9;
pub const ELFOSABI_OPENBSD: u8 = 12;

pub const ET_EXEC: u16 = 2;
pub const ET_DYN: u16 = 3;

pub const EM_SPARC: u16 = 2;
pub const EM_386: u16 = 3;
pub const EM_68K: u16 = 4;
pub const EM_MIPS: u16 = 8;
pub const EM_MIPS_RS3_LE: u16 = 10;
pub const EM_PARISC: u16 = 15;
pub const EM_PPC: u16 = 20;
pub const EM_PPC64: u16 = 21;
pub const EM_S390: u16 = 22;
pub const EM_ARM: u16 = 40;
pub const EM_SH: u16 = 42;
pub const EM_IA_64: u16 = 50;
pub const EM_X86_64: u16 = 62;
pub const EM_OPENRISC: u16 = 92;
pub const EM_ALTERA_NIOS2: u16 = 113;
pub const EM_AARCH64: u16 = 183;
pub const EM_MICROBLAZE: u16 = 189;
pub const EM_ARCV2: u16 = 195;
pub const EM_RISCV: u16 = 243;
pub const EM_CSKY: u16 = 252;
pub const EM_LOONGARCH: u16 = 258;
pub const EM_ALPHA: u16 = 0x9026;

pub const EF_MIPS_ABI_ON32: u32 = 64;
pub const EF_MIPS_NAN2008: u32 = 1024;
pub const EF_ARM_SOFT_FLOAT: u32 = 0x200;
pub const EF_ARM_VFP_FLOAT: u32 = 0x400;
pub const EF_RISCV_FLOAT_ABI_SOFT: u32 = 0x0000;
pub const EF_RISCV_FLOAT_ABI_DOUBLE: u32 = 0x0004;

pub const PT_LOAD: u32 = 1;
pub const PT_DYNAMIC: u32 = 2;
pub const PT_INTERP: u32 = 3;

pub const DT_NULL: u64 = 0;
pub const DT_NEEDED: u64 = 1;
pub const DT_STRTAB: u64 = 5;
pub const DT_STRSZ: u64 = 10;
pub const DT_SONAME: u64 = 14;
pub const DT_RPATH: u64 = 15;
pub const DT_RUNPATH: u64 = 29;
pub const DT_FLAGS_1: u64 = 0x6fff_fffb;
pub const DF_1_NODEFLIB: u64 = 0x0000_0800;

} // verus!
