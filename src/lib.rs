//! Static reproduction of the dynamic loader's library search: binary readers,
//! loader-cache readers and the search-order resolver.
pub mod text;
pub mod bytes;
pub mod pathutils;
pub mod search_path;
pub mod deptree;
pub mod interp;
pub mod elf_defs;
pub mod platform;
pub mod android;
pub mod system_dirs;
pub mod elf;
pub mod elf_info;
pub mod resolver;
pub mod ld_so_cache;
pub mod ld_hints;
pub mod ld_conf;
pub mod hwcap;
pub mod ld_config_txt;
pub mod macho;
pub mod macho_resolver;
pub mod dyld_cache;
pub mod printer;
