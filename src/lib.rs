//! ELF note records: a fixed header, a null-padded name and a descriptor,
//! laid out byte for byte as the ELF specification defines them.
pub mod name;
pub mod note;
pub mod order;
pub mod wire;

pub use note::Note;
