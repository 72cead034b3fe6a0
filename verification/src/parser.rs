pub mod program_structure;
