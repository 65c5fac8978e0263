//! Core of a miner for integer-sequence programs: a register machine over
//! arbitrary-precision integers, the mutation of candidate programs, the
//! funnel that matches candidate output against known sequences, and the
//! decisions of the coordinator that keeps the miners supplied.

pub mod analytics_worker;
pub mod funnel;
pub mod generate_training_image_files;
pub mod genome;
pub mod genome_mutate_context;
pub mod natural_language;
pub mod node;
pub mod node_arithmetic;
pub mod node_call;
pub mod node_compare;
pub mod node_divide;
pub mod node_loop;
pub mod node_move;
pub mod popular_program_container;
pub mod prevent_flooding;
pub mod program;
pub mod program_cache;
pub mod program_popularity_csv;
pub mod program_state;
pub mod random;
pub mod register_value;
pub mod run_miner_loop;
pub mod terms_to_program_id;
pub mod text;
