//! Build orchestration for a Solidity/Yul-to-zkEVM compiler: a
//! multi-representation contract graph, a per-contract build state machine,
//! and a dependency-aware driver that assembles deterministic build
//! artifacts.

pub mod artifacts;
pub mod combined_json;
pub mod driver;
pub mod error;
pub mod evm_output;
pub mod evmla;
pub mod hexenc;
pub mod project;
pub mod settings;
pub mod solc_input;
pub mod solc_output;
pub mod strutil;
pub mod version;
pub mod zkasm;
