//! Decision core of the Glaeda local runner: local-install planning and its
//! crash-safe generation store, launcher convergence, build and preflight
//! classification, operator configuration, macOS resource evidence, and the
//! availability and interference decisions drawn from it.
//!
//! Every function here computes on plain values; reading files, running
//! commands and taking locks is left to the program around the library.
pub mod artifact;
pub mod canonical_json;
pub mod file_evidence;
pub mod host_preparation;
pub mod lima_processes;
pub mod local_install_build_command;
pub mod local_install_build_execution;
pub mod local_install_cargo_config_observation;
pub mod local_install_cargo_config_preflight;
pub mod local_install_generation_store;
pub mod local_install_launcher;
pub mod local_install_plan;
pub mod local_install_preflight;
pub mod local_install_source_preflight;
pub mod local_install_store_documents;
pub mod local_install_store_observation;
pub mod local_install_store_recovery;
pub mod local_install_store_root;
pub mod local_install_store_publication;
pub mod local_install_store_reading;
pub mod local_install_store_replay;
pub mod local_install_store_files;
pub mod local_install_store_laws;
pub mod local_interference_admission;
pub mod mac_availability;
pub mod macos_readings;
pub mod macos_resource_observation;
pub mod operator_config;
pub mod operator_names;
pub mod outcome;
pub mod paths;
pub mod process;
pub mod scan;
pub mod text;
