//! The logic of a low-latency capture viewer, verified.

pub mod analysis_strip;
pub mod audio;
pub mod audio_mac;
pub mod bits;
pub mod capture;
pub mod capture_laws;
pub mod clipboard;
pub mod config;
pub mod config_file;
pub mod config_key_laws;
pub mod config_laws;
pub mod config_warnings;
pub mod convert;
pub mod convert_laws;
pub mod detail_laws;
pub mod dmabuf;
pub mod format_laws;
pub mod framegen;
pub mod framegen_laws;
pub mod framegen_vk;
pub mod gl_laws;
pub mod gl_passes;
pub mod gl_renderer;
pub mod jpeg;
pub mod jpeg_file_laws;
pub mod jpeg_laws;
pub mod keys;
pub mod menu;
pub mod menu_build;
pub mod menu_choice_laws;
pub mod menu_laws;
pub mod menu_levels;
pub mod menu_sync;
pub mod menu_untouched;
pub mod net;
pub mod net_laws;
pub mod number;
pub mod number_laws;
pub mod pacing;
pub mod paths;
pub mod pause;
pub mod plane_laws;
pub mod png;
pub mod png_laws;
pub mod pw_link;
pub mod rife;
pub mod session_laws;
pub mod sound_laws;
pub mod stamp;
pub mod startup;
pub mod startup_laws;
pub mod stats;
pub mod text;
pub mod text_laws;
pub mod vk_commands;
pub mod warning_laws;
