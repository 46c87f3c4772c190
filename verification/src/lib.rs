//! A waveform debugger: the state and the screen of the terminal front end, and
//! the loading of the waves that the debug stub steps through.
pub mod text;
pub mod waves;
pub mod merge;
pub mod signal_map;
pub mod waveloader;
pub mod session;
pub mod logger;
pub mod help_modal;
pub mod addsig;
pub mod window;
pub mod layout;
pub mod view;
pub mod style;
pub mod app;
pub mod surfer;
pub mod app_laws;
pub mod key_laws;
pub mod model_laws;
pub mod wave_laws;
pub mod render;
pub mod screen_laws;
