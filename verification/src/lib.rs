pub mod storage;
pub mod raw_storage;
pub mod chunk_table;
pub mod settings;
pub mod input;
pub mod random;
pub mod numbers_game;
pub mod display;
pub mod graphics;
pub mod saturating;
pub mod menu;
pub mod multi_tap;
pub mod timer;
pub mod selector;
pub mod context_menu;
pub mod catalog;
pub mod sprite_cache;
pub mod calculator;
pub mod real_time;
pub mod os;
pub mod fat;
pub mod font;
pub mod text;
pub mod bitmap;
pub mod hal;
pub mod apps;
pub mod tetris;
pub mod wrap;
pub mod rbop_impl;
pub mod decimal;
pub mod settings_app;
pub mod graph;
pub mod calculation_history;
