pub mod bindings;
pub mod text;
pub mod sorting;
pub mod track;
pub mod lyrics;
pub mod player;
pub mod theme;
pub mod display;
pub mod playlist;
pub mod style;
