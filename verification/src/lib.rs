//! A terminal timer that plants a pixel-art tree for every period of work
//! that was seen through.
//!
//! The heart of the library is the [`display`]: a grid of character cells
//! that is drawn on and then flushed, where a flush finds the cells that
//! the terminal does not show yet and asks for those, and no others, to be
//! written. [`layout`] fits text into a rectangle of the display, word by
//! word or cut at the right edge. [`repaint`] and [`clipping`] state what
//! every flush and every drawing call can be relied on for.
//!
//! Around it stand the trees ([`tree`], [`collection`]), the time they take
//! to grow ([`grow`]), what is kept of the trees that have grown
//! ([`stats`]) and the editor that trees are made in ([`editor`]).
//!
//! The library reads no keys, no clock and no files, and it writes to no
//! terminal: it is handed what was read and hands back what is to be
//! written.

pub mod ansi;
pub mod cell;
pub mod clipping;
pub mod collection;
pub mod display;
pub mod editor;
pub mod grow;
pub mod hexcode;
pub mod layout;
pub mod number;
pub mod repaint;
pub mod stats;
pub mod text;
pub mod tree;
