//! Exercises in verified Rust: a Fahrenheit-to-Celsius conversion of one
//! line of text, with every step (trimming, integer parsing, the formula,
//! decimal rendering) specified over `Seq<char>` and `int` and proved, and a
//! few small functions on strings that are moved and borrowed.

pub mod borrowing;
pub mod functions;
pub mod ownership;
pub mod parse;
pub mod reading;
pub mod render;
pub mod temperature;
pub mod whitespace;

pub use reading::temp_convert;
