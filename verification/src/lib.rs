//! Logic of a school-start countdown window: the countdown text, the
//! layout of what the window paints, the reaction to each window message,
//! the quote that the button shows, and the wide strings handed to the
//! windowing API.

use vstd::prelude::*;

pub mod decimal;
pub mod time;
pub mod countdown;
pub mod paint;
pub mod quotes;
pub mod wide;
pub mod window;

verus! {

} // verus!
