//! What holds of the parsers for every token stream: absence and presence
//! are kept, order is kept, an element that never ends is never read, and
//! one that is well formed is read.

pub mod ending;
pub mod optionality;
pub mod order;
pub mod remains;
pub mod success;
