//! Shaping of UTF-16 text for displays that cannot shape or reorder text
//! themselves: Arabic contextual joining, cluster reordering for several
//! Brahmic-family scripts, and a simplified bidirectional reordering pass.

pub mod arabic;
pub mod arabic_data;
pub mod buginese;
pub mod cjk;
pub mod cluster;
pub mod javanese;
pub mod khmer;
pub mod myanmar;
pub mod options;
pub mod shape;
pub mod tamil;
pub mod thai;
pub mod tibetan;
pub mod ubidi;
pub mod ubidi_data;
