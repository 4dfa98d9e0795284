//! Country-level address block lists for packet filters: parsing of
//! aggregated zone feeds, the per-country directory, and the rule-set text.

mod chars;
pub mod prefix;
pub mod feed;
pub mod directory;
pub mod rules;
pub mod resolver;
pub mod groups;
