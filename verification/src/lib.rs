//! Allocation-minimizing byte and string buffers.
//!
//! The central type, [`MAByteString`], keeps short payloads inline,
//! borrows compile-time-constant data without copying, and shares
//! long heap payloads through a reference count so that repeated
//! duplication costs at most one extra allocation.  Sibling builder
//! types trade sharing away for guaranteed-unique, freely mutable
//! storage, and thin wrappers maintain a UTF-8 validity invariant on
//! top of the byte types.

mod layout;
mod shared;
mod bytestring;
mod bytestringbuilder;
mod customcow;
mod fromiter;
mod join;
mod laws;
mod string;
mod stringbuilder;

pub use bytestring::BufKind;
pub use bytestring::MAByteString;
pub use bytestring::bytes_debug;
pub use bytestring::mode_label_ok;
pub use bytestring::spec_byte_escape;
pub use bytestring::spec_bytes_escaped;
pub use bytestring::spec_hex_digit;
pub use bytestringbuilder::MAByteStringBuilder;
pub use customcow::CowOwned;
pub use customcow::CustomCow;
pub use fromiter::concat_views;
pub use fromiter::from_iter_stringlike_core;
pub use join::Joinable;
pub use join::JoinableBuf;
pub use join::join_internal;
pub use join::join_spec;
pub use join::join_views;
pub use laws::lemma_clear_builder;
pub use laws::lemma_cow_isolation;
pub use laws::lemma_duplication_installs_once;
pub use laws::lemma_reserve_capacity;
pub use laws::lemma_round_trip;
pub use string::MAString;
pub use string::Utf8Error;
pub use string::chars_to_bytes;
pub use string::chars_utf8len;
pub use string::spec_lossy;
pub use string::spec_lossy_width;
pub use stringbuilder::MAStringBuilder;

pub use layout::SHORT_CAP;
