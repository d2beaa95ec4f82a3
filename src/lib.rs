//! Bidirectional links between objects held in a store.
//!
//! Each object of a [`Store`] carries a fixed number of link fields. A link
//! field is addressed by a [`Place`]: the handle of the object that embeds it
//! and the index of the field inside that object. Connecting two places makes
//! each link refer to the other; disconnecting either side clears both.
//!
//! The store keeps every object alive for as long as it exists, so a link
//! never confers ownership of its counterpart.

mod link;

pub use link::{
    connected, disconnected, lemma_connect_symmetric, lemma_disconnect_idempotent,
    lemma_disconnect_symmetric, lemma_owner_round_trip, lemma_reconnect, lemma_swap, links_symmetric,
    links_wf, swapped, Link, LinkData, Place, Store,
};
