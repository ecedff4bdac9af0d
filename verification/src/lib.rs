//! Arithmetic circuits over a table of rows.
//!
//! A circuit declares its columns, its selectors and its identities in a
//! [`constraint::ConstraintSystem`], then fills a [`table::Table`] region by region through
//! a [`layout::Layouter`]. A [`prover::MockProver`] holds the result and verifies it: in
//! every row where a selector is enabled, the identity that the selector guards must be
//! zero on the cells it reads.
//!
//! The circuit of this crate, [`circuit::TestCircuit`], has one advice column and two
//! gates, multiplication and addition, each a region of three rows. Values are residues
//! of a [`field::Field`]: the integers modulo a machine word in [`field::Fp`], the scalar
//! field of BN254 in [`bn256::Bn256Fr`]. What holds of all of them is proved in
//! [`lemmas`].

pub mod bn256;
pub mod circuit;
pub mod constraint;
pub mod field;
pub mod layout;
pub mod lemmas;
pub mod prover;
pub mod table;
