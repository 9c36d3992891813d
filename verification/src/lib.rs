//! A particle simulation in two dimensions: circular particles fall under
//! gravity, bounce off the sides of a rectangle and lose energy at each
//! bounce, are made at the pointer while its left button is held and are
//! pulled toward it while its right button is held.
//!
//! All quantities are fixed-point numbers with six decimal places, held in an
//! `i64` (see `fixo`). Positions, play areas and radii have a largest
//! magnitude (see `particula`), far beyond any screen, so that no step
//! overflows; velocities saturate at theirs.
//!
//! `passo` advances one particle by one time step, `atracao` applies the pull
//! of the pointer, `fabrica` makes particles at random, and `simulacao` holds
//! the population and takes it through one frame. `queda` follows a particle
//! that falls straight down through any number of steps. `leis` states what
//! follows for every particle and every step.

pub mod fixo;
pub mod particula;
pub mod passo;
pub mod atracao;
pub mod fabrica;
pub mod simulacao;
pub mod queda;
pub mod leis;
