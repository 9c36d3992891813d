//! The data of the simulation: vectors, colours, the play area and particles.

use vstd::prelude::*;

verus! {

/// Largest magnitude of a coordinate or a side of the play area, and largest
/// radius: a million units.
pub const LIMITE_EXTENSAO: i64 = 1_000_000_000_000;

/// Largest magnitude of a coordinate of a particle or of the pointer. Three
/// times `LIMITE_EXTENSAO`, so that a particle pushed back onto any side of a
/// valid play area is still within it.
pub const LIMITE_POSICAO: i64 = 3_000_000_000_000;

/// Largest magnitude of a component of a velocity: a thousand million units
/// per second. Sums that would exceed it saturate there.
pub const LIMITE_VELOCIDADE: i64 = 1_000_000_000_000_000;

/// A vector of the plane.
#[derive(Clone, Copy, Debug, PartialEq, Eq)]
pub struct Vetor {
    pub x: i64,
    pub y: i64,
}

/// A colour: red, green, blue and opacity, where `0.0` is none and `1.0` is
/// full.
#[derive(Clone, Copy, Debug, PartialEq, Eq)]
pub struct Cor {
    pub r: i64,
    pub g: i64,
    pub b: i64,
    pub a: i64,
}

/// The play area: the rectangle with corner `(x, y)`, width `w` and height `h`.
#[derive(Clone, Copy, Debug, PartialEq, Eq)]
pub struct Limites {
    pub x: i64,
    pub y: i64,
    pub w: i64,
    pub h: i64,
}

/// A circular particle.
#[derive(Clone, Copy, Debug, PartialEq, Eq)]
pub struct Particula {
    pub posicao: Vetor,
    pub velocidade: Vetor,
    pub raio: i64,
    pub cor: Cor,
}

impl Vetor {
    /// Both components lie in `[-limite, limite]`.
    pub open spec fn cabe(self, limite: int) -> bool {
        &&& -limite <= self.x <= limite
        &&& -limite <= self.y <= limite
    }

    /// Whether both components lie in `[-limite, limite]`.
    pub fn cabe_em(&self, limite: i64) -> (b: bool)
        requires
            limite >= 0,
        ensures
            b == self.cabe(limite as int),
    {
        -limite <= self.x && self.x <= limite && -limite <= self.y && self.y <= limite
    }
}

impl Limites {
    /// Corner and sides are within `LIMITE_EXTENSAO`.
    pub open spec fn validos(self) -> bool {
        &&& -LIMITE_EXTENSAO <= self.x <= LIMITE_EXTENSAO
        &&& -LIMITE_EXTENSAO <= self.y <= LIMITE_EXTENSAO
        &&& -LIMITE_EXTENSAO <= self.w <= LIMITE_EXTENSAO
        &&& -LIMITE_EXTENSAO <= self.h <= LIMITE_EXTENSAO
    }

    /// A circle of this radius fits: the radius is at most half of each side.
    pub open spec fn comporta(self, raio: int) -> bool {
        &&& 2 * raio <= self.w
        &&& 2 * raio <= self.h
    }

    /// The circle with this centre and radius lies inside the play area.
    pub open spec fn contem(self, centro: Vetor, raio: int) -> bool {
        &&& self.x + raio <= centro.x <= self.x + self.w - raio
        &&& self.y + raio <= centro.y <= self.y + self.h - raio
    }

    /// Whether corner and sides are within `LIMITE_EXTENSAO`.
    pub fn sao_validos(&self) -> (b: bool)
        ensures
            b == self.validos(),
    {
        -LIMITE_EXTENSAO <= self.x && self.x <= LIMITE_EXTENSAO && -LIMITE_EXTENSAO <= self.y
            && self.y <= LIMITE_EXTENSAO && -LIMITE_EXTENSAO <= self.w && self.w
            <= LIMITE_EXTENSAO && -LIMITE_EXTENSAO <= self.h && self.h <= LIMITE_EXTENSAO
    }
}

impl Particula {
    /// The radius is positive and, like position and velocity, within its
    /// limit.
    pub open spec fn valida(self) -> bool {
        &&& self.posicao.cabe(LIMITE_POSICAO as int)
        &&& self.velocidade.cabe(LIMITE_VELOCIDADE as int)
        &&& 0 < self.raio <= LIMITE_EXTENSAO
    }

    /// Whether the particle is valid.
    pub fn e_valida(&self) -> (b: bool)
        ensures
            b == self.valida(),
    {
        self.posicao.cabe_em(LIMITE_POSICAO) && self.velocidade.cabe_em(LIMITE_VELOCIDADE)
            && 0 < self.raio && self.raio <= LIMITE_EXTENSAO
    }
}

} // verus!
