//! The making of particles: radius, position, velocity and colour are drawn
//! at random, each from its own interval.

use crate::fixo::ESCALA;
use crate::particula::{Cor, Limites, Particula, Vetor};
use vstd::prelude::*;

verus! {

/// Distance kept between a new particle and the sides of the play area: `20.0`.
pub const MARGEM: i64 = 20_000_000;

/// Smallest radius of a new particle: `3.0`.
pub const RAIO_MINIMO: i64 = 3_000_000;

/// Largest radius of a new particle: `6.0`.
pub const RAIO_MAXIMO: i64 = 6_000_000;

/// Largest horizontal speed of a new particle, to either side: `200.0`.
pub const LANCE_HORIZONTAL: i64 = 200_000_000;

/// Largest upward speed of a new particle: `50.0`.
pub const LANCE_VERTICAL: i64 = 50_000_000;

/// Smallest value of a colour channel of a new particle: `0.2`.
pub const BRILHO_MINIMO: i64 = 200_000;

/// Largest magnitude of an end of an interval to draw from: `2^52`, up to
/// which a 64-bit float holds every integer and every difference of two.
pub const LIMITE_SORTEIO: i64 = 0x10_0000_0000_0000;

/// `v` lies between `a` and `b`, whichever of the two is the smaller.
pub open spec fn entre(v: int, a: int, b: int) -> bool {
    ||| a <= v <= b
    ||| b <= v <= a
}

/// What holds of every particle made for `limites`, whatever was drawn: the
/// radius is between `3.0` and `6.0`; the position keeps the margin from each
/// side (in a play area narrower than two margins the two ends of the interval
/// are crossed, and the position lies between them); the horizontal speed is
/// at most `200.0` to either side and the vertical speed between `50.0`
/// upward and none; red, green and blue are between `0.2` and `1.0`, and the
/// particle is opaque.
pub open spec fn recem_criada(p: Particula, limites: Limites) -> bool {
    &&& RAIO_MINIMO <= p.raio <= RAIO_MAXIMO
    &&& entre(p.posicao.x as int, limites.x + MARGEM, limites.x + limites.w - MARGEM)
    &&& entre(p.posicao.y as int, limites.y + MARGEM, limites.y + limites.h - MARGEM)
    &&& -LANCE_HORIZONTAL <= p.velocidade.x <= LANCE_HORIZONTAL
    &&& -LANCE_VERTICAL <= p.velocidade.y <= 0
    &&& BRILHO_MINIMO <= p.cor.r <= ESCALA
    &&& BRILHO_MINIMO <= p.cor.g <= ESCALA
    &&& BRILHO_MINIMO <= p.cor.b <= ESCALA
    &&& p.cor.a == ESCALA
}

/// Draws a number between `baixo` and `alto` with `macroquad::rand::gen_range`,
/// which takes the next value of the process-wide generator, scales it onto
/// the interval in 64-bit floating point and drops the fraction. Not proved:
/// that the number drawn lies between the two ends, in whichever order they
/// come. Nothing is claimed of which number it is. Ends beyond `2^52` are
/// left out because the floating-point sum could then round past an end.
#[verifier::external_body]
fn sortear(baixo: i64, alto: i64) -> (r: i64)
    requires
        -LIMITE_SORTEIO <= baixo <= LIMITE_SORTEIO,
        -LIMITE_SORTEIO <= alto <= LIMITE_SORTEIO,
    ensures
        entre(r as int, baixo as int, alto as int),
{
    macroquad::rand::gen_range(baixo, alto)
}

/// Makes a particle for the play area `limites`, drawing in this order its
/// radius, the two coordinates of its position, the two components of its
/// velocity, and its red, green and blue.
pub fn particula_aleatoria(limites: Limites) -> (p: Particula)
    requires
        limites.validos(),
    ensures
        recem_criada(p, limites),
        p.valida(),
{
    let raio = sortear(RAIO_MINIMO, RAIO_MAXIMO);
    let posicao = Vetor {
        x: sortear(limites.x + MARGEM, limites.x + limites.w - MARGEM),
        y: sortear(limites.y + MARGEM, limites.y + limites.h - MARGEM),
    };
    let velocidade = Vetor {
        x: sortear(-LANCE_HORIZONTAL, LANCE_HORIZONTAL),
        y: sortear(-LANCE_VERTICAL, 0),
    };
    let cor = Cor {
        r: sortear(BRILHO_MINIMO, ESCALA),
        g: sortear(BRILHO_MINIMO, ESCALA),
        b: sortear(BRILHO_MINIMO, ESCALA),
        a: ESCALA,
    };
    Particula { posicao, velocidade, raio, cor }
}

} // verus!
