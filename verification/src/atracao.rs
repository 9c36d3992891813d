//! The pull of the pointer: an impulse on the velocity of a particle, directed
//! from the particle to the pointer and falling off with the square of the
//! distance.

use crate::fixo::{
    lema_multiplicacao_limitada, lema_quociente_ao_quadrado, lema_quociente_limitado,
    lema_raiz_acima, limitar, produto, quociente, raiz_acima, raiz_inteira_acima, saturar, ESCALA,
};
use crate::particula::{Particula, Vetor, LIMITE_POSICAO, LIMITE_VELOCIDADE};
use vstd::prelude::*;

verus! {

/// Strength of the attraction: `120000.0`.
pub const ATRACAO: i64 = 120_000_000_000;

/// `1.0` squared, in the unit of squared distances.
pub const UNIDADE_QUADRADA: i128 = 1_000_000_000_000;

/// `2.0 * ATRACAO`, in the unit of the numerator of a strength.
pub const DOBRO_DA_ATRACAO: i128 = 240_000_000_000_000_000;

/// The strength of the impulse within one unit of the pointer, for each
/// millionth of a second of the time step: `2.0 * ATRACAO` as a whole number.
pub const PUXAO_MAXIMO: i64 = 240_000;

/// The strength of the impulse on a particle whose squared distance to the
/// pointer is `n`, counted in millionths of a millionth:
/// `ATRACAO / max(n, 1.0) * dt * 2.0`. Within one unit of the pointer the
/// pull grows no further.
pub open spec fn intensidade(n: int, dt: int) -> int {
    let um: int = ESCALA * ESCALA;
    quociente(
        2 * ATRACAO * ESCALA * dt,
        if n > um {
            n
        } else {
            um
        },
    )
}

/// One component of the direction from a particle to the pointer, as a
/// fixed-point number: the component `d` of the vector to the pointer over
/// its length, whose square is `n`. The length is taken to a millionth of a
/// millionth and rounded up, the quotient toward zero, so that the direction
/// is never longer than `1.0`. At the pointer itself there is no direction.
pub open spec fn direcao(d: int, n: int) -> int {
    if n == 0 {
        0
    } else {
        quociente(d * (ESCALA * ESCALA), raiz_acima(n * (ESCALA * ESCALA)))
    }
}

/// One component of the impulse: the strength times that component of the
/// direction. At the pointer itself there is no impulse.
pub open spec fn impulso(d: int, n: int, dt: int) -> int {
    produto(direcao(d, n), intensidade(n, dt))
}

impl Particula {
    /// The squared distance from the particle to `cursor`.
    pub open spec fn distancia2(self, cursor: Vetor) -> int {
        let dx = cursor.x - self.posicao.x;
        let dy = cursor.y - self.posicao.y;
        dx * dx + dy * dy
    }

    /// The particle after the pointer at `cursor` has pulled it for `dt`
    /// seconds: the impulse is added to the velocity, which stays within
    /// `LIMITE_VELOCIDADE`.
    pub open spec fn atraida(self, cursor: Vetor, dt: int) -> Particula {
        let n = self.distancia2(cursor);
        let ix = impulso(cursor.x - self.posicao.x, n, dt);
        let iy = impulso(cursor.y - self.posicao.y, n, dt);
        Particula {
            posicao: self.posicao,
            velocidade: Vetor {
                x: saturar(self.velocidade.x + ix, LIMITE_VELOCIDADE as int) as i64,
                y: saturar(self.velocidade.y + iy, LIMITE_VELOCIDADE as int) as i64,
            },
            raio: self.raio,
            cor: self.cor,
        }
    }

    /// Adds to the velocity the impulse of a pointer held at `cursor` for `dt`
    /// seconds. A particle exactly at the pointer is left as it is.
    pub fn atrair(&mut self, cursor: Vetor, dt: i64)
        requires
            old(self).valida(),
            cursor.cabe(LIMITE_POSICAO as int),
        ensures
            *final(self) == old(self).atraida(cursor, dt as int),
            final(self).valida(),
            cursor == old(self).posicao ==> *final(self) == *old(self),
    {
        let dx: i128 = cursor.x as i128 - self.posicao.x as i128;
        let dy: i128 = cursor.y as i128 - self.posicao.y as i128;
        proof {
            let maior = 2 * LIMITE_POSICAO;
            lema_multiplicacao_limitada(dx as int, dx as int, maior, maior);
            lema_multiplicacao_limitada(dy as int, dy as int, maior, maior);
            assert(dx * dx >= 0) by (nonlinear_arith);
            assert(dy * dy >= 0) by (nonlinear_arith);
            assert(dx == 0 && dy == 0 ==> dx * dx + dy * dy == 0) by (nonlinear_arith);
        }
        let n: i128 = dx * dx + dy * dy;
        if n == 0 {
            proof {
                lema_produto_de_zero(intensidade(0, dt as int));
            }
            return ;
        }
        proof {
            lema_constantes();
            lema_raiz_acima(n * UNIDADE_QUADRADA);
            lema_direcao_limitada(dx as int, dy as int);
            lema_intensidade_limitada(n as int, dt as int);
        }
        let divisor: i128 = if n > UNIDADE_QUADRADA {
            n
        } else {
            UNIDADE_QUADRADA
        };
        let forca: i128 = (DOBRO_DA_ATRACAO * (dt as i128)) / divisor;
        let distancia: i128 = raiz_inteira_acima((n * UNIDADE_QUADRADA) as u128) as i128;
        let ux: i128 = (dx * UNIDADE_QUADRADA) / distancia;
        let uy: i128 = (dy * UNIDADE_QUADRADA) / distancia;
        proof {
            let maior = PUXAO_MAXIMO * 0x8000_0000_0000_0000;
            lema_multiplicacao_limitada(ux as int, forca as int, ESCALA as int, maior);
            lema_multiplicacao_limitada(uy as int, forca as int, ESCALA as int, maior);
            lema_quociente_limitado(ux * forca, ESCALA as int);
            lema_quociente_limitado(uy * forca, ESCALA as int);
        }
        let ix: i128 = (ux * forca) / (ESCALA as i128);
        let iy: i128 = (uy * forca) / (ESCALA as i128);
        self.velocidade = Vetor {
            x: limitar(self.velocidade.x as i128 + ix, LIMITE_VELOCIDADE),
            y: limitar(self.velocidade.y as i128 + iy, LIMITE_VELOCIDADE),
        };
    }
}

/// `UNIDADE_QUADRADA`, `DOBRO_DA_ATRACAO` and `PUXAO_MAXIMO` are what their
/// names say.
pub proof fn lema_constantes()
    ensures
        UNIDADE_QUADRADA == ESCALA * ESCALA,
        forall|dt: int| DOBRO_DA_ATRACAO * dt == #[trigger] (2 * ATRACAO * ESCALA * dt),
        DOBRO_DA_ATRACAO == PUXAO_MAXIMO * UNIDADE_QUADRADA,
{
    assert(UNIDADE_QUADRADA == ESCALA * ESCALA) by (nonlinear_arith)
        requires
            UNIDADE_QUADRADA == 1_000_000_000_000,
            ESCALA == 1_000_000,
    ;
    assert forall|dt: int| DOBRO_DA_ATRACAO * dt == #[trigger] (2 * ATRACAO * ESCALA * dt) by {
        assert(DOBRO_DA_ATRACAO * dt == 2 * ATRACAO * ESCALA * dt) by (nonlinear_arith)
            requires
                DOBRO_DA_ATRACAO == 240_000_000_000_000_000,
                ATRACAO == 120_000_000_000,
                ESCALA == 1_000_000,
        ;
    }
    assert(DOBRO_DA_ATRACAO == PUXAO_MAXIMO * UNIDADE_QUADRADA) by (nonlinear_arith)
        requires
            DOBRO_DA_ATRACAO == 240_000_000_000_000_000,
            PUXAO_MAXIMO == 240_000,
            UNIDADE_QUADRADA == 1_000_000_000_000,
    ;
}

/// Nothing times anything is nothing.
pub proof fn lema_produto_de_zero(b: int)
    ensures
        produto(0, b) == 0,
{
    assert(0 * b == 0) by (nonlinear_arith);
}

/// The strength of an impulse is at most `PUXAO_MAXIMO` for each millionth
/// of a second of the time step, whatever the distance, and has the sign of
/// the time step.
pub proof fn lema_intensidade_limitada(n: int, dt: int)
    ensures
        dt >= 0 ==> 0 <= intensidade(n, dt) <= PUXAO_MAXIMO * dt,
        dt <= 0 ==> PUXAO_MAXIMO * dt <= intensidade(n, dt) <= 0,
{
    lema_constantes();
    let um: int = ESCALA * ESCALA;
    let d = if n > um {
        n
    } else {
        um
    };
    let t = if dt >= 0 {
        dt
    } else {
        -dt
    };
    let x = DOBRO_DA_ATRACAO * t;
    assert(x / d <= x / um) by (nonlinear_arith)
        requires
            x >= 0,
            0 < um <= d,
    ;
    assert(0 <= x / d) by (nonlinear_arith)
        requires
            x >= 0,
            0 < d,
    ;
    assert(x / um == PUXAO_MAXIMO * t) by (nonlinear_arith)
        requires
            x == (PUXAO_MAXIMO * t) * um,
            um > 0,
    ;
    assert(2 * ATRACAO * ESCALA * dt == DOBRO_DA_ATRACAO * dt);
}

/// The direction is never longer than `1.0`: the squares of its two
/// components add up to at most `1.0` squared.
pub proof fn lema_direcao_limitada(dx: int, dy: int)
    ensures
        ({
            let n = dx * dx + dy * dy;
            let ux = direcao(dx, n);
            let uy = direcao(dy, n);
            &&& ux * ux + uy * uy <= ESCALA * ESCALA
            &&& -ESCALA <= ux <= ESCALA
            &&& -ESCALA <= uy <= ESCALA
        }),
{
    let n = dx * dx + dy * dy;
    let t: int = ESCALA * ESCALA;
    let ux = direcao(dx, n);
    let uy = direcao(dy, n);
    assert(t == 1_000_000_000_000) by (nonlinear_arith)
        requires
            t == ESCALA * ESCALA,
            ESCALA == 1_000_000,
    ;
    assert(dx * dx >= 0 && dy * dy >= 0) by (nonlinear_arith);
    if n == 0 {
        assert(ux * ux + uy * uy == 0) by (nonlinear_arith)
            requires
                ux == 0,
                uy == 0,
        ;
    } else {
        assert(n * t >= 0) by (nonlinear_arith)
            requires
                n >= 0,
                t >= 0,
        ;
        lema_raiz_acima(n * t);
        let r = raiz_acima(n * t);
        assert(r > 0) by (nonlinear_arith)
            requires
                r >= 0,
                r * r >= n * t,
                n > 0,
                t > 0,
        ;
        lema_quociente_ao_quadrado(dx * t, r);
        lema_quociente_ao_quadrado(dy * t, r);
        let rr = r * r;
        let sx = ux * ux;
        let sy = uy * uy;
        assert(sx >= 0 && sy >= 0) by (nonlinear_arith)
            requires
                sx == ux * ux,
                sy == uy * uy,
        ;
        assert((dx * t) * (dx * t) + (dy * t) * (dy * t) == n * (t * t)) by (nonlinear_arith)
            requires
                n == dx * dx + dy * dy,
        ;
        assert((sx + sy) * rr <= n * (t * t)) by (nonlinear_arith)
            requires
                sx * rr <= (dx * t) * (dx * t),
                sy * rr <= (dy * t) * (dy * t),
                (dx * t) * (dx * t) + (dy * t) * (dy * t) == n * (t * t),
        ;
        assert(sx + sy <= t) by (nonlinear_arith)
            requires
                (sx + sy) * rr <= n * (t * t),
                rr >= n * t,
                n > 0,
                t > 0,
                sx + sy >= 0,
        ;
    }
    assert(-ESCALA <= ux <= ESCALA) by (nonlinear_arith)
        requires
            ux * ux <= 1_000_000_000_000,
            ESCALA == 1_000_000,
    ;
    assert(-ESCALA <= uy <= ESCALA) by (nonlinear_arith)
        requires
            uy * uy <= 1_000_000_000_000,
            ESCALA == 1_000_000,
    ;
}

} // verus!
