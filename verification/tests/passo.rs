use particulas::fixo::ESCALA;
use particulas::particula::{Cor, Limites, Particula, Vetor, LIMITE_VELOCIDADE};
use particulas::passo::{ATRITO, GRAVIDADE, RESTITUICAO};

const BRANCO: Cor = Cor { r: ESCALA, g: ESCALA, b: ESCALA, a: ESCALA };

const AREA: Limites = Limites { x: 0, y: 0, w: 100 * ESCALA, h: 100 * ESCALA };

fn particula(x: i64, y: i64, vx: i64, vy: i64, raio: i64) -> Particula {
    Particula { posicao: Vetor { x, y }, velocidade: Vetor { x: vx, y: vy }, raio, cor: BRANCO }
}

fn apos(mut p: Particula, dt: i64, limites: Limites) -> Particula {
    assert!(p.e_valida());
    assert!(limites.sao_validos());
    p.atualizar(dt, limites);
    p
}

fn em_unidades(v: i64) -> f64 {
    v as f64 / ESCALA as f64
}

#[test]
fn constantes_do_passo() {
    assert_eq!(GRAVIDADE, 600 * ESCALA);
    assert_eq!(em_unidades(RESTITUICAO), 0.8);
    assert_eq!(em_unidades(ATRITO), 0.99);
}

#[test]
fn queda_livre_em_um_passo() {
    let p = apos(particula(50_000_000, 50_000_000, 0, 0, 5_000_000), 16_667, AREA);
    assert_eq!(p, particula(50_000_000, 50_166_673, 0, 10_000_200, 5_000_000));
}

#[test]
fn passo_sem_tempo_nao_move() {
    let antes = particula(50_000_000, 50_000_000, 12_000_000, -7_000_000, 5_000_000);
    assert_eq!(apos(antes, 0, AREA), antes);
}

#[test]
fn movimento_usa_a_velocidade_ja_acelerada() {
    // gravity first: 600 * 0.02 = 12; then 50 + 12 * 0.02 = 50.24
    let p = apos(particula(50_000_000, 50_000_000, 0, 0, 5_000_000), 20_000, AREA);
    assert_eq!(p.velocidade.y, 12_000_000);
    assert_eq!(p.posicao.y, 50_240_000);
}

#[test]
fn quique_na_esquerda() {
    let p = apos(particula(6_000_000, 50_000_000, -100_000_000, 0, 5_000_000), 20_000, AREA);
    assert_eq!(p, particula(5_000_000, 50_240_000, 80_000_000, 11_880_000, 5_000_000));
}

#[test]
fn quique_na_esquerda_com_velocidade_vertical() {
    let vx: i64 = -100_000_000;
    let vy: i64 = -30_000_000;
    let dt: i64 = 20_000;
    let p = apos(particula(6_000_000, 50_000_000, vx, vy, 5_000_000), dt, AREA);
    // -vx * 0.8, and 0.99 of the vertical speed after gravity
    assert_eq!(p.velocidade.x, 80_000_000);
    assert_eq!(p.velocidade.y, -17_820_000);
    assert!((em_unidades(p.velocidade.x) - -em_unidades(vx) * 0.8).abs() < 1e-5);
    assert!((em_unidades(p.velocidade.y) - (em_unidades(vy) + 600.0 * em_unidades(dt)) * 0.99).abs() < 1e-5);
    assert_eq!(p.posicao, Vetor { x: 5_000_000, y: 49_640_000 });
}

#[test]
fn quique_na_direita() {
    let p = apos(particula(94_000_000, 50_000_000, 100_000_000, 0, 5_000_000), 20_000, AREA);
    assert_eq!(p, particula(95_000_000, 50_240_000, -80_000_000, 11_880_000, 5_000_000));
}

#[test]
fn quique_no_topo() {
    let p = apos(particula(50_000_000, 6_000_000, 10_000_000, -100_000_000, 5_000_000), 20_000, AREA);
    assert_eq!(p, particula(50_200_000, 5_000_000, 9_900_000, 70_400_000, 5_000_000));
}

#[test]
fn quique_no_fundo() {
    let p = apos(particula(50_000_000, 94_000_000, 10_000_000, 100_000_000, 5_000_000), 20_000, AREA);
    assert_eq!(p, particula(50_200_000, 95_000_000, 9_900_000, -89_600_000, 5_000_000));
}

#[test]
fn quique_no_canto_aplica_as_duas_reflexoes() {
    let p = apos(
        particula(6_000_000, 6_000_000, -100_000_000, -100_000_000, 5_000_000),
        20_000,
        AREA,
    );
    // left: vx = 80, vy = -88 * 0.99 = -87.12; top: vy = 87.12 * 0.8, vx = 80 * 0.99
    assert_eq!(p, particula(5_000_000, 5_000_000, 79_200_000, 69_696_000, 5_000_000));
}

#[test]
fn quique_no_canto_oposto() {
    let p = apos(
        particula(94_000_000, 94_000_000, 100_000_000, 100_000_000, 5_000_000),
        20_000,
        AREA,
    );
    assert_eq!(p, particula(95_000_000, 95_000_000, -79_200_000, -88_704_000, 5_000_000));
}

#[test]
fn raio_maior_que_meia_area_sofre_as_quatro_correcoes() {
    // left puts the centre at 60, right then at 40; top at 60, bottom then at 40
    let p = apos(particula(50_000_000, 50_000_000, 30_000_000, 0, 60_000_000), 20_000, AREA);
    assert_eq!(p, particula(40_000_000, 40_000_000, 18_817_920, 7_527_168, 60_000_000));
}

#[test]
fn arredonda_para_zero() {
    let p = apos(particula(50_000_000, 50_000_000, -7, -13, 5_000_000), 333, AREA);
    assert_eq!(p, particula(50_000_000, 50_000_066, -7, 199_787, 5_000_000));
}

#[test]
fn passo_para_tras() {
    let p = apos(particula(50_000_000, 50_000_000, 12_345_678, -7_654_321, 5_000_000), -16_667, AREA);
    assert_eq!(p, particula(49_794_235, 50_294_247, 12_345_678, -17_654_521, 5_000_000));
}

#[test]
fn velocidade_satura_no_limite() {
    let p = apos(
        particula(50_000_000, 50_000_000, 0, LIMITE_VELOCIDADE - 5, 5_000_000),
        16_667,
        AREA,
    );
    assert_eq!(p, particula(50_000_000, 95_000_000, 0, -800_000_000_000_000, 5_000_000));
}

#[test]
fn passo_enorme_nao_transborda() {
    let p = apos(
        particula(50_000_000, 50_000_000, LIMITE_VELOCIDADE, -LIMITE_VELOCIDADE, 5_000_000),
        i64::MAX,
        AREA,
    );
    assert!(p.e_valida());
    assert_eq!(p.posicao, Vetor { x: 95_000_000, y: 95_000_000 });
    let q = apos(
        particula(50_000_000, 50_000_000, LIMITE_VELOCIDADE, -LIMITE_VELOCIDADE, 5_000_000),
        i64::MIN,
        AREA,
    );
    assert!(q.e_valida());
    assert_eq!(q.posicao, Vetor { x: 5_000_000, y: 95_000_000 });
}

#[test]
fn permanece_nos_limites() {
    let area = Limites { x: -30 * ESCALA, y: 15 * ESCALA, w: 200 * ESCALA, h: 120 * ESCALA };
    let raio = 6 * ESCALA;
    let passos: [i64; 6] = [0, 1, 1_000, 16_667, 33_333, 5_000_000];
    let lugares: [i64; 7] = [-1_000, -31, -24, 0, 70, 170, 2_000];
    let velocidades: [i64; 5] = [-5_000, -200, 0, 200, 5_000];
    for dt in passos {
        for x in lugares {
            for y in lugares {
                for vx in velocidades {
                    for vy in velocidades {
                        let p = apos(
                            particula(x * ESCALA, y * ESCALA, vx * ESCALA, vy * ESCALA, raio),
                            dt,
                            area,
                        );
                        assert!(area.x + raio <= p.posicao.x);
                        assert!(p.posicao.x <= area.x + area.w - raio);
                        assert!(area.y + raio <= p.posicao.y);
                        assert!(p.posicao.y <= area.y + area.h - raio);
                        assert!(p.e_valida());
                    }
                }
            }
        }
    }
}

#[test]
fn passo_acompanha_a_formula_em_ponto_flutuante() {
    let dt: i64 = 16_667;
    let mut p = particula(30_000_000, 20_000_000, 150_000_000, -40_000_000, 5_000_000);
    let (mut x, mut y, mut vx, mut vy) = (30.0f64, 20.0f64, 150.0f64, -40.0f64);
    let (r, t) = (5.0f64, em_unidades(dt));
    for _ in 0..120 {
        p = apos(p, dt, AREA);
        vy += 600.0 * t;
        x += vx * t;
        y += vy * t;
        if x - r < 0.0 {
            x = r;
            vx = -vx * 0.8;
            vy *= 0.99;
        }
        if x + r > 100.0 {
            x = 100.0 - r;
            vx = -vx * 0.8;
            vy *= 0.99;
        }
        if y - r < 0.0 {
            y = r;
            vy = -vy * 0.8;
            vx *= 0.99;
        }
        if y + r > 100.0 {
            y = 100.0 - r;
            vy = -vy * 0.8;
            vx *= 0.99;
        }
        assert!((em_unidades(p.posicao.x) - x).abs() < 1e-2);
        assert!((em_unidades(p.posicao.y) - y).abs() < 1e-2);
        assert!((em_unidades(p.velocidade.x) - vx).abs() < 1e-2);
        assert!((em_unidades(p.velocidade.y) - vy).abs() < 1e-2);
    }
}

#[test]
fn repousa_no_fundo() {
    let fundo: i64 = 95_000_000;
    let mut p = particula(50_000_000, 50_000_000, 0, 0, 5_000_000);
    let mut alturas: Vec<i64> = Vec::new();
    let mut mais_alto: Option<i64> = None;
    for _ in 0..3000 {
        p = apos(p, 16_667, AREA);
        assert_eq!(p.posicao.x, 50_000_000);
        assert!(p.posicao.y <= fundo);
        if p.posicao.y == fundo {
            if let Some(y) = mais_alto {
                alturas.push(y);
            }
            mais_alto = None;
        } else {
            mais_alto = Some(match mais_alto {
                Some(y) if y < p.posicao.y => y,
                _ => p.posicao.y,
            });
        }
    }
    // each bounce reaches less high than the one before
    assert!(alturas.len() >= 5);
    for i in 1..alturas.len() {
        assert!(alturas[i - 1] < alturas[i]);
    }
    // and in the end the particle lies on the bottom, too slow to be lifted
    assert!((em_unidades(p.posicao.y) - 95.0).abs() < 1e-6);
    let ganho = 600 * 16_667;
    for _ in 0..600 {
        p = apos(p, 16_667, AREA);
        assert_eq!(p.posicao.y, fundo);
        assert!(-ganho <= p.velocidade.y && 4 * p.velocidade.y <= ganho);
    }
}

#[test]
fn a_queda_nunca_sobe_alem_da_largada() {
    for (altura, dt) in [(50, 16_667), (20, 33_333), (93, 1_000), (80, 8_000)] {
        let largada = altura * ESCALA;
        let mut p = particula(50_000_000, largada, 0, 0, 5_000_000);
        let mut energia = i128::MAX;
        for _ in 0..20_000 {
            p = apos(p, dt, AREA);
            assert!(largada <= p.posicao.y && p.posicao.y <= 95_000_000);
            assert_eq!(p.posicao.x, 50_000_000);
            assert_eq!(p.velocidade.x, 0);
            // the energy stays below the larger of what it was and that of the
            // hardest bounce from rest
            let v = p.velocidade.y as i128;
            let agora = v * v + 2 * GRAVIDADE as i128 * (95_000_000 - p.posicao.y) as i128;
            let ganho = 600 * dt as i128;
            assert!(agora <= energia.max(16 * ganho * ganho));
            energia = energia.min(agora.max(16 * ganho * ganho));
        }
        assert_eq!(p.posicao.y, 95_000_000);
        assert!(-600 * dt <= p.velocidade.y && 4 * p.velocidade.y <= 600 * dt);
    }
}

#[test]
fn em_repouso_fica_em_repouso() {
    for dt in [1_000, 16_667, 33_333] {
        for vy in [-600 * dt, -1, 0, 1, 150 * dt] {
            let mut p = particula(50_000_000, 95_000_000, 0, vy, 5_000_000);
            for _ in 0..2_000 {
                p = apos(p, dt, AREA);
                assert_eq!(p.posicao.y, 95_000_000);
                assert!(-600 * dt <= p.velocidade.y && 4 * p.velocidade.y <= 600 * dt);
            }
        }
    }
}

#[test]
fn nenhum_quique_sobe_mais_que_o_anterior() {
    let fundo: i64 = 95_000_000;
    for (altura, dt) in [(50, 16_667), (20, 33_333), (93, 1_000), (80, 8_000), (94, 16_667)] {
        let mut p = particula(50_000_000, altura * ESCALA, 0, 0, 5_000_000);
        let mut alturas: Vec<i64> = Vec::new();
        let mut quiques: Vec<usize> = Vec::new();
        for n in 0..30_000 {
            p = apos(p, dt, AREA);
            alturas.push(fundo - p.posicao.y);
            if p.posicao.y == fundo && p.velocidade.y <= 0 {
                quiques.push(n);
            }
        }
        assert!(quiques.len() > 100);
        for par in quiques.windows(2) {
            let (a, b) = (par[0], par[1]);
            let mut j = 1;
            while b + j < alturas.len() && alturas[b + j] > 0 {
                // as high, as many steps after the bounce before
                assert!(alturas[a + j] >= alturas[b + j]);
                assert!(a + j < b);
                j += 1;
            }
        }
    }
}
