use particulas::atracao::ATRACAO;
use particulas::fixo::ESCALA;
use particulas::particula::{
    Cor, Limites, Particula, Vetor, LIMITE_POSICAO, LIMITE_VELOCIDADE,
};

fn parada(x: i64, y: i64) -> Particula {
    movel(x, y, 0, 0)
}

fn movel(x: i64, y: i64, vx: i64, vy: i64) -> Particula {
    Particula {
        posicao: Vetor { x, y },
        velocidade: Vetor { x: vx, y: vy },
        raio: 5 * ESCALA,
        cor: Cor { r: ESCALA, g: ESCALA, b: ESCALA, a: ESCALA },
    }
}

fn atraida(mut p: Particula, cursor: Vetor, dt: i64) -> Particula {
    assert!(p.e_valida());
    assert!(cursor.cabe_em(LIMITE_POSICAO));
    p.atrair(cursor, dt);
    p
}

fn em_unidades(v: i64) -> f64 {
    v as f64 / ESCALA as f64
}

#[test]
fn constante_de_atracao() {
    assert_eq!(ATRACAO, 120_000 * ESCALA);
}

#[test]
fn impulso_a_cinco_unidades() {
    // strength 120000 / 25 * 0.01 * 2 = 96; direction (0.6, 0.8)
    let p = atraida(parada(0, 0), Vetor { x: 3_000_000, y: 4_000_000 }, 10_000);
    assert_eq!(p, movel(0, 0, 57_600_000, 76_800_000));
}

#[test]
fn sem_impulso_no_cursor() {
    let antes = movel(12_000_000, -7_000_000, 3_000_000, -4_000_000);
    assert_eq!(atraida(antes, antes.posicao, 16_667), antes);
    assert_eq!(atraida(antes, antes.posicao, 33_333), antes);
    assert_eq!(atraida(antes, antes.posicao, i64::MAX), antes);
}

#[test]
fn a_menos_de_uma_unidade_a_forca_nao_cresce() {
    // squared distance 0.25 counts as 1: strength 120000 * 0.01 * 2 = 2400
    let p = atraida(parada(0, 0), Vetor { x: 500_000, y: 0 }, 10_000);
    assert_eq!(p, movel(0, 0, 2_400_000_000, 0));
    let q = atraida(parada(0, 0), Vetor { x: 0, y: -1_000_000 }, 10_000);
    assert_eq!(q, movel(0, 0, 0, -2_400_000_000));
}

#[test]
fn o_impulso_aponta_para_o_cursor() {
    let p = atraida(movel(10_000_000, 10_000_000, 5_000_000, -5_000_000), Vetor { x: -20_000_000, y: 10_000_000 }, 16_667);
    assert_eq!(p, movel(10_000_000, 10_000_000, 555_467, -5_000_000));
    let q = atraida(parada(10_000_000, 10_000_000), Vetor { x: 17_000_000, y: -3_000_000 }, 16_667);
    assert_eq!(q, movel(10_000_000, 10_000_000, 8_699_237, -16_155_753));
}

#[test]
fn a_posicao_nao_muda_com_o_impulso() {
    let antes = movel(10_000_000, 10_000_000, 5_000_000, -5_000_000);
    let depois = atraida(antes, Vetor { x: 0, y: 0 }, 16_667);
    assert_eq!(depois.posicao, antes.posicao);
    assert_eq!(depois.raio, antes.raio);
    assert_eq!(depois.cor, antes.cor);
    assert!(depois.velocidade != antes.velocidade);
}

#[test]
fn impulso_a_um_milionesimo() {
    // strength 240000 * dt = 4000.08 along (1, 1) / sqrt(2): 2828.48 each way
    let p = atraida(parada(0, 0), Vetor { x: 1, y: 1 }, 16_667);
    assert_eq!(p, movel(0, 0, 2_828_480_568, 2_828_480_568));
    let q = atraida(parada(0, 0), Vetor { x: 1, y: 0 }, 16_667);
    assert_eq!(q, movel(0, 0, 4_000_080_000, 0));
    let r = atraida(parada(0, 0), Vetor { x: -3, y: 4 }, 16_667);
    assert_eq!(r, movel(0, 0, -2_400_048_000, 3_200_064_000));
}

#[test]
fn perto_do_cursor_a_direcao_tem_comprimento_um() {
    let dt: i64 = 16_667;
    let maior = 240_000.0 * dt as f64;
    for (x, y) in [(1, 1), (1, 2), (-7, 3), (600, -800), (-999, -1), (12_345, 67_890), (999_999, 1)] {
        let p = atraida(parada(0, 0), Vetor { x, y }, dt);
        let (vx, vy) = (p.velocidade.x as f64, p.velocidade.y as f64);
        let tamanho = (vx * vx + vy * vy).sqrt();
        assert!(tamanho <= maior);
        assert!(tamanho >= maior * 0.999_99);
        // and it points to the pointer
        let d = ((x * x + y * y) as f64).sqrt();
        assert!((vx - maior * x as f64 / d).abs() < maior * 1e-5);
        assert!((vy - maior * y as f64 / d).abs() < maior * 1e-5);
    }
}

#[test]
fn o_impulso_nunca_passa_da_intensidade() {
    let passos: [i64; 4] = [1, 16_667, 31_250, 33_333];
    let lugares: [i64; 9] =
        [1, 2, 999, 1_000, 500_000, 1_000_000, 1_414_214, 70_000_000, 3_000_000_000_000];
    for dt in passos {
        for x in lugares {
            for y in lugares {
                for (sx, sy) in [(1, 1), (-1, 1), (1, -1), (-1, -1), (1, 0), (0, -1)] {
                    let p = atraida(parada(0, 0), Vetor { x: sx * x, y: sy * y }, dt);
                    let vx = p.velocidade.x as i128;
                    let vy = p.velocidade.y as i128;
                    let maior = 240_000 * dt as i128;
                    assert!(vx * vx + vy * vy <= maior * maior);
                    assert!(vx * sx as i128 >= 0);
                    assert!(vy * sy as i128 >= 0);
                }
            }
        }
    }
}

#[test]
fn impulso_e_passo_no_mesmo_quadro() {
    let area = Limites { x: 0, y: 0, w: 80_000 * ESCALA, h: 600 * ESCALA };
    let dt: i64 = 31_250;
    // a hundred units away: 120000 / 10000 * 0.03125 * 2 = 0.75; gravity adds 18.75
    let mut p = atraida(parada(100_000_000, 100_000_000), Vetor { x: 200_000_000, y: 100_000_000 }, dt);
    p.atualizar(dt, area);
    assert_eq!(p.velocidade, Vetor { x: 750_000, y: 18_750_000 });
    // half a unit away: 120000 / 1 * 0.03125 * 2 = 7500
    let mut q = atraida(parada(100_000_000, 100_000_000), Vetor { x: 100_500_000, y: 100_000_000 }, dt);
    q.atualizar(dt, area);
    assert_eq!(q.velocidade, Vetor { x: 7_500_000_000, y: 18_750_000 });
}

#[test]
fn impulso_de_muito_longe_some() {
    let p = atraida(parada(0, 0), Vetor { x: LIMITE_POSICAO, y: -LIMITE_POSICAO }, 33_333);
    assert_eq!(p, parada(0, 0));
    let q = atraida(
        parada(-LIMITE_POSICAO, -LIMITE_POSICAO),
        Vetor { x: LIMITE_POSICAO, y: LIMITE_POSICAO },
        i64::MAX,
    );
    assert!(q.e_valida());
}

#[test]
fn tempo_negativo_afasta() {
    let p = atraida(parada(0, 0), Vetor { x: 3_000_000, y: 4_000_000 }, -10_000);
    assert_eq!(p, movel(0, 0, -57_600_000, -76_800_000));
}

#[test]
fn a_soma_satura_no_limite() {
    let p = atraida(
        movel(0, 0, LIMITE_VELOCIDADE - 10, -(LIMITE_VELOCIDADE - 10)),
        Vetor { x: ESCALA, y: -ESCALA },
        33_333,
    );
    assert_eq!(p, movel(0, 0, LIMITE_VELOCIDADE, -LIMITE_VELOCIDADE));
}

#[test]
fn impulso_acompanha_a_formula_em_ponto_flutuante() {
    let cursores: [(i64, i64); 5] = [(40, 30), (-12, 7), (3, -250), (1, 1), (600, 800)];
    for (cx, cy) in cursores {
        let dt: i64 = 16_667;
        let antes = movel(5 * ESCALA, -2 * ESCALA, 10 * ESCALA, 20 * ESCALA);
        let p = atraida(antes, Vetor { x: cx * ESCALA, y: cy * ESCALA }, dt);
        let dx = cx as f64 - 5.0;
        let dy = cy as f64 + 2.0;
        let d2 = dx * dx + dy * dy;
        let forca = 120_000.0 / d2.max(1.0) * em_unidades(dt) * 2.0;
        let vx = 10.0 + dx / d2.sqrt() * forca;
        let vy = 20.0 + dy / d2.sqrt() * forca;
        assert!((em_unidades(p.velocidade.x) - vx).abs() < 1e-3);
        assert!((em_unidades(p.velocidade.y) - vy).abs() < 1e-3);
    }
}
