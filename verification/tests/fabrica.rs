use particulas::fabrica::{
    particula_aleatoria, BRILHO_MINIMO, LANCE_HORIZONTAL, LANCE_VERTICAL, MARGEM, RAIO_MAXIMO,
    RAIO_MINIMO,
};
use particulas::fixo::ESCALA;
use particulas::particula::{Limites, Particula, LIMITE_EXTENSAO};

const JANELA: Limites = Limites { x: 0, y: 0, w: 800 * ESCALA, h: 600 * ESCALA };

fn feita_para(limites: Limites) -> Particula {
    assert!(limites.sao_validos());
    particula_aleatoria(limites)
}

fn em_unidades(v: i64) -> f64 {
    v as f64 / ESCALA as f64
}

#[test]
fn constantes_da_fabrica() {
    assert_eq!(em_unidades(RAIO_MINIMO), 3.0);
    assert_eq!(em_unidades(RAIO_MAXIMO), 6.0);
    assert_eq!(em_unidades(MARGEM), 20.0);
    assert_eq!(em_unidades(LANCE_HORIZONTAL), 200.0);
    assert_eq!(em_unidades(LANCE_VERTICAL), 50.0);
    assert_eq!(em_unidades(BRILHO_MINIMO), 0.2);
}

#[test]
fn mil_particulas_dentro_das_faixas() {
    for _ in 0..1000 {
        let p = feita_para(JANELA);
        assert!(3.0 <= em_unidades(p.raio) && em_unidades(p.raio) <= 6.0);
        assert!(0.2 <= em_unidades(p.cor.r) && em_unidades(p.cor.r) <= 1.0);
        assert!(0.2 <= em_unidades(p.cor.g) && em_unidades(p.cor.g) <= 1.0);
        assert!(0.2 <= em_unidades(p.cor.b) && em_unidades(p.cor.b) <= 1.0);
        assert_eq!(em_unidades(p.cor.a), 1.0);
        assert!(-50.0 <= em_unidades(p.velocidade.y) && em_unidades(p.velocidade.y) <= 0.0);
        assert!(-200.0 <= em_unidades(p.velocidade.x) && em_unidades(p.velocidade.x) <= 200.0);
        assert!(20.0 <= em_unidades(p.posicao.x) && em_unidades(p.posicao.x) <= 780.0);
        assert!(20.0 <= em_unidades(p.posicao.y) && em_unidades(p.posicao.y) <= 580.0);
        assert!(p.e_valida());
    }
}

#[test]
fn a_margem_acompanha_o_canto() {
    let limites = Limites { x: -300 * ESCALA, y: 50 * ESCALA, w: 100 * ESCALA, h: 41 * ESCALA };
    for _ in 0..500 {
        let p = feita_para(limites);
        assert!(-280 * ESCALA <= p.posicao.x && p.posicao.x <= -220 * ESCALA);
        assert!(70 * ESCALA <= p.posicao.y && p.posicao.y <= 71 * ESCALA);
    }
}

#[test]
fn os_sorteios_variam() {
    let mut raios: Vec<i64> = Vec::new();
    let mut lugares: Vec<i64> = Vec::new();
    let mut subidas: Vec<i64> = Vec::new();
    let mut vermelhos: Vec<i64> = Vec::new();
    for _ in 0..1000 {
        let p = feita_para(JANELA);
        raios.push(p.raio);
        lugares.push(p.posicao.x);
        subidas.push(p.velocidade.y);
        vermelhos.push(p.cor.r);
    }
    for valores in [raios, lugares, subidas, vermelhos] {
        let menor = *valores.iter().min().unwrap();
        let maior = *valores.iter().max().unwrap();
        assert!(menor < maior);
        let mut distintos = valores.clone();
        distintos.sort();
        distintos.dedup();
        assert!(distintos.len() > 100);
    }
}

#[test]
fn os_sorteios_cobrem_a_faixa() {
    let mut menor = RAIO_MAXIMO;
    let mut maior = RAIO_MINIMO;
    for _ in 0..1000 {
        let p = feita_para(JANELA);
        menor = menor.min(p.raio);
        maior = maior.max(p.raio);
    }
    assert!(menor < RAIO_MINIMO + ESCALA / 2);
    assert!(maior > RAIO_MAXIMO - ESCALA / 2);
}

#[test]
fn area_mais_estreita_que_duas_margens() {
    // the interval for the position is crossed: from 20 down to -10
    let limites = Limites { x: 0, y: 0, w: 10 * ESCALA, h: 30 * ESCALA };
    for _ in 0..500 {
        let p = feita_para(limites);
        assert!(-10 * ESCALA <= p.posicao.x && p.posicao.x <= 20 * ESCALA);
        assert!(10 * ESCALA <= p.posicao.y && p.posicao.y <= 20 * ESCALA);
        assert!(p.e_valida());
    }
}

#[test]
fn area_de_duas_margens_exatas() {
    let limites = Limites { x: 5 * ESCALA, y: 5 * ESCALA, w: 40 * ESCALA, h: 40 * ESCALA };
    for _ in 0..100 {
        let p = feita_para(limites);
        assert_eq!(p.posicao.x, 25 * ESCALA);
        assert_eq!(p.posicao.y, 25 * ESCALA);
    }
}

#[test]
fn area_no_limite_de_extensao() {
    let limites = Limites {
        x: -LIMITE_EXTENSAO,
        y: LIMITE_EXTENSAO,
        w: LIMITE_EXTENSAO,
        h: -LIMITE_EXTENSAO,
    };
    for _ in 0..100 {
        let p = feita_para(limites);
        assert!(p.e_valida());
        assert!(-LIMITE_EXTENSAO + MARGEM <= p.posicao.x && p.posicao.x <= -MARGEM);
        assert!(-MARGEM <= p.posicao.y && p.posicao.y <= LIMITE_EXTENSAO + MARGEM);
    }
}
