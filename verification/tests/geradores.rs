use pgnn_itaipu::ml::arvores::{escolher_features, planejar_floresta, ParametrosFloresta, XorShift64};
use pgnn_itaipu::neural::network::{formas_camadas, Prng};

#[test]
fn prng_sequencia_conhecida() {
    let mut p = Prng::nova(42);
    assert_eq!(p.proximo_u64(), 590690077802032154);
    assert_eq!(p.proximo_u64(), 539994873130563277);
    assert_eq!(p.proximo_u64(), 886656687834640542);
}

#[test]
fn prng_mesma_semente_mesma_sequencia() {
    let mut a = Prng::nova(7);
    let mut b = Prng::nova(7);
    for _ in 0..100 {
        assert_eq!(a.proximo_u64(), b.proximo_u64());
    }
    let mut c = Prng::nova(8);
    let mut d = Prng::nova(7);
    assert_ne!(c.proximo_u64(), d.proximo_u64());
}

#[test]
fn prng_semente_zero_funciona() {
    let mut p = Prng::nova(0);
    let mut distintos = std::collections::BTreeSet::new();
    for _ in 0..50 {
        distintos.insert(p.proximo_u64());
    }
    assert_eq!(distintos.len(), 50);
}

#[test]
fn xorshift_semente_zero_vira_um() {
    let mut a = XorShift64::novo(0);
    let mut b = XorShift64::novo(1);
    assert_eq!(a.proximo_u64(), 1082269761);
    assert_eq!(b.proximo_u64(), 1082269761);
}

#[test]
fn xorshift_sequencia_conhecida() {
    let mut x = XorShift64::novo(7);
    assert_eq!(x.proximo_u64(), 7575888327);
    assert_eq!(x.proximo_u64(), 8070950887952051652);
    assert_eq!(x.proximo_u64(), 13931920357059763743);
}

#[test]
fn xorshift_usize_limite_zero_nao_avanca() {
    let mut a = XorShift64::novo(7);
    assert_eq!(a.usize(0), 0);
    assert_eq!(a.proximo_u64(), 7575888327);
}

#[test]
fn xorshift_usize_dentro_do_limite() {
    let mut x = XorShift64::novo(123);
    for limite in 1..200usize {
        assert!(x.usize(limite) < limite);
    }
    let mut y = XorShift64::novo(7);
    assert_eq!(y.usize(10), (7575888327u64 % 10) as usize);
}

#[test]
fn escolher_features_valor_conhecido() {
    let mut rng = XorShift64::novo(42);
    assert_eq!(escolher_features(5, 3, &mut rng), vec![4, 0, 2]);
    assert_eq!(rng.proximo_u64(), {
        let mut r = XorShift64::novo(10021416941527320954);
        r.proximo_u64()
    });
    let mut rng = XorShift64::novo(17);
    assert_eq!(escolher_features(26, 6, &mut rng), vec![5, 7, 11, 19, 18, 23]);
}

#[test]
fn escolher_features_distintas_e_no_intervalo() {
    let mut rng = XorShift64::novo(99);
    for n in 1..30usize {
        for mtry in 0..=n {
            let f = escolher_features(n, mtry, &mut rng);
            assert_eq!(f.len(), mtry);
            let mut vistos = vec![false; n];
            for &x in &f {
                assert!(x < n);
                assert!(!vistos[x]);
                vistos[x] = true;
            }
        }
    }
}

#[test]
fn escolher_todas_as_features_e_permutacao() {
    let mut rng = XorShift64::novo(5);
    let mut f = escolher_features(33, 33, &mut rng);
    f.sort();
    assert_eq!(f, (0..33).collect::<Vec<usize>>());
}

fn params(n_arvores: usize, seed: u64) -> ParametrosFloresta {
    ParametrosFloresta {
        n_arvores,
        max_depth: 4,
        min_samples_split: 8,
        min_samples_leaf: 3,
        mtry: 1,
        seed,
    }
}

#[test]
fn plano_floresta_valor_conhecido() {
    let planos = planejar_floresta(4, &params(2, 42));
    assert_eq!(planos.len(), 2);
    assert_eq!(planos[0].indices, vec![2, 3, 2, 0]);
    assert_eq!(planos[0].semente, 5661411637479084162);
    assert_eq!(planos[1].indices, vec![3, 3, 2, 0]);
    assert_eq!(planos[1].semente, 6305510500065803557);
}

#[test]
fn plano_floresta_sem_amostras() {
    let planos = planejar_floresta(0, &params(2, 5));
    assert_eq!(planos.len(), 2);
    assert!(planos[0].indices.is_empty());
    assert_eq!(planos[0].semente, 5411348805);
    assert_eq!(planos[1].semente, 5764964994168997191);
}

#[test]
fn plano_floresta_indices_validos() {
    let planos = planejar_floresta(120, &params(20, 42));
    assert_eq!(planos.len(), 20);
    for p in &planos {
        assert_eq!(p.indices.len(), 120);
        assert!(p.indices.iter().all(|&i| i < 120));
    }
    let de_novo = planejar_floresta(120, &params(20, 42));
    for (a, b) in planos.iter().zip(de_novo.iter()) {
        assert_eq!(a.indices, b.indices);
        assert_eq!(a.semente, b.semente);
    }
    assert!(planejar_floresta(10, &params(0, 1)).is_empty());
}

#[test]
fn arquitetura_correta_formas() {
    let f = formas_camadas(&[1, 16, 16, 1]);
    assert_eq!(f.len(), 3);
    assert_eq!(f[0], (1, 16));
    assert_eq!(f[1], (16, 16));
    assert_eq!(f[2], (16, 1));
    let g = formas_camadas(&[2, 8, 1]);
    assert_eq!(g, vec![(2, 8), (8, 1)]);
    for i in 0..f.len() - 1 {
        assert_eq!(f[i].1, f[i + 1].0);
    }
}
