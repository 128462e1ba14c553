use pgnn_itaipu::experimentos::{params_rf, GrupoFeatures};

#[test]
fn grupos_em_ordem() {
    let g = GrupoFeatures::todos();
    assert!(g[0] == GrupoFeatures::HidroBasico);
    assert!(g[1] == GrupoFeatures::HidroLongo);
    assert!(g[2] == GrupoFeatures::Operacional);
}

#[test]
fn nomes_dos_grupos() {
    assert_eq!(GrupoFeatures::HidroBasico.nome(), "hidro_lag1_basico");
    assert_eq!(GrupoFeatures::HidroLongo.nome(), "hidro_lags_medias_30d");
    assert_eq!(GrupoFeatures::Operacional.nome(), "operacional_lags_com_geracao");
}

#[test]
fn features_por_grupo() {
    let basico = GrupoFeatures::HidroBasico.nomes_features();
    assert_eq!(basico, vec!["mes_sin", "mes_cos", "q_lag1", "ena_lag1"]);
    let longo = GrupoFeatures::HidroLongo.nomes_features();
    assert_eq!(longo.len(), 26);
    assert_eq!(longo[25], "dena_lag7");
    let operacional = GrupoFeatures::Operacional.nomes_features();
    assert_eq!(operacional.len(), 33);
    assert_eq!(&operacional[..26], &longo[..]);
    assert_eq!(
        &operacional[26..],
        &["p_lag1", "p_lag2", "p_lag7", "p_ma3", "p_ma7", "dp_lag1", "dp_lag7"]
    );
}

#[test]
fn features_sem_repeticao() {
    for g in GrupoFeatures::todos() {
        let nomes = g.nomes_features();
        for i in 0..nomes.len() {
            for j in (i + 1)..nomes.len() {
                assert_ne!(nomes[i], nomes[j]);
            }
        }
    }
}

#[test]
fn mtry_teto_da_raiz() {
    assert_eq!(params_rf(0, 1).mtry, 2);
    assert_eq!(params_rf(1, 1).mtry, 2);
    assert_eq!(params_rf(4, 1).mtry, 2);
    assert_eq!(params_rf(5, 1).mtry, 3);
    assert_eq!(params_rf(9, 1).mtry, 3);
    assert_eq!(params_rf(10, 1).mtry, 4);
    assert_eq!(params_rf(26, 1).mtry, 6);
    assert_eq!(params_rf(33, 1).mtry, 6);
    assert_eq!(params_rf(36, 1).mtry, 6);
    assert_eq!(params_rf(37, 1).mtry, 7);
    for n in 0..2000usize {
        let esperado = ((n as f64).sqrt().ceil().max(2.0)) as usize;
        assert_eq!(params_rf(n, 3).mtry, esperado);
    }
}

#[test]
fn parametros_fixos_da_exploracao() {
    let p = params_rf(26, 117);
    assert_eq!(p.n_arvores, 80);
    assert_eq!(p.max_depth, 9);
    assert_eq!(p.min_samples_split, 30);
    assert_eq!(p.min_samples_leaf, 12);
    assert_eq!(p.seed, 117);
}
