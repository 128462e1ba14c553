use pgnn_itaipu::datas::{
    ano_data, dividir_por_ano, dividir_temporal, dividir_treino_validacao, mes_data,
    ordenar_por_data,
};

#[test]
fn mes_de_datas_validas() {
    assert_eq!(mes_data("2015-01-01"), 1);
    assert_eq!(mes_data("2015-03-01"), 3);
    assert_eq!(mes_data("2024-12-31"), 12);
    assert_eq!(mes_data("2020-07"), 7);
}

#[test]
fn mes_invalido_vira_janeiro() {
    assert_eq!(mes_data("2015-13-01"), 1);
    assert_eq!(mes_data("2015-00-01"), 1);
    assert_eq!(mes_data("2015-1"), 1);
    assert_eq!(mes_data(""), 1);
    assert_eq!(mes_data("2015-ab-01"), 1);
    assert_eq!(mes_data("2015--3-01"), 1);
}

#[test]
fn mes_aceita_sinal_mais_como_parse() {
    assert_eq!(mes_data("2015-+3-01"), 3);
    assert_eq!(mes_data("2015-+0-01"), 1);
}

#[test]
fn mes_em_texto_nao_ascii_usa_bytes() {
    // "é" ocupa dois bytes: os bytes 5..7 são "-0".
    assert_eq!(mes_data("é015-03-01"), 1);
    // fatia que corta um caractere ao meio não é lida
    assert_eq!(mes_data("2015-é3-01"), 1);
}

#[test]
fn ano_de_datas() {
    assert_eq!(ano_data("2015-01-01"), 2015);
    assert_eq!(ano_data("2024"), 2024);
    assert_eq!(ano_data("-015-01-01"), -15);
    assert_eq!(ano_data("+015-01-01"), 15);
    assert_eq!(ano_data("0000-01-01"), 0);
}

#[test]
fn ano_invalido_vira_zero() {
    assert_eq!(ano_data("201"), 0);
    assert_eq!(ano_data(""), 0);
    assert_eq!(ano_data("20a5-01-01"), 0);
    assert_eq!(ano_data("+-15-01-01"), 0);
    assert_eq!(ano_data("abé-01"), 0);
}

#[test]
fn divisao_temporal_principal() {
    let datas = [
        "2023-01-02",
        "2015-01-01",
        "2022-12-31",
        "2023-01-01",
        "2022-12-31T12",
        "2024-12-31",
        "2022-06-15",
    ];
    let (treino, teste) = dividir_temporal(&datas);
    assert_eq!(treino, vec![1, 2, 6]);
    assert_eq!(teste, vec![0, 3, 5]);
    for &a in &treino {
        for &b in &teste {
            assert!(datas[a] < datas[b]);
        }
    }
}

#[test]
fn divisao_temporal_vazia() {
    let datas: [&str; 0] = [];
    let (treino, teste) = dividir_temporal(&datas);
    assert!(treino.is_empty() && teste.is_empty());
}

#[test]
fn divisao_treino_validacao() {
    let datas = [
        "2020-12-31",
        "2021-01-01",
        "2022-12-31",
        "2023-01-01",
        "2016-05-05",
        "2021-06-30",
        "2020-12-31X",
    ];
    let (interno, validacao) = dividir_treino_validacao(&datas);
    assert_eq!(interno, vec![0, 4]);
    assert_eq!(validacao, vec![1, 2, 5]);
    let (treino, _) = dividir_temporal(&datas);
    for i in interno.iter().chain(validacao.iter()) {
        assert!(treino.contains(i));
    }
}

#[test]
fn divisao_por_ano() {
    let datas = ["2019-12-31", "2020-01-01", "2021-03-03", "2018-07-07", "xxxx", "2020-12-31"];
    let (treino, teste) = dividir_por_ano(&datas, 2020);
    assert_eq!(treino, vec![0, 3, 4]);
    assert_eq!(teste, vec![1, 5]);
    let (treino, teste) = dividir_por_ano(&datas, 2015);
    assert_eq!(treino, vec![4]);
    assert!(teste.is_empty());
}

#[test]
fn ordenacao_estavel_por_data() {
    let datas = ["2020-01-03", "2020-01-01", "2020-01-03", "2019-12-31", "2020-01-01"];
    assert_eq!(ordenar_por_data(&datas), vec![3, 1, 4, 0, 2]);
    let vazia: [&str; 0] = [];
    assert!(ordenar_por_data(&vazia).is_empty());
}

#[test]
fn ordenacao_igual_a_sort_estavel() {
    let datas = ["b", "a", "ab", "", "a", "é", "z", "ab", "aa"];
    let mut esperado: Vec<usize> = (0..datas.len()).collect();
    esperado.sort_by(|&x, &y| datas[x].cmp(datas[y]));
    assert_eq!(ordenar_por_data(&datas), esperado);
}
