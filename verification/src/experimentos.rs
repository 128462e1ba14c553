//! Catálogo dos grupos de features temporais e parâmetros da Random Forest exploratória.

use vstd::prelude::*;

use crate::ml::arvores::ParametrosFloresta;

verus! {

/// Grupos de features defasadas usados na exploração temporal.
#[derive(Clone, Copy, PartialEq, Eq, Structural, Debug)]
pub enum GrupoFeatures {
    HidroBasico,
    HidroLongo,
    Operacional,
}

/// Nomes das features de cada grupo, na ordem das colunas de entrada.
pub open spec fn nomes_do_grupo(g: GrupoFeatures) -> Seq<&'static str> {
    match g {
        GrupoFeatures::HidroBasico => seq!["mes_sin", "mes_cos", "q_lag1", "ena_lag1"],
        GrupoFeatures::HidroLongo => nomes_hidro_longo(),
        GrupoFeatures::Operacional => nomes_hidro_longo() + seq![
            "p_lag1",
            "p_lag2",
            "p_lag7",
            "p_ma3",
            "p_ma7",
            "dp_lag1",
            "dp_lag7",
        ],
    }
}

/// Calendário, vazão e ENA com defasagens, médias móveis e diferenças.
pub open spec fn nomes_hidro_longo() -> Seq<&'static str> {
    seq![
        "mes_sin",
        "mes_cos",
        "q_lag1",
        "q_lag2",
        "q_lag3",
        "q_lag7",
        "q_lag14",
        "q_lag30",
        "q_ma3",
        "q_ma7",
        "q_ma14",
        "q_ma30",
        "dq_lag1",
        "dq_lag7",
        "ena_lag1",
        "ena_lag2",
        "ena_lag3",
        "ena_lag7",
        "ena_lag14",
        "ena_lag30",
        "ena_ma3",
        "ena_ma7",
        "ena_ma14",
        "ena_ma30",
        "dena_lag1",
        "dena_lag7",
    ]
}

impl GrupoFeatures {
    /// Os três grupos, na ordem em que são avaliados.
    pub fn todos() -> (r: [Self; 3])
        ensures
            r@ == seq![GrupoFeatures::HidroBasico, GrupoFeatures::HidroLongo, GrupoFeatures::Operacional],
    {
        [GrupoFeatures::HidroBasico, GrupoFeatures::HidroLongo, GrupoFeatures::Operacional]
    }

    /// Rótulo do grupo nas tabelas de resultados.
    pub fn nome(self) -> (r: &'static str)
        ensures
            self == GrupoFeatures::HidroBasico ==> r == "hidro_lag1_basico",
            self == GrupoFeatures::HidroLongo ==> r == "hidro_lags_medias_30d",
            self == GrupoFeatures::Operacional ==> r == "operacional_lags_com_geracao",
    {
        match self {
            GrupoFeatures::HidroBasico => "hidro_lag1_basico",
            GrupoFeatures::HidroLongo => "hidro_lags_medias_30d",
            GrupoFeatures::Operacional => "operacional_lags_com_geracao",
        }
    }

    /// Nomes das features do grupo, na ordem das colunas de entrada.
    pub fn nomes_features(self) -> (r: Vec<&'static str>)
        ensures
            r@ == nomes_do_grupo(self),
    {
        let mut r: Vec<&'static str> = Vec::new();
        r.push("mes_sin");
        r.push("mes_cos");
        r.push("q_lag1");
        if self == GrupoFeatures::HidroBasico {
            r.push("ena_lag1");
            assert(r@ =~= nomes_do_grupo(self));
            return r;
        }
        r.push("q_lag2");
        r.push("q_lag3");
        r.push("q_lag7");
        r.push("q_lag14");
        r.push("q_lag30");
        r.push("q_ma3");
        r.push("q_ma7");
        r.push("q_ma14");
        r.push("q_ma30");
        r.push("dq_lag1");
        r.push("dq_lag7");
        r.push("ena_lag1");
        r.push("ena_lag2");
        r.push("ena_lag3");
        r.push("ena_lag7");
        r.push("ena_lag14");
        r.push("ena_lag30");
        r.push("ena_ma3");
        r.push("ena_ma7");
        r.push("ena_ma14");
        r.push("ena_ma30");
        r.push("dena_lag1");
        r.push("dena_lag7");
        if self == GrupoFeatures::HidroLongo {
            assert(r@ =~= nomes_do_grupo(self));
            return r;
        }
        r.push("p_lag1");
        r.push("p_lag2");
        r.push("p_lag7");
        r.push("p_ma3");
        r.push("p_ma7");
        r.push("dp_lag1");
        r.push("dp_lag7");
        assert(r@ =~= nomes_do_grupo(self));
        r
    }
}

/// O grupo operacional repete, na mesma ordem, todas as features hidrológicas longas e
/// acrescenta sete features de geração passada; o grupo básico tem quatro features.
pub proof fn lema_grupos_encaixados()
    ensures
        nomes_do_grupo(GrupoFeatures::HidroBasico).len() == 4,
        nomes_do_grupo(GrupoFeatures::HidroLongo).len() == 26,
        nomes_do_grupo(GrupoFeatures::Operacional).len() == 33,
        nomes_do_grupo(GrupoFeatures::Operacional).take(26) == nomes_do_grupo(
            GrupoFeatures::HidroLongo,
        ),
{
    assert(nomes_do_grupo(GrupoFeatures::Operacional).take(26) =~= nomes_do_grupo(
        GrupoFeatures::HidroLongo,
    ));
}

/// Algarismo decimal de `d` (para `d < 10`).
pub open spec fn algarismo(d: nat) -> char {
    if d == 0 {
        '0'
    } else if d == 1 {
        '1'
    } else if d == 2 {
        '2'
    } else if d == 3 {
        '3'
    } else if d == 4 {
        '4'
    } else if d == 5 {
        '5'
    } else if d == 6 {
        '6'
    } else if d == 7 {
        '7'
    } else if d == 8 {
        '8'
    } else {
        '9'
    }
}

/// Escrita decimal de `n`, sem zeros à esquerda.
pub open spec fn escrita_decimal(n: nat) -> Seq<char>
    decreases n,
{
    if n < 10 {
        seq![algarismo(n)]
    } else {
        escrita_decimal(n / 10).push(algarismo(n % 10))
    }
}

/// Nome da variável `v` defasada de `k` dias: `v_lagK`.
pub open spec fn nome_defasagem(v: Seq<char>, k: nat) -> Seq<char> {
    v + seq!['_', 'l', 'a', 'g'] + escrita_decimal(k)
}

/// Nome da média móvel de `k` dias da variável `v`: `v_maK`.
pub open spec fn nome_media_movel(v: Seq<char>, k: nat) -> Seq<char> {
    v + seq!['_', 'm', 'a'] + escrita_decimal(k)
}

/// Nome da diferença diária de `v` defasada de `k` dias: `dv_lagK`.
pub open spec fn nome_diferenca(v: Seq<char>, k: nat) -> Seq<char> {
    seq!['d'] + nome_defasagem(v, k)
}

/// Nomes de uma variável com as defasagens `lags`, as médias móveis `medias` e as
/// diferenças defasadas `difs`, nessa ordem.
pub open spec fn bloco_variavel(v: Seq<char>, lags: Seq<nat>, medias: Seq<nat>, difs: Seq<nat>) -> Seq<Seq<char>> {
    lags.map_values(|k: nat| nome_defasagem(v, k)) + medias.map_values(|k: nat| nome_media_movel(v, k))
        + difs.map_values(|k: nat| nome_diferenca(v, k))
}

/// Textos de uma lista de nomes.
pub open spec fn textos(s: Seq<&'static str>) -> Seq<Seq<char>> {
    s.map_values(|x: &'static str| x@)
}

/// Catálogo de features: depois do calendário (`mes_sin`, `mes_cos`), o grupo longo traz,
/// para a vazão `q` e depois para a `ena`, as defasagens de 1, 2, 3, 7, 14 e 30 dias em
/// ordem crescente, as médias móveis de 3, 7, 14 e 30 dias e as diferenças defasadas de 1 e
/// 7 dias; o grupo operacional acrescenta, para a geração `p`, as defasagens de 1, 2 e 7
/// dias, as médias de 3 e 7 dias e as diferenças de 1 e 7 dias; o grupo básico tem só o
/// calendário e a defasagem de 1 dia de `q` e de `ena`.
pub proof fn lema_catalogo_de_features()
    ensures
        ({
            let calendario = seq![
                seq!['m', 'e', 's', '_', 's', 'i', 'n'],
                seq!['m', 'e', 's', '_', 'c', 'o', 's'],
            ];
            let q = seq!['q'];
            let ena = seq!['e', 'n', 'a'];
            let p = seq!['p'];
            let longo = calendario + bloco_variavel(
                q,
                seq![1nat, 2, 3, 7, 14, 30],
                seq![3nat, 7, 14, 30],
                seq![1nat, 7],
            ) + bloco_variavel(
                ena,
                seq![1nat, 2, 3, 7, 14, 30],
                seq![3nat, 7, 14, 30],
                seq![1nat, 7],
            );
            &&& textos(nomes_do_grupo(GrupoFeatures::HidroBasico)) == calendario + seq![
                nome_defasagem(q, 1),
                nome_defasagem(ena, 1),
            ]
            &&& textos(nomes_do_grupo(GrupoFeatures::HidroLongo)) == longo
            &&& textos(nomes_do_grupo(GrupoFeatures::Operacional)) == longo + bloco_variavel(
                p,
                seq![1nat, 2, 7],
                seq![3nat, 7],
                seq![1nat, 7],
            )
        }),
{
    reveal_with_fuel(escrita_decimal, 2);
    reveal_strlit("mes_sin");
    reveal_strlit("mes_cos");
    reveal_strlit("q_lag1");
    reveal_strlit("q_lag2");
    reveal_strlit("q_lag3");
    reveal_strlit("q_lag7");
    reveal_strlit("q_lag14");
    reveal_strlit("q_lag30");
    reveal_strlit("q_ma3");
    reveal_strlit("q_ma7");
    reveal_strlit("q_ma14");
    reveal_strlit("q_ma30");
    reveal_strlit("dq_lag1");
    reveal_strlit("dq_lag7");
    reveal_strlit("ena_lag1");
    reveal_strlit("ena_lag2");
    reveal_strlit("ena_lag3");
    reveal_strlit("ena_lag7");
    reveal_strlit("ena_lag14");
    reveal_strlit("ena_lag30");
    reveal_strlit("ena_ma3");
    reveal_strlit("ena_ma7");
    reveal_strlit("ena_ma14");
    reveal_strlit("ena_ma30");
    reveal_strlit("dena_lag1");
    reveal_strlit("dena_lag7");
    reveal_strlit("p_lag1");
    reveal_strlit("p_lag2");
    reveal_strlit("p_lag7");
    reveal_strlit("p_ma3");
    reveal_strlit("p_ma7");
    reveal_strlit("dp_lag1");
    reveal_strlit("dp_lag7");
    assert(textos(nomes_do_grupo(GrupoFeatures::HidroBasico)) =~~= seq![
        seq!['m', 'e', 's', '_', 's', 'i', 'n'],
        seq!['m', 'e', 's', '_', 'c', 'o', 's'],
        nome_defasagem(seq!['q'], 1),
        nome_defasagem(seq!['e', 'n', 'a'], 1),
    ]);
    let q = seq!['q'];
    let ena = seq!['e', 'n', 'a'];
    let lags = seq![1nat, 2, 3, 7, 14, 30];
    let medias = seq![3nat, 7, 14, 30];
    let difs = seq![1nat, 7];
    assert(bloco_variavel(q, lags, medias, difs) =~~= seq![
        "q_lag1"@, "q_lag2"@, "q_lag3"@, "q_lag7"@, "q_lag14"@, "q_lag30"@,
        "q_ma3"@, "q_ma7"@, "q_ma14"@, "q_ma30"@, "dq_lag1"@, "dq_lag7"@,
    ]);
    assert(bloco_variavel(ena, lags, medias, difs) =~~= seq![
        "ena_lag1"@, "ena_lag2"@, "ena_lag3"@, "ena_lag7"@, "ena_lag14"@, "ena_lag30"@,
        "ena_ma3"@, "ena_ma7"@, "ena_ma14"@, "ena_ma30"@, "dena_lag1"@, "dena_lag7"@,
    ]);
    assert(bloco_variavel(seq!['p'], seq![1nat, 2, 7], seq![3nat, 7], seq![1nat, 7]) =~~= seq![
        "p_lag1"@, "p_lag2"@, "p_lag7"@, "p_ma3"@, "p_ma7"@, "dp_lag1"@, "dp_lag7"@,
    ]);
    assert(textos(nomes_hidro_longo()) =~~= seq!["mes_sin"@, "mes_cos"@] + bloco_variavel(
        q, lags, medias, difs) + bloco_variavel(ena, lags, medias, difs));
    assert(textos(nomes_do_grupo(GrupoFeatures::Operacional)) =~~= textos(nomes_hidro_longo())
        + bloco_variavel(seq!['p'], seq![1nat, 2, 7], seq![3nat, 7], seq![1nat, 7]));
}

/// Menor `m` com `m·m >= n` (teto da raiz quadrada inteira).
pub open spec fn eh_raiz_teto(m: nat, n: nat) -> bool {
    &&& m * m >= n
    &&& (m == 0 || (m - 1) * (m - 1) < n)
}

/// Teto da raiz quadrada inteira de `n`.
fn raiz_teto(n: usize) -> (r: usize)
    ensures
        eh_raiz_teto(r as nat, n as nat),
{
    let mut m: usize = 0;
    loop
        invariant
            m <= n,
            m == 0 || (m - 1) * (m - 1) < n,
        ensures
            m * m >= n,
            m == 0 || (m - 1) * (m - 1) < n,
        decreases n - m,
    {
        proof {
            assert(m * m <= 0xFFFF_FFFF_FFFF_FFFE_0000_0000_0000_0001) by (nonlinear_arith)
                requires
                    m <= 0xFFFF_FFFF_FFFF_FFFF,
            ;
        }
        let quadrado = (m as u128) * (m as u128);
        if quadrado >= n as u128 {
            break;
        }
        proof {
            assert(m * m < n ==> m < n) by (nonlinear_arith);
        }
        m += 1;
    }
    m
}

/// Parâmetros da floresta da exploração temporal: 80 árvores, profundidade 9,
/// divisão mínima 30, folha mínima 12 e `mtry = max(2, ⌈√n_features⌉)`.
pub fn params_rf(n_features: usize, seed: u64) -> (r: ParametrosFloresta)
    ensures
        r.n_arvores == 80,
        r.max_depth == 9,
        r.min_samples_split == 30,
        r.min_samples_leaf == 12,
        r.seed == seed,
        r.mtry >= 2,
        r.mtry * r.mtry >= n_features,
        r.mtry == 2 || (r.mtry - 1) * (r.mtry - 1) < n_features,
{
    let raiz = raiz_teto(n_features);
    let mtry = if raiz >= 2 {
        raiz
    } else {
        2
    };
    proof {
        if raiz < 2 {
            assert(2 * 2 >= n_features) by (nonlinear_arith)
                requires
                    raiz < 2,
                    raiz * raiz >= n_features,
                    raiz == 0 || (raiz - 1) * (raiz - 1) < n_features,
            ;
        }
    }
    ParametrosFloresta {
        n_arvores: 80,
        max_depth: 9,
        min_samples_split: 30,
        min_samples_leaf: 12,
        mtry,
        seed,
    }
}

} // verus!
