//! Sorteios reprodutíveis da Random Forest (gerador xorshift64, features e bootstrap).

use vstd::prelude::*;

verus! {

/// Hiperparâmetros da Random Forest.
#[derive(Debug, Clone, Copy)]
pub struct ParametrosFloresta {
    pub n_arvores: usize,
    pub max_depth: usize,
    pub min_samples_split: usize,
    pub min_samples_leaf: usize,
    pub mtry: usize,
    pub seed: u64,
}

/// Estado inicial do xorshift64 para uma semente (a semente zero vira 1).
pub open spec fn estado_inicial_xorshift(seed: u64) -> u64 {
    if seed >= 1 {
        seed
    } else {
        1
    }
}

/// Uma transição do xorshift64 (deslocamentos 13, 7, 17); o novo estado é também a saída.
pub open spec fn passo_xorshift(x: u64) -> u64 {
    let a = x ^ (x << 13u64);
    let b = a ^ (a >> 7u64);
    b ^ (b << 17u64)
}

/// Estado após `k` transições a partir de `x`.
pub open spec fn xorshift_iter(x: u64, k: nat) -> u64
    decreases k,
{
    if k == 0 {
        x
    } else {
        passo_xorshift(xorshift_iter(x, (k - 1) as nat))
    }
}

/// Índice em `[0, limite)` sorteado a partir do estado `x` (antes do avanço).
pub open spec fn indice_sorteado(x: u64, limite: usize) -> usize {
    ((passo_xorshift(x) as usize) % limite) as usize
}

/// O índice sorteado de um estado é o estado seguinte do gerador reduzido módulo `limite`,
/// qualquer que seja `limite > 0` (pequeno ou grande), e fica em `[0, limite)`.
pub proof fn lema_sorteio_e_resto_do_estado_seguinte(x: u64, limite: usize)
    requires
        limite > 0,
    ensures
        indice_sorteado(x, limite) < limite,
        indice_sorteado(x, limite) == (xorshift_iter(x, 1) as usize) % limite,
{
    assert(xorshift_iter(x, 0) == x);
}

/// Um passo do xorshift64 nunca leva um estado não nulo a zero.
pub proof fn lema_passo_xorshift_nao_nulo(x: u64)
    requires
        x != 0,
    ensures
        passo_xorshift(x) != 0,
{
    let a = x ^ (x << 13u64);
    let b = a ^ (a >> 7u64);
    assert(x != 0 ==> (x ^ (x << 13u64)) != 0) by (bit_vector);
    assert(a != 0 ==> (a ^ (a >> 7u64)) != 0) by (bit_vector);
    assert(b != 0 ==> (b ^ (b << 17u64)) != 0) by (bit_vector);
}

/// Nenhum estado alcançável a partir de uma semente é zero: o gerador nunca fica preso.
pub proof fn lema_xorshift_nunca_zera(seed: u64, k: nat)
    ensures
        xorshift_iter(estado_inicial_xorshift(seed), k) != 0,
    decreases k,
{
    if k > 0 {
        lema_xorshift_nunca_zera(seed, (k - 1) as nat);
        lema_passo_xorshift_nao_nulo(xorshift_iter(estado_inicial_xorshift(seed), (k - 1) as nat));
    }
}

/// Gerador xorshift64 da Random Forest.
pub struct XorShift64 {
    estado: u64,
}

impl View for XorShift64 {
    type V = u64;

    closed spec fn view(&self) -> u64 {
        self.estado
    }
}

impl XorShift64 {
    /// O estado nunca é zero.
    #[verifier::type_invariant]
    spec fn estado_valido(&self) -> bool {
        self.estado != 0
    }

    /// Cria o gerador; a semente zero é trocada por 1.
    pub fn novo(seed: u64) -> (r: Self)
        ensures
            r@ == estado_inicial_xorshift(seed),
            r@ != 0,
    {
        XorShift64 { estado: if seed >= 1 { seed } else { 1 } }
    }

    /// Avança o estado e devolve o novo estado.
    pub fn proximo_u64(&mut self) -> (r: u64)
        ensures
            r == passo_xorshift(old(self)@),
            final(self)@ == r,
            r != 0,
    {
        proof {
            use_type_invariant(&*self);
            lema_passo_xorshift_nao_nulo(self.estado);
        }
        let mut x = self.estado;
        x ^= x << 13;
        x ^= x >> 7;
        x ^= x << 17;
        self.estado = x;
        x
    }

    /// Índice uniforme em `[0, limite)`; com `limite == 0` devolve 0 sem avançar o gerador.
    pub fn usize(&mut self, limite: usize) -> (r: usize)
        ensures
            limite == 0 ==> r == 0 && final(self)@ == old(self)@,
            limite > 0 ==> r == indice_sorteado(old(self)@, limite) && final(self)@
                == passo_xorshift(old(self)@),
            limite > 0 ==> r < limite,
            limite > 0 ==> r == (final(self)@ as usize) % limite,
            final(self)@ != 0,
    {
        proof {
            use_type_invariant(&*self);
        }
        if limite == 0 {
            0
        } else {
            (self.proximo_u64() as usize) % limite
        }
    }
}

/// Troca as posições `i` e `j` de uma sequência.
pub open spec fn trocar(s: Seq<usize>, i: int, j: int) -> Seq<usize> {
    s.update(i, s[j]).update(j, s[i])
}

/// Vetor `[0, n)` após as `i` primeiras trocas do embaralhamento de Fisher-Yates
/// conduzido pelo gerador que parte do estado `estado`: a troca `t` leva à posição `t`
/// o elemento da posição `t + indice_sorteado(..., n - t)`.
pub open spec fn embaralhamento_parcial(n: nat, estado: u64, i: nat) -> Seq<usize>
    decreases i,
{
    if i == 0 {
        Seq::new(n, |k: int| k as usize)
    } else {
        let t = (i - 1) as nat;
        let anterior = embaralhamento_parcial(n, estado, t);
        let j = t + indice_sorteado(xorshift_iter(estado, t), (n - t) as usize);
        trocar(anterior, t as int, j)
    }
}

/// Sequência sem repetições.
pub open spec fn sem_repeticao(s: Seq<usize>) -> bool {
    forall|a: int, b: int| 0 <= a < b < s.len() ==> s[a] != s[b]
}

/// `s` tem `n` elementos, todos distintos e menores que `n` (uma permutação de `[0, n)`).
pub open spec fn permutacao_de(s: Seq<usize>, n: nat) -> bool {
    &&& s.len() == n
    &&& sem_repeticao(s)
    &&& forall|a: int| 0 <= a < s.len() ==> s[a] < n
}

/// Sorteia `mtry` features distintas entre `n_features` (Fisher-Yates parcial).
pub fn escolher_features(n_features: usize, mtry: usize, rng: &mut XorShift64) -> (r: Vec<usize>)
    requires
        mtry <= n_features,
    ensures
        r@ == embaralhamento_parcial(n_features as nat, old(rng)@, mtry as nat).take(mtry as int),
        final(rng)@ == xorshift_iter(old(rng)@, mtry as nat),
        r@.len() == mtry,
        sem_repeticao(r@),
        forall|a: int| 0 <= a < r@.len() ==> r@[a] < n_features,
{
    let ghost estado0 = rng@;
    let mut features: Vec<usize> = Vec::new();
    let mut k: usize = 0;
    while k < n_features
        invariant
            k <= n_features,
            features@ =~= Seq::new(k as nat, |a: int| a as usize),
        decreases n_features - k,
    {
        features.push(k);
        k += 1;
    }
    let mut i: usize = 0;
    while i < mtry
        invariant
            mtry <= n_features,
            i <= mtry,
            features@ == embaralhamento_parcial(n_features as nat, estado0, i as nat),
            permutacao_de(features@, n_features as nat),
            rng@ == xorshift_iter(estado0, i as nat),
        decreases mtry - i,
    {
        let j = i + rng.usize(n_features - i);
        let a = features[i];
        let b = features[j];
        features.set(i, b);
        features.set(j, a);
        proof {
            let ant = embaralhamento_parcial(n_features as nat, estado0, i as nat);
            assert(features@ =~= trocar(ant, i as int, j as int));
            assert forall|p: int, q: int| 0 <= p < q < features@.len() implies features@[p]
                != features@[q] by {
                let ip: int = if p == i { j as int } else if p == j { i as int } else { p };
                let iq: int = if q == i { j as int } else if q == j { i as int } else { q };
                assert(features@[p] == ant[ip]);
                assert(features@[q] == ant[iq]);
                assert(ip != iq);
                if ip < iq {
                    assert(ant[ip] != ant[iq]);
                } else {
                    assert(ant[iq] != ant[ip]);
                }
            }
        }
        i += 1;
    }
    features.truncate(mtry);
    features
}

/// Amostra bootstrap e semente de uma árvore da floresta.
pub struct PlanoArvore {
    /// Índices (com repetição) das amostras que formam o bootstrap da árvore.
    pub indices: Vec<usize>,
    /// Semente do gerador que sorteia as features desta árvore.
    pub semente: u64,
}

/// Sorteios de toda a floresta: para cada árvore, `n_amostras` índices de bootstrap
/// seguidos de uma semente, todos tirados de um único gerador iniciado com `params.seed`.
/// A árvore `t` consome os sorteios `t·(n+1) + 1` a `t·(n+1) + n + 1` desse gerador.
/// Cada índice de bootstrap é o estado que o gerador acaba de produzir reduzido módulo `n`.
pub fn planejar_floresta(n_amostras: usize, params: &ParametrosFloresta) -> (r: Vec<PlanoArvore>)
    ensures
        r@.len() == params.n_arvores,
        forall|t: int|
            #![trigger r@[t]]
            0 <= t < r@.len() ==> {
                &&& r@[t].indices@.len() == n_amostras
                &&& r@[t].semente == xorshift_iter(
                    estado_inicial_xorshift(params.seed),
                    (t * (n_amostras + 1) + n_amostras + 1) as nat,
                )
                &&& forall|k: int|
                    #![trigger r@[t].indices@[k]]
                    0 <= k < n_amostras ==> r@[t].indices@[k] < n_amostras && r@[t].indices@[k]
                        == indice_sorteado(
                        xorshift_iter(
                            estado_inicial_xorshift(params.seed),
                            (t * (n_amostras + 1) + k) as nat,
                        ),
                        n_amostras,
                    ) && r@[t].indices@[k] == (xorshift_iter(
                        estado_inicial_xorshift(params.seed),
                        (t * (n_amostras + 1) + k + 1) as nat,
                    ) as usize) % n_amostras
            },
{
    let mut rng = XorShift64::novo(params.seed);
    let ghost s0 = rng@;
    let mut planos: Vec<PlanoArvore> = Vec::new();
    let mut t: usize = 0;
    while t < params.n_arvores
        invariant
            t <= params.n_arvores,
            s0 == estado_inicial_xorshift(params.seed),
            planos@.len() == t,
            rng@ == xorshift_iter(s0, (t * (n_amostras + 1)) as nat),
            forall|u: int|
                #![trigger planos@[u]]
                0 <= u < t ==> {
                    &&& planos@[u].indices@.len() == n_amostras
                    &&& planos@[u].semente == xorshift_iter(
                        s0,
                        (u * (n_amostras + 1) + n_amostras + 1) as nat,
                    )
                    &&& forall|k: int|
                        #![trigger planos@[u].indices@[k]]
                        0 <= k < n_amostras ==> planos@[u].indices@[k] < n_amostras
                            && planos@[u].indices@[k] == indice_sorteado(
                            xorshift_iter(s0, (u * (n_amostras + 1) + k) as nat),
                            n_amostras,
                        ) && planos@[u].indices@[k] == (xorshift_iter(
                            s0,
                            (u * (n_amostras + 1) + k + 1) as nat,
                        ) as usize) % n_amostras
                },
        decreases params.n_arvores - t,
    {
        let ghost base: int = t * (n_amostras + 1);
        let mut indices: Vec<usize> = Vec::new();
        let mut k: usize = 0;
        while k < n_amostras
            invariant
                k <= n_amostras,
                indices@.len() == k,
                rng@ == xorshift_iter(s0, (base + k) as nat),
                base >= 0,
                forall|q: int|
                    #![trigger indices@[q]]
                    0 <= q < k ==> indices@[q] < n_amostras && indices@[q] == indice_sorteado(
                        xorshift_iter(s0, (base + q) as nat),
                        n_amostras,
                    ) && indices@[q] == (xorshift_iter(s0, (base + q + 1) as nat) as usize)
                        % n_amostras,
            decreases n_amostras - k,
        {
            let idx = rng.usize(n_amostras);
            indices.push(idx);
            k += 1;
        }
        let semente = rng.proximo_u64();
        proof {
            assert((t + 1) * (n_amostras + 1) == base + n_amostras + 1) by (nonlinear_arith)
                requires
                    base == t * (n_amostras + 1),
            ;
        }
        planos.push(PlanoArvore { indices, semente });
        t += 1;
    }
    planos
}

} // verus!
