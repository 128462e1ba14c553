//! Gerador xorshift64* usado na inicialização Xavier da rede.

use vstd::prelude::*;

verus! {

/// Constante de mistura aplicada à semente na criação do gerador.
pub const MISTURA_SEMENTE: u64 = 0x9E3779B97F4A7C15;

/// Multiplicador de saída do xorshift64*.
pub const MULTIPLICADOR_SAIDA: u64 = 0x2545F4914F6CDD1D;

/// Estado inicial do gerador para uma semente: mistura com a constante e força o bit 0.
pub open spec fn estado_inicial_prng(semente: u64) -> u64 {
    (semente ^ MISTURA_SEMENTE) | 1
}

/// Uma transição de estado do xorshift64 (deslocamentos 12, 25, 27).
pub open spec fn passo_prng(x: u64) -> u64 {
    let a = x ^ (x >> 12u64);
    let b = a ^ (a << 25u64);
    b ^ (b >> 27u64)
}

/// Valor entregue ao chamador a partir do estado já avançado (produto módulo 2^64).
pub open spec fn saida_prng(x: u64) -> u64 {
    ((x as nat * MULTIPLICADOR_SAIDA as nat) % 0x1_0000_0000_0000_0000nat) as u64
}

/// Um passo do xorshift64 nunca leva um estado não nulo a zero.
pub proof fn lema_passo_prng_nao_nulo(x: u64)
    requires
        x != 0,
    ensures
        passo_prng(x) != 0,
{
    let a = x ^ (x >> 12u64);
    let b = a ^ (a << 25u64);
    assert(x != 0 ==> (x ^ (x >> 12u64)) != 0) by (bit_vector);
    assert(a != 0 ==> (a ^ (a << 25u64)) != 0) by (bit_vector);
    assert(b != 0 ==> (b ^ (b >> 27u64)) != 0) by (bit_vector);
}

/// Estado do gerador após `k` avanços a partir de `x`.
pub open spec fn prng_iter(x: u64, k: nat) -> u64
    decreases k,
{
    if k == 0 {
        x
    } else {
        passo_prng(prng_iter(x, (k - 1) as nat))
    }
}

/// Nenhum estado alcançável a partir de uma semente é zero: o gerador nunca fica preso.
pub proof fn lema_prng_nunca_zera(semente: u64, k: nat)
    ensures
        prng_iter(estado_inicial_prng(semente), k) != 0,
    decreases k,
{
    if k == 0 {
        let x = semente;
        assert((x ^ 0x9E3779B97F4A7C15u64) | 1u64 != 0) by (bit_vector);
    } else {
        lema_prng_nunca_zera(semente, (k - 1) as nat);
        lema_passo_prng_nao_nulo(prng_iter(estado_inicial_prng(semente), (k - 1) as nat));
    }
}

/// Gerador pseudoaleatório determinístico (xorshift64*), para inicialização reprodutível.
pub struct Prng {
    estado: u64,
}

impl View for Prng {
    type V = u64;

    closed spec fn view(&self) -> u64 {
        self.estado
    }
}

impl Prng {
    /// O estado interno nunca é zero (o xorshift ficaria preso em zero).
    #[verifier::type_invariant]
    spec fn estado_valido(&self) -> bool {
        self.estado != 0
    }

    /// Cria o gerador a partir de uma semente.
    pub fn nova(semente: u64) -> (r: Self)
        ensures
            r@ == estado_inicial_prng(semente),
            r@ != 0,
    {
        let estado = semente ^ MISTURA_SEMENTE | 1;
        assert(estado != 0) by (bit_vector)
            requires
                estado == (semente ^ 0x9E3779B97F4A7C15u64) | 1u64,
        ;
        Prng { estado }
    }

    /// Avança o estado e devolve o próximo valor de 64 bits.
    pub fn proximo_u64(&mut self) -> (r: u64)
        ensures
            final(self)@ == passo_prng(old(self)@),
            r == saida_prng(passo_prng(old(self)@)),
            final(self)@ != 0,
    {
        proof {
            use_type_invariant(&*self);
            lema_passo_prng_nao_nulo(self.estado);
        }
        let mut x = self.estado;
        x ^= x >> 12;
        x ^= x << 25;
        x ^= x >> 27;
        self.estado = x;
        x.wrapping_mul(MULTIPLICADOR_SAIDA)
    }
}

/// Formas `(fan_in, fan_out)` das camadas densas de uma arquitetura como `[1, 16, 16, 1]`:
/// a camada `i` liga `arquitetura[i]` entradas a `arquitetura[i + 1]` saídas.
pub fn formas_camadas(arquitetura: &[usize]) -> (r: Vec<(usize, usize)>)
    requires
        arquitetura@.len() >= 2,
    ensures
        r@.len() == arquitetura@.len() - 1,
        forall|i: int|
            0 <= i < r@.len() ==> #[trigger] r@[i] == (arquitetura@[i], arquitetura@[i + 1]),
{
    let mut r: Vec<(usize, usize)> = Vec::new();
    let mut i: usize = 0;
    while i < arquitetura.len() - 1
        invariant
            arquitetura@.len() >= 2,
            i + 1 <= arquitetura@.len(),
            r@.len() == i,
            forall|k: int|
                0 <= k < i ==> #[trigger] r@[k] == (arquitetura@[k], arquitetura@[k + 1]),
        decreases arquitetura@.len() - i,
    {
        r.push((arquitetura[i], arquitetura[i + 1]));
        i += 1;
    }
    r
}

/// As camadas formam uma cadeia: a primeira recebe a entrada da rede, a última produz a
/// saída, e cada camada entrega à seguinte tantos valores quantos esta recebe.
pub proof fn lema_camadas_encadeadas(arquitetura: Seq<usize>, formas: Seq<(usize, usize)>)
    requires
        arquitetura.len() >= 2,
        formas.len() == arquitetura.len() - 1,
        forall|i: int| 0 <= i < formas.len() ==> #[trigger] formas[i] == (arquitetura[i], arquitetura[i + 1]),
    ensures
        formas[0].0 == arquitetura[0],
        formas[formas.len() - 1].1 == arquitetura[arquitetura.len() - 1],
        forall|i: int| 0 <= i < formas.len() - 1 ==> #[trigger] formas[i].1 == formas[i + 1].0,
{
    assert(formas[formas.len() - 1] == (arquitetura[formas.len() - 1], arquitetura[formas.len() as int]));
    assert forall|i: int| 0 <= i < formas.len() - 1 implies #[trigger] formas[i].1 == formas[i + 1].0 by {
        assert(formas[i] == (arquitetura[i], arquitetura[i + 1]));
        assert(formas[i + 1] == (arquitetura[i + 1], arquitetura[i + 2]));
    }
}

} // verus!
