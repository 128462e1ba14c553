//! Datas no formato `AAAA-MM-DD`: ano e mês extraídos do texto e divisões temporais
//! dos registros por comparação lexicográfica das datas.

use vstd::prelude::*;

verus! {

/// Byte de um dígito ASCII decimal.
pub open spec fn eh_digito(b: u8) -> bool {
    48 <= b <= 57
}

/// Todos os bytes são dígitos decimais.
pub open spec fn todos_digitos(s: Seq<u8>) -> bool {
    forall|i: int| 0 <= i < s.len() ==> eh_digito(#[trigger] s[i])
}

/// Valor decimal de uma sequência de dígitos.
pub open spec fn valor_digitos(s: Seq<u8>) -> nat
    decreases s.len(),
{
    if s.len() == 0 {
        0
    } else {
        valor_digitos(s.drop_last()) * 10 + (s.last() - 48) as nat
    }
}

/// Leitura de um número sem sinal como em `str::parse` para inteiros sem sinal:
/// um `+` opcional seguido de ao menos um dígito, e nada mais.
pub open spec fn analisar_natural(s: Seq<u8>) -> Option<nat> {
    let d = if s.len() > 0 && s[0] == 43 {
        s.drop_first()
    } else {
        s
    };
    if d.len() > 0 && todos_digitos(d) {
        Some(valor_digitos(d))
    } else {
        None
    }
}

/// Leitura de um número com sinal como em `str::parse` para inteiros com sinal:
/// um `+` ou `-` opcional seguido de ao menos um dígito, e nada mais.
pub open spec fn analisar_inteiro(s: Seq<u8>) -> Option<int> {
    if s.len() > 0 && s[0] == 45 {
        let d = s.drop_first();
        if d.len() > 0 && todos_digitos(d) {
            Some(-(valor_digitos(d) as int))
        } else {
            None
        }
    } else {
        match analisar_natural(s) {
            Some(v) => Some(v as int),
            None => None,
        }
    }
}

/// Mês de uma data: os bytes 5..7 lidos como número sem sinal quando formam uma
/// fatia válida do texto e o valor está em 1..=12; caso contrário, 1.
pub open spec fn mes_de(b: Seq<u8>) -> usize {
    let m = analisar_natural(b.subrange(5, 7));
    if b.len() >= 7 && vstd::utf8::is_char_boundary(b, 5) && vstd::utf8::is_char_boundary(b, 7)
        && m is Some && 1 <= m->0 <= 12 {
        m->0 as usize
    } else {
        1
    }
}

/// Ano de uma data: os bytes 0..4 lidos como número com sinal quando formam uma
/// fatia válida do texto; caso contrário, 0.
pub open spec fn ano_de(b: Seq<u8>) -> i32 {
    let a = analisar_inteiro(b.subrange(0, 4));
    if b.len() >= 4 && vstd::utf8::is_char_boundary(b, 4) && a is Some {
        a->0 as i32
    } else {
        0
    }
}

/// `10^n`.
spec fn potencia10(n: nat) -> nat
    decreases n,
{
    if n == 0 {
        1
    } else {
        10 * potencia10((n - 1) as nat)
    }
}

/// Lê os dígitos de `b[ini..fim]` (até quatro); `None` se algum byte não for dígito
/// ou se a faixa for vazia.
fn ler_digitos(b: &[u8], ini: usize, fim: usize) -> (r: Option<u32>)
    requires
        ini <= fim <= b@.len(),
        fim - ini <= 4,
    ensures
        r is Some <==> (fim > ini && todos_digitos(b@.subrange(ini as int, fim as int))),
        r is Some ==> r->0 == valor_digitos(b@.subrange(ini as int, fim as int)),
        r is Some ==> r->0 < 10000,
{
    if fim == ini {
        return None;
    }
    let mut acc: u32 = 0;
    let mut k: usize = ini;
    while k < fim
        invariant
            ini <= k <= fim <= b@.len(),
            fim - ini <= 4,
            todos_digitos(b@.subrange(ini as int, k as int)),
            acc == valor_digitos(b@.subrange(ini as int, k as int)),
            acc < potencia10((k - ini) as nat),
        decreases fim - k,
    {
        let c = b[k];
        if c < 48 || c > 57 {
            proof {
                let s = b@.subrange(ini as int, fim as int);
                assert(s[k - ini] == c);
            }
            return None;
        }
        proof {
            reveal_with_fuel(potencia10, 5);
            assert(potencia10((k - ini) as nat) <= 1000);
            let s1 = b@.subrange(ini as int, k + 1);
            assert(s1.drop_last() =~= b@.subrange(ini as int, k as int));
            assert(s1.last() == c);
        }
        acc = acc * 10 + (c - 48) as u32;
        k += 1;
    }
    proof {
        reveal_with_fuel(potencia10, 5);
    }
    Some(acc)
}

/// Lê um número sem sinal em `b[ini..fim]` (até três bytes após o sinal).
fn ler_natural(b: &[u8], ini: usize, fim: usize) -> (r: Option<u32>)
    requires
        ini <= fim <= b@.len(),
        fim - ini <= 4,
    ensures
        r is Some <==> analisar_natural(b@.subrange(ini as int, fim as int)) is Some,
        r is Some ==> r->0 == analisar_natural(b@.subrange(ini as int, fim as int))->0,
        r is Some ==> r->0 < 10000,
{
    let ghost s = b@.subrange(ini as int, fim as int);
    if fim > ini && b[ini] == 43 {
        assert(s.drop_first() =~= b@.subrange(ini + 1, fim as int));
        ler_digitos(b, ini + 1, fim)
    } else {
        ler_digitos(b, ini, fim)
    }
}

/// Lê um número com sinal em `b[ini..fim]`.
fn ler_inteiro(b: &[u8], ini: usize, fim: usize) -> (r: Option<i32>)
    requires
        ini <= fim <= b@.len(),
        fim - ini <= 4,
    ensures
        r is Some <==> analisar_inteiro(b@.subrange(ini as int, fim as int)) is Some,
        r is Some ==> r->0 == analisar_inteiro(b@.subrange(ini as int, fim as int))->0,
{
    let ghost s = b@.subrange(ini as int, fim as int);
    if fim > ini && b[ini] == 45 {
        assert(s.drop_first() =~= b@.subrange(ini + 1, fim as int));
        match ler_digitos(b, ini + 1, fim) {
            Some(v) => {
                proof {
                    reveal_with_fuel(potencia10, 5);
                }
                Some(-(v as i32))
            },
            None => None,
        }
    } else {
        match ler_natural(b, ini, fim) {
            Some(v) => Some(v as i32),
            None => None,
        }
    }
}

/// Mês (1 a 12) de uma data `AAAA-MM-DD`; 1 quando o texto não traz um mês válido.
pub fn mes_data(data: &str) -> (r: usize)
    ensures
        r == mes_de(vstd::utf8::encode_utf8(data@)),
        1 <= r <= 12,
        ({
            let b = bytes_de(data);
            let v = (b[5] - 48) * 10 + (b[6] - 48);
            (b.len() >= 7 && eh_digito(b[5]) && eh_digito(b[6]) && 1 <= v <= 12) ==> r == v
        }),
        ({
            let b = bytes_de(data);
            let v = (b[5] - 48) * 10 + (b[6] - 48);
            (b.len() >= 7 && eh_digito(b[5]) && eh_digito(b[6]) && !(1 <= v <= 12)) ==> r == 1
        }),
        bytes_de(data).len() < 7 ==> r == 1,
{
    proof {
        lema_mes_de_digitos(data);
    }
    let b = data.as_bytes();
    if b.len() >= 7 && data.is_char_boundary(5) && data.is_char_boundary(7) {
        match ler_natural(b, 5, 7) {
            Some(m) => {
                if 1 <= m && m <= 12 {
                    m as usize
                } else {
                    1
                }
            },
            None => 1,
        }
    } else {
        1
    }
}

/// Ano de uma data `AAAA-MM-DD`; 0 quando o texto não começa por um número.
pub fn ano_data(data: &str) -> (r: i32)
    ensures
        r == ano_de(vstd::utf8::encode_utf8(data@)),
        ({
            let b = bytes_de(data);
            (b.len() >= 4 && eh_digito(b[0]) && eh_digito(b[1]) && eh_digito(b[2]) && eh_digito(
                b[3],
            )) ==> r == (b[0] - 48) * 1000 + (b[1] - 48) * 100 + (b[2] - 48) * 10 + (b[3] - 48)
        }),
        bytes_de(data).len() < 4 ==> r == 0,
{
    proof {
        lema_ano_de_digitos(data);
    }
    let b = data.as_bytes();
    if b.len() >= 4 && data.is_char_boundary(4) {
        match ler_inteiro(b, 0, 4) {
            Some(a) => a,
            None => 0,
        }
    } else {
        0
    }
}


/// Último dia do treino interno usado na seleção de hiperparâmetros.
pub const LIMITE_TREINO_INTERNO: &'static str = "2020-12-31";
/// Primeiro dia da validação interna.
pub const INICIO_VALIDACAO: &'static str = "2021-01-01";
/// Último dia da validação interna.
pub const LIMITE_VALIDACAO: &'static str = "2022-12-31";
/// Último dia do treino principal.
pub const LIMITE_TREINO: &'static str = "2022-12-31";
/// Primeiro dia do teste temporal.
pub const INICIO_TESTE: &'static str = "2023-01-01";

/// Bytes UTF-8 de um texto.
pub open spec fn bytes_de(s: &str) -> Seq<u8> {
    vstd::utf8::encode_utf8(s@)
}

/// Ordem lexicográfica dos bytes a partir da posição `i` (a ordem de `str`).
pub open spec fn lex_le_desde(a: Seq<u8>, b: Seq<u8>, i: nat) -> bool
    decreases a.len() - i,
{
    if i >= a.len() {
        true
    } else if i >= b.len() {
        false
    } else if a[i as int] < b[i as int] {
        true
    } else if a[i as int] > b[i as int] {
        false
    } else {
        lex_le_desde(a, b, i + 1)
    }
}

/// `a <= b` na ordem lexicográfica de bytes.
pub open spec fn lex_le(a: Seq<u8>, b: Seq<u8>) -> bool {
    lex_le_desde(a, b, 0)
}

/// `a < b` na ordem lexicográfica de bytes.
pub open spec fn lex_lt(a: Seq<u8>, b: Seq<u8>) -> bool {
    !lex_le(b, a)
}

/// A data pertence ao treino principal (`data <= LIMITE_TREINO`).
pub open spec fn no_treino(data: &str) -> bool {
    lex_le(bytes_de(data), bytes_de(LIMITE_TREINO))
}

/// A data pertence ao teste temporal (`data >= INICIO_TESTE`).
pub open spec fn no_teste(data: &str) -> bool {
    lex_le(bytes_de(INICIO_TESTE), bytes_de(data))
}

/// A data pertence ao treino interno (`data <= LIMITE_TREINO_INTERNO`).
pub open spec fn no_treino_interno(data: &str) -> bool {
    lex_le(bytes_de(data), bytes_de(LIMITE_TREINO_INTERNO))
}

/// A data pertence à validação interna (`INICIO_VALIDACAO <= data <= LIMITE_VALIDACAO`).
pub open spec fn na_validacao(data: &str) -> bool {
    lex_le(bytes_de(INICIO_VALIDACAO), bytes_de(data)) && lex_le(
        bytes_de(data),
        bytes_de(LIMITE_VALIDACAO),
    )
}

/// `r` lista, em ordem crescente e sem repetição, exatamente os índices `i < n` com `p(i)`.
pub open spec fn selecao_exata(n: nat, p: spec_fn(int) -> bool, r: Seq<usize>) -> bool {
    &&& forall|a: int| 0 <= a < r.len() ==> #[trigger] r[a] < n && p(r[a] as int)
    &&& forall|a: int, b: int| 0 <= a < b < r.len() ==> #[trigger] r[a] < #[trigger] r[b]
    &&& forall|i: int| 0 <= i < n && #[trigger] p(i) ==> r.contains(i as usize)
}

/// Compara textos em bytes: `a <= b`.
fn bytes_ate(a: &[u8], b: &[u8]) -> (r: bool)
    ensures
        r == lex_le(a@, b@),
{
    let mut i: usize = 0;
    while i < a.len()
        invariant
            i <= a@.len(),
            lex_le(a@, b@) == lex_le_desde(a@, b@, i as nat),
        decreases a@.len() - i,
    {
        if i >= b.len() {
            return false;
        }
        if a[i] < b[i] {
            return true;
        }
        if a[i] > b[i] {
            return false;
        }
        i += 1;
    }
    true
}

/// A data está entre os limites dados (cada limite é opcional e inclusivo).
pub open spec fn entre_limites(data: Seq<u8>, inicio: Option<&[u8]>, fim: Option<&[u8]>) -> bool {
    &&& (inicio matches Some(x) ==> lex_le(x@, data))
    &&& (fim matches Some(y) ==> lex_le(data, y@))
}

/// Índices das datas entre os limites dados.
fn indices_entre(datas: &[&str], inicio: Option<&[u8]>, fim: Option<&[u8]>) -> (r: Vec<usize>)
    ensures
        selecao_exata(
            datas@.len(),
            |i: int| entre_limites(bytes_de(datas@[i]), inicio, fim),
            r@,
        ),
{
    let ghost p = |i: int| entre_limites(bytes_de(datas@[i]), inicio, fim);
    let mut r: Vec<usize> = Vec::new();
    let mut i: usize = 0;
    while i < datas.len()
        invariant
            i <= datas@.len(),
            p == (|i: int| entre_limites(bytes_de(datas@[i]), inicio, fim)),
            selecao_exata(i as nat, p, r@),
        decreases datas@.len() - i,
    {
        let b = datas[i].as_bytes();
        let mut aceita = true;
        match inicio {
            Some(x) => {
                if !bytes_ate(x, b) {
                    aceita = false;
                }
            },
            None => {},
        }
        match fim {
            Some(y) => {
                if !bytes_ate(b, y) {
                    aceita = false;
                }
            },
            None => {},
        }
        assert(aceita == p(i as int));
        let ghost antes = r@;
        if aceita {
            r.push(i);
            proof {
                assert forall|j: int| 0 <= j < i + 1 && #[trigger] p(j) implies r@.contains(
                    j as usize,
                ) by {
                    if j < i {
                        let k = choose|k: int| 0 <= k < antes.len() && antes[k] == j as usize;
                        assert(r@[k] == j as usize);
                    } else {
                        assert(r@[antes.len() as int] == i);
                    }
                }
            }
        } else {
            proof {
                assert forall|j: int| 0 <= j < i + 1 && #[trigger] p(j) implies r@.contains(
                    j as usize,
                ) by {
                    assert(j != i);
                }
            }
        }
        i += 1;
    }
    r
}

/// Divisão temporal principal: índices do treino (`data <= "2022-12-31"`) e do teste
/// (`data >= "2023-01-01"`), na ordem original.
pub fn dividir_temporal(datas: &[&str]) -> (r: (Vec<usize>, Vec<usize>))
    ensures
        selecao_exata(datas@.len(), |i: int| no_treino(datas@[i]), r.0@),
        selecao_exata(datas@.len(), |i: int| no_teste(datas@[i]), r.1@),
{
    let fim_treino = LIMITE_TREINO.as_bytes();
    let inicio_teste = INICIO_TESTE.as_bytes();
    let treino = indices_entre(datas, None, Some(fim_treino));
    let teste = indices_entre(datas, Some(inicio_teste), None);
    proof {
        assert((|i: int| no_treino(datas@[i])) =~= (|i: int|
            entre_limites(bytes_de(datas@[i]), None, Some(fim_treino))));
        assert((|i: int| no_teste(datas@[i])) =~= (|i: int|
            entre_limites(bytes_de(datas@[i]), Some(inicio_teste), None)));
    }
    (treino, teste)
}


/// Divisão interna do treino: índices do treino interno (`data <= "2020-12-31"`) e da
/// validação (`"2021-01-01" <= data <= "2022-12-31"`), na ordem original.
pub fn dividir_treino_validacao(datas: &[&str]) -> (r: (Vec<usize>, Vec<usize>))
    ensures
        selecao_exata(datas@.len(), |i: int| no_treino_interno(datas@[i]), r.0@),
        selecao_exata(datas@.len(), |i: int| na_validacao(datas@[i]), r.1@),
{
    let fim_interno = LIMITE_TREINO_INTERNO.as_bytes();
    let inicio_validacao = INICIO_VALIDACAO.as_bytes();
    let fim_validacao = LIMITE_VALIDACAO.as_bytes();
    let treino = indices_entre(datas, None, Some(fim_interno));
    let validacao = indices_entre(datas, Some(inicio_validacao), Some(fim_validacao));
    proof {
        assert((|i: int| no_treino_interno(datas@[i])) =~= (|i: int|
            entre_limites(bytes_de(datas@[i]), None, Some(fim_interno))));
        assert((|i: int| na_validacao(datas@[i])) =~= (|i: int|
            entre_limites(bytes_de(datas@[i]), Some(inicio_validacao), Some(fim_validacao))));
    }
    (treino, validacao)
}

/// Ano da data de um texto.
pub open spec fn ano_do_texto(data: &str) -> i32 {
    ano_de(bytes_de(data))
}

/// O ano da data é anterior a `ano` (`antes`) ou igual a `ano` (`!antes`).
pub open spec fn criterio_ano(data: &str, ano: i32, antes: bool) -> bool {
    if antes {
        ano_do_texto(data) < ano
    } else {
        ano_do_texto(data) == ano
    }
}

/// Índices cujo ano é anterior a `ano` (`antes`) ou igual a `ano` (`!antes`).
fn indices_por_ano(datas: &[&str], ano: i32, antes: bool) -> (r: Vec<usize>)
    ensures
        selecao_exata(
            datas@.len(),
            |i: int| criterio_ano(datas@[i], ano, antes),
            r@,
        ),
{
    let ghost p = |i: int| criterio_ano(datas@[i], ano, antes);
    let mut r: Vec<usize> = Vec::new();
    let mut i: usize = 0;
    while i < datas.len()
        invariant
            i <= datas@.len(),
            p == (|i: int| criterio_ano(datas@[i], ano, antes)),
            selecao_exata(i as nat, p, r@),
        decreases datas@.len() - i,
    {
        let a = ano_data(datas[i]);
        let aceita = if antes {
            a < ano
        } else {
            a == ano
        };
        assert(aceita == p(i as int));
        let ghost anterior = r@;
        if aceita {
            r.push(i);
            proof {
                assert forall|j: int| 0 <= j < i + 1 && #[trigger] p(j) implies r@.contains(
                    j as usize,
                ) by {
                    if j < i {
                        let k = choose|k: int| 0 <= k < anterior.len() && anterior[k] == j as usize;
                        assert(r@[k] == j as usize);
                    } else {
                        assert(r@[anterior.len() as int] == i);
                    }
                }
            }
        } else {
            proof {
                assert forall|j: int| 0 <= j < i + 1 && #[trigger] p(j) implies r@.contains(
                    j as usize,
                ) by {
                    assert(j != i);
                }
            }
        }
        i += 1;
    }
    r
}

/// Divisão de uma janela anual: índices dos anos anteriores a `ano_teste` (treino)
/// e do próprio `ano_teste` (teste), na ordem original.
pub fn dividir_por_ano(datas: &[&str], ano_teste: i32) -> (r: (Vec<usize>, Vec<usize>))
    ensures
        selecao_exata(datas@.len(), |i: int| ano_do_texto(datas@[i]) < ano_teste, r.0@),
        selecao_exata(datas@.len(), |i: int| ano_do_texto(datas@[i]) == ano_teste, r.1@),
{
    let treino = indices_por_ano(datas, ano_teste, true);
    let teste = indices_por_ano(datas, ano_teste, false);
    proof {
        assert((|i: int| ano_do_texto(datas@[i]) < ano_teste) =~= (|i: int|
            criterio_ano(datas@[i], ano_teste, true)));
        assert((|i: int| ano_do_texto(datas@[i]) == ano_teste) =~= (|i: int|
            criterio_ano(datas@[i], ano_teste, false)));
    }
    (treino, teste)
}

/// A ordem lexicográfica de bytes é reflexiva.
pub proof fn lema_lex_reflexiva(a: Seq<u8>, i: nat)
    ensures
        lex_le_desde(a, a, i),
    decreases a.len() - i,
{
    if i < a.len() {
        lema_lex_reflexiva(a, i + 1);
    }
}

/// A ordem lexicográfica de bytes é transitiva.
pub proof fn lema_lex_transitiva(a: Seq<u8>, b: Seq<u8>, c: Seq<u8>, i: nat)
    requires
        lex_le_desde(a, b, i),
        lex_le_desde(b, c, i),
    ensures
        lex_le_desde(a, c, i),
    decreases a.len() - i,
{
    if i < a.len() {
        if a[i as int] == b[i as int] && b[i as int] == c[i as int] {
            lema_lex_transitiva(a, b, c, i + 1);
        }
    }
}

/// Bytes de um texto ASCII: um byte por caractere, com o mesmo código.
proof fn lema_bytes_ascii(s: &str)
    requires
        vstd::utf8::is_ascii_chars(s@),
    ensures
        bytes_de(s) =~= Seq::new(s@.len(), |i: int| s@[i] as u8),
{
    vstd::utf8::is_ascii_chars_encode_utf8(s@);
}

/// Bytes das datas-limite das divisões.
proof fn lema_bytes_limites()
    ensures
        bytes_de(LIMITE_TREINO_INTERNO) == seq![50u8, 48u8, 50u8, 48u8, 45u8, 49u8, 50u8, 45u8, 51u8, 49u8],
        bytes_de(INICIO_VALIDACAO) == seq![50u8, 48u8, 50u8, 49u8, 45u8, 48u8, 49u8, 45u8, 48u8, 49u8],
        bytes_de(LIMITE_VALIDACAO) == seq![50u8, 48u8, 50u8, 50u8, 45u8, 49u8, 50u8, 45u8, 51u8, 49u8],
        bytes_de(LIMITE_TREINO) == seq![50u8, 48u8, 50u8, 50u8, 45u8, 49u8, 50u8, 45u8, 51u8, 49u8],
        bytes_de(INICIO_TESTE) == seq![50u8, 48u8, 50u8, 51u8, 45u8, 48u8, 49u8, 45u8, 48u8, 49u8],
{
    reveal_strlit("2020-12-31");
    reveal_strlit("2021-01-01");
    reveal_strlit("2022-12-31");
    reveal_strlit("2023-01-01");
    assert(vstd::utf8::is_ascii_chars(LIMITE_TREINO_INTERNO@));
    assert(vstd::utf8::is_ascii_chars(INICIO_VALIDACAO@));
    assert(vstd::utf8::is_ascii_chars(LIMITE_VALIDACAO@));
    assert(vstd::utf8::is_ascii_chars(LIMITE_TREINO@));
    assert(vstd::utf8::is_ascii_chars(INICIO_TESTE@));
    lema_bytes_ascii(LIMITE_TREINO_INTERNO);
    lema_bytes_ascii(INICIO_VALIDACAO);
    lema_bytes_ascii(LIMITE_VALIDACAO);
    lema_bytes_ascii(LIMITE_TREINO);
    lema_bytes_ascii(INICIO_TESTE);
}

/// Dois textos separados por limites ordenados: de `b <= l1 < l2 <= a` segue `b < a`.
proof fn lema_separados_por_limites(b: Seq<u8>, l1: Seq<u8>, l2: Seq<u8>, a: Seq<u8>)
    requires
        lex_le(b, l1),
        lex_lt(l1, l2),
        lex_le(l2, a),
    ensures
        lex_lt(b, a),
{
    if lex_le(a, b) {
        lema_lex_transitiva(l2, a, b, 0);
        lema_lex_transitiva(l2, b, l1, 0);
    }
}

/// Toda data do treino principal vem estritamente antes de toda data do teste temporal.
pub proof fn lema_treino_precede_teste(d_treino: &str, d_teste: &str)
    requires
        no_treino(d_treino),
        no_teste(d_teste),
    ensures
        lex_lt(bytes_de(d_treino), bytes_de(d_teste)),
{
    lema_bytes_limites();
    reveal_with_fuel(lex_le_desde, 5);
    assert(lex_lt(bytes_de(LIMITE_TREINO), bytes_de(INICIO_TESTE)));
    lema_separados_por_limites(
        bytes_de(d_treino),
        bytes_de(LIMITE_TREINO),
        bytes_de(INICIO_TESTE),
        bytes_de(d_teste),
    );
}

/// Toda data do treino interno vem estritamente antes de toda data da validação interna.
pub proof fn lema_treino_interno_precede_validacao(d_treino: &str, d_validacao: &str)
    requires
        no_treino_interno(d_treino),
        na_validacao(d_validacao),
    ensures
        lex_lt(bytes_de(d_treino), bytes_de(d_validacao)),
{
    lema_bytes_limites();
    reveal_with_fuel(lex_le_desde, 5);
    assert(lex_lt(bytes_de(LIMITE_TREINO_INTERNO), bytes_de(INICIO_VALIDACAO)));
    lema_separados_por_limites(
        bytes_de(d_treino),
        bytes_de(LIMITE_TREINO_INTERNO),
        bytes_de(INICIO_VALIDACAO),
        bytes_de(d_validacao),
    );
}

/// A seleção interna usa só o treino principal: toda data do treino interno ou da
/// validação interna pertence ao treino principal.
pub proof fn lema_selecao_interna_dentro_do_treino(data: &str)
    requires
        no_treino_interno(data) || na_validacao(data),
    ensures
        no_treino(data),
{
    lema_bytes_limites();
    reveal_with_fuel(lex_le_desde, 5);
    assert(lex_le(bytes_de(LIMITE_TREINO_INTERNO), bytes_de(LIMITE_TREINO)));
    if no_treino_interno(data) {
        lema_lex_transitiva(
            bytes_de(data),
            bytes_de(LIMITE_TREINO_INTERNO),
            bytes_de(LIMITE_TREINO),
            0,
        );
    }
}

/// Na divisão temporal, os índices do treino e do teste são disjuntos e toda data do
/// treino é estritamente anterior a toda data do teste.
pub proof fn lema_divisao_temporal_sem_vazamento(
    datas: Seq<&str>,
    treino: Seq<usize>,
    teste: Seq<usize>,
)
    requires
        selecao_exata(datas.len(), |i: int| no_treino(datas[i]), treino),
        selecao_exata(datas.len(), |i: int| no_teste(datas[i]), teste),
    ensures
        forall|a: int, b: int|
            0 <= a < treino.len() && 0 <= b < teste.len() ==> #[trigger] treino[a]
                != #[trigger] teste[b] && lex_lt(
                bytes_de(datas[treino[a] as int]),
                bytes_de(datas[teste[b] as int]),
            ),
{
    assert forall|a: int, b: int| 0 <= a < treino.len() && 0 <= b < teste.len() implies #[trigger] treino[a]
        != #[trigger] teste[b] && lex_lt(
        bytes_de(datas[treino[a] as int]),
        bytes_de(datas[teste[b] as int]),
    ) by {
        let x = datas[treino[a] as int];
        let y = datas[teste[b] as int];
        lema_treino_precede_teste(x, y);
        if treino[a] == teste[b] {
            lema_lex_reflexiva(bytes_de(x), 0);
        }
    }
}

/// Na divisão anual, os índices do treino e do teste são disjuntos e todo ano do
/// treino é anterior ao ano de teste.
pub proof fn lema_divisao_anual_sem_vazamento(
    datas: Seq<&str>,
    ano_teste: i32,
    treino: Seq<usize>,
    teste: Seq<usize>,
)
    requires
        selecao_exata(datas.len(), |i: int| ano_do_texto(datas[i]) < ano_teste, treino),
        selecao_exata(datas.len(), |i: int| ano_do_texto(datas[i]) == ano_teste, teste),
    ensures
        forall|a: int, b: int|
            0 <= a < treino.len() && 0 <= b < teste.len() ==> #[trigger] treino[a]
                != #[trigger] teste[b] && ano_do_texto(datas[treino[a] as int])
                < ano_do_texto(datas[teste[b] as int]),
{
}

/// A ordem lexicográfica de bytes é total.
pub proof fn lema_lex_total(a: Seq<u8>, b: Seq<u8>, i: nat)
    ensures
        lex_le_desde(a, b, i) || lex_le_desde(b, a, i),
    decreases a.len() - i,
{
    if i < a.len() && i < b.len() && a[i as int] == b[i as int] {
        lema_lex_total(a, b, i + 1);
    }
}

/// A ordem lexicográfica de bytes é antissimétrica.
pub proof fn lema_lex_antissimetrica(a: Seq<u8>, b: Seq<u8>, i: nat)
    requires
        i <= a.len(),
        i <= b.len(),
        a.subrange(0, i as int) == b.subrange(0, i as int),
        lex_le_desde(a, b, i),
        lex_le_desde(b, a, i),
    ensures
        a == b,
    decreases a.len() - i,
{
    if i >= a.len() {
        assert(a =~= a.subrange(0, i as int));
        assert(b =~= b.subrange(0, i as int));
    } else {
        assert(a.subrange(0, (i + 1) as int) =~= a.subrange(0, i as int).push(a[i as int]));
        assert(b.subrange(0, (i + 1) as int) =~= b.subrange(0, i as int).push(b[i as int]));
        lema_lex_antissimetrica(a, b, i + 1);
    }
}

/// Ordem estável por data: o índice `x` vem antes de `y` quando sua data é menor, ou
/// quando as datas são iguais e `x < y`.
pub open spec fn antes_estavel(datas: Seq<&str>, x: int, y: int) -> bool {
    lex_lt(bytes_de(datas[x]), bytes_de(datas[y])) || (bytes_de(datas[x]) == bytes_de(datas[y])
        && x < y)
}

/// A ordem estável por data é transitiva.
pub proof fn lema_antes_estavel_transitiva(datas: Seq<&str>, x: int, y: int, z: int)
    requires
        antes_estavel(datas, x, y),
        antes_estavel(datas, y, z),
    ensures
        antes_estavel(datas, x, z),
{
    let a = bytes_de(datas[x]);
    let b = bytes_de(datas[y]);
    let c = bytes_de(datas[z]);
    lema_lex_total(a, b, 0);
    lema_lex_total(b, c, 0);
    lema_lex_total(a, c, 0);
    if lex_le(c, a) {
        if lex_lt(a, b) {
            lema_lex_transitiva(c, a, b, 0);
        } else if lex_lt(b, c) {
            lema_lex_transitiva(b, c, a, 0);
        } else {
            lema_lex_reflexiva(a, 0);
            lema_lex_reflexiva(b, 0);
        }
    }
}

/// Índices das datas em ordem crescente de data; datas iguais mantêm a ordem original
/// (ordenação estável pela ordem de bytes dos textos).
pub fn ordenar_por_data(datas: &[&str]) -> (r: Vec<usize>)
    ensures
        r@.len() == datas@.len(),
        sem_repeticao_indices(r@),
        forall|k: int| 0 <= k < r@.len() ==> #[trigger] r@[k] < datas@.len(),
        forall|p: int, q: int|
            0 <= p < q < r@.len() ==> antes_estavel(
                datas@,
                #[trigger] r@[p] as int,
                #[trigger] r@[q] as int,
            ),
{
    let mut r: Vec<usize> = Vec::new();
    let mut i: usize = 0;
    while i < datas.len()
        invariant
            i <= datas@.len(),
            r@.len() == i,
            sem_repeticao_indices(r@),
            forall|k: int| 0 <= k < r@.len() ==> #[trigger] r@[k] < i,
            forall|p: int, q: int|
                0 <= p < q < r@.len() ==> antes_estavel(
                    datas@,
                    #[trigger] r@[p] as int,
                    #[trigger] r@[q] as int,
                ),
        decreases datas@.len() - i,
    {
        let bi = datas[i].as_bytes();
        let mut j: usize = r.len();
        while j > 0 && !bytes_ate(datas[r[j - 1]].as_bytes(), bi)
            invariant
                i < datas@.len(),
                bi@ == bytes_de(datas@[i as int]),
                j <= r@.len(),
                forall|k: int| 0 <= k < r@.len() ==> #[trigger] r@[k] < i,
                forall|k: int|
                    j <= k < r@.len() ==> lex_lt(
                        bytes_de(datas@[i as int]),
                        bytes_de(datas@[#[trigger] r@[k] as int]),
                    ),
            decreases j,
        {
            j -= 1;
        }
        let ghost antes = r@;
        proof {
            let x = i as int;
            assert forall|k: int| 0 <= k < j implies antes_estavel(
                datas@,
                #[trigger] antes[k] as int,
                x,
            ) by {
                let u = antes[j - 1] as int;
                let bu = bytes_de(datas@[u]);
                let bx = bytes_de(datas@[x]);
                assert(lex_le(bu, bx));
                lema_lex_total(bu, bx, 0);
                if lex_le(bx, bu) {
                    assert(bu.subrange(0, 0) =~= bx.subrange(0, 0));
                    lema_lex_antissimetrica(bu, bx, 0);
                }
                assert(antes_estavel(datas@, u, x));
                if k < j - 1 {
                    assert(antes_estavel(datas@, antes[k] as int, u));
                    lema_antes_estavel_transitiva(datas@, antes[k] as int, u, x);
                }
            }
        }
        r.insert(j, i);
        proof {
            assert forall|p: int, q: int| 0 <= p < q < r@.len() implies antes_estavel(
                datas@,
                #[trigger] r@[p] as int,
                #[trigger] r@[q] as int,
            ) by {
                if q < j {
                    assert(r@[p] == antes[p] && r@[q] == antes[q]);
                } else if q == j {
                    assert(r@[p] == antes[p]);
                } else if p == j {
                    assert(r@[q] == antes[q - 1]);
                } else if p < j {
                    assert(r@[p] == antes[p] && r@[q] == antes[q - 1]);
                } else {
                    assert(r@[p] == antes[p - 1] && r@[q] == antes[q - 1]);
                }
            }
            assert forall|a: int, b: int| 0 <= a < b < r@.len() implies #[trigger] r@[a]
                != #[trigger] r@[b] by {
                if a == j || b == j {
                } else {
                    let a0 = if a < j { a } else { a - 1 };
                    let b0 = if b < j { b } else { b - 1 };
                    assert(r@[a] == antes[a0] && r@[b] == antes[b0]);
                }
            }
        }
        i += 1;
    }
    r
}

/// Índices sem repetição.
pub open spec fn sem_repeticao_indices(s: Seq<usize>) -> bool {
    forall|a: int, b: int| 0 <= a < b < s.len() ==> #[trigger] s[a] != #[trigger] s[b]
}

/// Com bytes iguais nas posições `j..i`, comparar a partir de `j` é comparar a partir de `i`.
proof fn lema_lex_pula_prefixo_igual(a: Seq<u8>, b: Seq<u8>, j: int, i: int)
    requires
        0 <= j <= i,
        i <= a.len(),
        i <= b.len(),
        forall|k: int| j <= k < i ==> a[k] == b[k],
    ensures
        lex_le_desde(a, b, j as nat) == lex_le_desde(a, b, i as nat),
        lex_le_desde(b, a, j as nat) == lex_le_desde(b, a, i as nat),
    decreases i - j,
{
    if j < i {
        lema_lex_pula_prefixo_igual(a, b, j + 1, i);
    }
}

/// Ordem de bytes: na primeira posição em que dois textos diferem, o que tem o byte menor
/// vem antes (`a <= b` e não `b <= a`).
pub proof fn lema_lex_primeira_diferenca(a: Seq<u8>, b: Seq<u8>, i: int)
    requires
        0 <= i < a.len(),
        i < b.len(),
        a.subrange(0, i) == b.subrange(0, i),
        a[i] < b[i],
    ensures
        lex_le(a, b),
        !lex_le(b, a),
        lex_lt(a, b),
{
    assert forall|k: int| 0 <= k < i implies a[k] == b[k] by {
        assert(a.subrange(0, i)[k] == a[k]);
        assert(b.subrange(0, i)[k] == b[k]);
    }
    lema_lex_pula_prefixo_igual(a, b, 0, i);
}

/// Ordem de bytes: um texto vem antes (ou junto) de qualquer texto que o prolonga, e
/// estritamente antes quando o prolongamento é maior.
pub proof fn lema_lex_prefixo(a: Seq<u8>, b: Seq<u8>)
    requires
        a.len() <= b.len(),
        a == b.subrange(0, a.len() as int),
    ensures
        lex_le(a, b),
        a.len() < b.len() ==> !lex_le(b, a),
{
    assert forall|k: int| 0 <= k < a.len() implies a[k] == b[k] by {
        assert(b.subrange(0, a.len() as int)[k] == b[k]);
    }
    lema_lex_pula_prefixo_igual(a, b, 0, a.len() as int);
}

/// Depois de um byte ASCII num texto UTF-8 válido há fronteira de caractere, e antes dele também.
proof fn lema_fronteira_ascii(b: Seq<u8>, i: int)
    requires
        vstd::utf8::valid_utf8(b),
        0 <= i < b.len(),
        b[i] < 128,
    ensures
        vstd::utf8::is_char_boundary(b, i),
        vstd::utf8::is_char_boundary(b, i + 1),
{
    vstd::utf8::is_char_boundary_iff_not_is_continuation_byte(b, i);
    if i + 1 == b.len() {
        vstd::utf8::is_char_boundary_start_end_of_seq(b);
    } else {
        vstd::utf8::valid_utf8_split(b, i);
        let t = b.subrange(i, b.len() as int);
        assert(t[0] == b[i]);
        assert(vstd::utf8::length_of_first_scalar(t) == 1);
        let resto = vstd::utf8::pop_first_scalar(t);
        assert(resto =~= b.subrange(i + 1, b.len() as int));
        assert(vstd::utf8::valid_utf8(resto));
        assert(resto[0] == b[i + 1]);
        assert(vstd::utf8::valid_first_scalar(resto));
        assert(!vstd::utf8::is_continuation_byte(b[i + 1]));
        vstd::utf8::is_char_boundary_iff_not_is_continuation_byte(b, i + 1);
    }
}

/// Valor de dois dígitos decimais.
proof fn lema_valor_dois_digitos(s: Seq<u8>)
    requires
        s.len() == 2,
        todos_digitos(s),
    ensures
        valor_digitos(s) == (s[0] - 48) * 10 + (s[1] - 48),
{
    let s1 = s.drop_last();
    assert(s1.drop_last() =~= Seq::<u8>::empty());
    assert(valor_digitos(s1.drop_last()) == 0);
    assert(s1.last() == s[0]);
    assert(valor_digitos(s1) == (s[0] - 48));
    assert(s.last() == s[1]);
}

/// Mês de uma data: quando os bytes 5 e 6 são dígitos decimais `d1 d2` formando um número
/// de 1 a 12, o mês é `10·d1 + d2`; quando formam outro número, o mês é 1; textos com
/// menos de 7 bytes dão 1.
pub proof fn lema_mes_de_digitos(data: &str)
    ensures
        ({
            let b = bytes_de(data);
            let v = (b[5] - 48) * 10 + (b[6] - 48);
            &&& (b.len() >= 7 && eh_digito(b[5]) && eh_digito(b[6]) && 1 <= v <= 12) ==> mes_de(b)
                == v
            &&& (b.len() >= 7 && eh_digito(b[5]) && eh_digito(b[6]) && !(1 <= v <= 12)) ==> mes_de(b)
                == 1
            &&& b.len() < 7 ==> mes_de(b) == 1
        }),
{
    let b = bytes_de(data);
    if b.len() >= 7 && eh_digito(b[5]) && eh_digito(b[6]) {
        vstd::utf8::encode_utf8_valid_utf8(data@);
        lema_fronteira_ascii(b, 5);
        lema_fronteira_ascii(b, 6);
        let sub = b.subrange(5, 7);
        assert(sub[0] == b[5] && sub[1] == b[6]);
        assert(todos_digitos(sub));
        lema_valor_dois_digitos(sub);
    }
}

/// Valor de quatro dígitos decimais.
proof fn lema_valor_quatro_digitos(s: Seq<u8>)
    requires
        s.len() == 4,
        todos_digitos(s),
    ensures
        valor_digitos(s) == (s[0] - 48) * 1000 + (s[1] - 48) * 100 + (s[2] - 48) * 10 + (s[3]
            - 48),
{
    let s3 = s.drop_last();
    let s2 = s3.drop_last();
    let s1 = s2.drop_last();
    assert(s1.drop_last() =~= Seq::<u8>::empty());
    assert(valor_digitos(s1.drop_last()) == 0);
    assert(s1.last() == s[0]);
    assert(valor_digitos(s1) == (s[0] - 48));
    assert(s2.last() == s[1]);
    assert(valor_digitos(s2) == (s[0] - 48) * 10 + (s[1] - 48));
    assert(s3.last() == s[2]);
    assert(valor_digitos(s3) == (s[0] - 48) * 100 + (s[1] - 48) * 10 + (s[2] - 48));
    assert(s.last() == s[3]);
}

/// Ano de uma data: quando os quatro primeiros bytes são dígitos decimais, o ano é o
/// número que eles escrevem; textos com menos de 4 bytes dão 0.
pub proof fn lema_ano_de_digitos(data: &str)
    ensures
        ({
            let b = bytes_de(data);
            &&& (b.len() >= 4 && eh_digito(b[0]) && eh_digito(b[1]) && eh_digito(b[2]) && eh_digito(
                b[3],
            )) ==> ano_de(b) == (b[0] - 48) * 1000 + (b[1] - 48) * 100 + (b[2] - 48) * 10 + (b[3]
                - 48)
            &&& b.len() < 4 ==> ano_de(b) == 0
        }),
{
    let b = bytes_de(data);
    if b.len() >= 4 && eh_digito(b[0]) && eh_digito(b[1]) && eh_digito(b[2]) && eh_digito(b[3]) {
        vstd::utf8::encode_utf8_valid_utf8(data@);
        lema_fronteira_ascii(b, 3);
        let sub = b.subrange(0, 4);
        assert(sub[0] == b[0] && sub[1] == b[1] && sub[2] == b[2] && sub[3] == b[3]);
        assert(todos_digitos(sub));
        lema_valor_quatro_digitos(sub);
    }
}

} // verus!
