# pgnn_itaipu

Modelagem da geração diária da Usina de Itaipu a partir da vazão do Rio Paraná com uma
rede neural guiada por física, Random Forest e baselines temporais.

## Organização

- `src/` — biblioteca verificada com Verus: tudo o que o pipeline decide com inteiros e
  textos.
  - `neural/network.rs`: gerador xorshift64* da inicialização dos pesos e formas
    `(fan_in, fan_out)` das camadas.
  - `ml/arvores.rs`: parâmetros da Random Forest, gerador xorshift64, sorteio das features
    candidatas (Fisher-Yates parcial) e das amostras bootstrap de cada árvore.
  - `datas.rs`: ano e mês de datas `AAAA-MM-DD`, divisões temporais (treino/teste,
    treino interno/validação, janelas anuais) e ordenação estável por data, com as leis
    de que nenhuma data de avaliação precede ou coincide com uma de treino.
  - `experimentos.rs`: grupos de features defasadas e parâmetros da floresta exploratória.
- `app/` — o programa: leitura do CSV e do JSON de normalização, rede neural, perdas com
  física, Adam, árvores, métricas e gravação dos resultados. Tudo isso opera em `f64` e
  chama a biblioteca para os sorteios, as divisões por data e o catálogo de features.
- `tests/` — testes da biblioteca com valores concretos.
