//! Núcleo verificado do PGNN-Itaipu: geradores pseudoaleatórios reprodutíveis,
//! sorteios da Random Forest, divisões temporais por data e catálogo de features.

pub mod datas;
pub mod experimentos;
pub mod ml;
pub mod neural;
