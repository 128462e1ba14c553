//! Partes inteiras da Random Forest: parâmetros, gerador, sorteio de features e de amostras.

pub mod arvores;
