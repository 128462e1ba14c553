//! Partes inteiras da rede neural: gerador de inicialização e formas das camadas.

pub mod network;
