pub mod base64;
pub mod cliarguments;
pub mod configcreator;
pub mod configprovider;
pub mod error;
pub mod framing;
pub mod headers;
pub mod httprequest;
pub mod nextcloudclient;
pub mod postnote;
pub mod response;
pub mod text;
pub mod transport;
pub mod utils;
pub mod wire;
