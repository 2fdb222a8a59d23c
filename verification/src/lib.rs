//! Construction, serialization and signing of transactions for a
//! Bitcoin Cash style UTXO chain, including two covenant scripts.

pub mod address;
pub mod address_laws;
pub mod advanced_trade_offer;
pub mod crypto;
pub mod hash;
pub mod outputs;
pub mod p2_ascending_nonce;
pub mod round_trip;
pub mod script;
pub mod serialize;
pub mod size;
pub mod tx;
pub mod unsigned_tx;
pub mod wallet;

pub use address::{Address, AddressError, AddressType};
pub use advanced_trade_offer::{
    AdvancedTradeOffer, AdvancedTradeOfferSpendParams, P2PKHDropNOutput,
};
pub use hash::{double_sha256, hash160, single_sha256};
pub use outputs::{OpReturnOutput, Output, P2PKHOutput, P2SHOutput, SLPGenesis, SLPSend};
pub use p2_ascending_nonce::{P2AscendingNonce, P2AscendingNonceSpendParams};
pub use script::{Op, OpCodeType, Script};
pub use serialize::InvalidData;
pub use tx::{tx_hash_to_hex, tx_hex_to_hash, Tx, TxInput, TxOutpoint, TxOutput};
pub use unsigned_tx::{PreImage, PreImageWriteFlags, UnsignedInput, UnsignedTx};
pub use wallet::{UtxoEntry, Wallet, DUST_AMOUNT};
