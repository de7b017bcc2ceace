//! The node-facing component: what the daemon asks of its node and how it
//! reads the answers.
//!
//! The connections themselves live outside the crate; this component
//! builds the typed requests (descriptor imports, value floors) and
//! interprets the answers it is handed back, classifying every missing or
//! ill-typed piece as the malformed-answer error.

use vstd::prelude::*;
use vstd::string::StringSliceAdditionalSpecFns;
use vstd::utf8::encode_utf8;

use crate::errors::BitcoindError;
use crate::types::{is_txid_hex, txid_of_hex, BlockchainTip, Txid};

verus! {

/// Which of the three node connections a request goes to: the plain node
/// endpoint, the watch-only wallet that tracks deposit and unvault
/// addresses, or the fee-bump wallet.
#[derive(Clone, Copy, PartialEq, Eq, Structural, Debug)]
pub enum WalletEndpoint {
    Node,
    WatchOnly,
    Cpfp,
}

/// When the node should consider an imported descriptor to start: now,
/// for a freshly created wallet, or at a given timestamp, which makes the
/// node rescan from there.
#[derive(Clone, Copy, PartialEq, Eq, Structural, Debug)]
pub enum ImportTimestamp {
    Now,
    At(u32),
}

/// One descriptor to import into a wallet, with its label and whether the
/// wallet should treat it as active.
#[derive(Debug)]
pub struct DescriptorImport {
    pub descriptor: String,
    pub timestamp: ImportTimestamp,
    pub label: String,
    pub active: bool,
}

/// A bulk descriptor import, ready to be sent to one wallet endpoint.
#[derive(Debug)]
pub struct ImportRequest {
    pub wallet: WalletEndpoint,
    pub imports: Vec<DescriptorImport>,
}

/// The daemon's node interface: stateless but for the deposit value floor
/// its unspent queries carry.
pub struct BitcoinD {
    /// The value floor under which a deposit is never tracked.
    pub min_deposit_sats: u64,
}

impl BitcoinD {
    /// Set up the interface with the protocol's deposit floor.
    pub fn new() -> (r: BitcoinD)
        ensures
            r.min_deposit_sats == 556_500u64,
    {
        BitcoinD { min_deposit_sats: crate::txrules::min_deposit_value() }
    }

    /// The floor in whole coins, as the node's unspent-output query wants
    /// its minimum-amount option.
    pub fn deposit_query_floor_coins(&self) -> (r: u64)
        ensures
            r == self.min_deposit_sats / 100_000_000u64,
    {
        self.min_deposit_sats / crate::txrules::coin_value()
    }

    /// Read a block-hash answer: the 64-digit hex writing of the hash, or
    /// the malformed-answer error on anything else.
    pub fn getblockhash(&self, resp: &Option<String>) -> (r: Result<Txid, BitcoindError>)
        ensures
            r is Ok <==> (resp matches Some(h) && is_txid_hex(encode_utf8(h@))),
            r matches Ok(h) ==> h == txid_of_hex(encode_utf8(resp->0@)),
            r matches Err(e) ==> e is Custom,
    {
        match resp {
            Some(h) => match crate::types::txid_from_hex(h.as_str()) {
                Some(t) => Ok(t),
                None => Err(
                    BitcoindError::Custom("invalid block hash in the node's answer".to_owned()),
                ),
            },
            None => Err(
                BitcoindError::Custom("no block hash string in the node's answer".to_owned()),
            ),
        }
    }

    /// Assemble the chain tip from a block-count answer and the hash
    /// answer for that height. Fails exactly when the count is missing or
    /// the hash does not read as one.
    pub fn get_tip(&self, blockcount: &Option<u64>, blockhash: &Option<String>) -> (r: Result<
        BlockchainTip,
        BitcoindError,
    >)
        ensures
            r is Ok <==> blockcount is Some && (blockhash matches Some(h) && is_txid_hex(
                encode_utf8(h@),
            )),
            r matches Ok(tip) ==> tip.height == blockcount->0 % 0x1_0000_0000 && tip.hash
                == txid_of_hex(encode_utf8(blockhash->0@)),
            r matches Err(e) ==> e is Custom,
    {
        let count: u64 = match blockcount {
            Some(c) => *c,
            None => {
                return Err(
                    BitcoindError::Custom("no block count in the node's answer".to_owned()),
                );
            },
        };
        let hash = match self.getblockhash(blockhash) {
            Ok(h) => h,
            Err(e) => {
                return Err(e);
            },
        };
        Ok(BlockchainTip { height: (count % 0x1_0000_0000) as u32, hash })
    }

    /// Read the wallet listing: the node's answer must be an array of
    /// strings. A missing array is the malformed-answer error; an entry
    /// that is not a string is an incompatible node and must not reach
    /// this reader.
    pub fn listwallets(&self, resp: &Option<Vec<Option<String>>>) -> (r: Result<
        Vec<String>,
        BitcoindError,
    >)
        requires
            resp matches Some(v) ==> forall|i: int| 0 <= i < v@.len() ==> (#[trigger] v@[i]) is Some,
        ensures
            r is Ok <==> resp is Some,
            r matches Ok(names) ==> names@.len() == resp->0@.len() && (forall|i: int|
                0 <= i < names@.len() ==> (#[trigger] names@[i])@ == resp->0@[i]->0@),
            r matches Err(e) ==> e is Custom,
    {
        let list: &Vec<Option<String>> = match resp {
            Some(v) => v,
            None => {
                return Err(
                    BitcoindError::Custom("no array in the wallet-listing answer".to_owned()),
                );
            },
        };
        let n = list.len();
        let mut names: Vec<String> = Vec::new();
        let mut i: usize = 0;
        while i < n
            invariant
                0 <= i <= n == list@.len(),
                forall|t: int| 0 <= t < list@.len() ==> (#[trigger] list@[t]) is Some,
                names@.len() == i,
                forall|t: int| 0 <= t < i ==> (#[trigger] names@[t])@ == list@[t]->0@,
            decreases n - i,
        {
            match &list[i] {
                Some(s) => {
                    names.push(crate::types::clone_string(s));
                },
                None => {
                    proof {
                        assert(false);
                    }
                    unreached()
                },
            }
            i = i + 1;
        }
        Ok(names)
    }

    /// Build a bulk descriptor import for one wallet: one slot per
    /// descriptor, all under one label; a fresh wallet imports as of now,
    /// any other as of the given timestamp so the node rescans.
    fn bulk_import_request(
        &self,
        wallet: WalletEndpoint,
        descriptors: Vec<String>,
        timestamp: u32,
        label: &str,
        fresh_wallet: bool,
        active: bool,
    ) -> (r: ImportRequest)
        ensures
            r.wallet == wallet,
            r.imports@.len() == descriptors@.len(),
            forall|i: int|
                0 <= i < r.imports@.len() ==> {
                    &&& (#[trigger] r.imports@[i]).descriptor == descriptors@[i]
                    &&& r.imports@[i].timestamp == (if fresh_wallet {
                        ImportTimestamp::Now
                    } else {
                        ImportTimestamp::At(timestamp)
                    })
                    &&& r.imports@[i].label@ == label@
                    &&& r.imports@[i].active == active
                },
    {
        let ghost all = descriptors@;
        let total = descriptors.len();
        let mut remaining = descriptors;
        let mut imports: Vec<DescriptorImport> = Vec::new();
        let mut i: usize = 0;
        while remaining.len() > 0
            invariant
                i + remaining@.len() == total == all.len(),
                remaining@ =~= all.subrange(i as int, total as int),
                imports@.len() == i,
                forall|t: int|
                    0 <= t < i ==> {
                        &&& (#[trigger] imports@[t]).descriptor == all[t]
                        &&& imports@[t].timestamp == (if fresh_wallet {
                            ImportTimestamp::Now
                        } else {
                            ImportTimestamp::At(timestamp)
                        })
                        &&& imports@[t].label@ == label@
                        &&& imports@[t].active == active
                    },
            decreases remaining@.len(),
        {
            let d = remaining.remove(0);
            proof {
                assert(d == all[i as int]);
                assert(remaining@ =~= all.subrange(i + 1, total as int));
            }
            let slot = DescriptorImport {
                descriptor: d,
                timestamp: if fresh_wallet {
                    ImportTimestamp::Now
                } else {
                    ImportTimestamp::At(timestamp)
                },
                label: label.to_owned(),
                active,
            };
            imports.push(slot);
            i = i + 1;
        }
        ImportRequest { wallet, imports }
    }

    /// The startup import of the deposit descriptors into the watch-only
    /// wallet, inactive, under the deposit label.
    pub fn startup_import_deposit_descriptors(
        &self,
        descriptors: Vec<String>,
        timestamp: u32,
        fresh_wallet: bool,
    ) -> (r: ImportRequest)
        ensures
            r.wallet == WalletEndpoint::WatchOnly,
            r.imports@.len() == descriptors@.len(),
            forall|i: int|
                0 <= i < r.imports@.len() ==> {
                    &&& (#[trigger] r.imports@[i]).descriptor == descriptors@[i]
                    &&& r.imports@[i].timestamp == (if fresh_wallet {
                        ImportTimestamp::Now
                    } else {
                        ImportTimestamp::At(timestamp)
                    })
                    &&& r.imports@[i].label@ == crate::sync::deposit_label()
                    &&& r.imports@[i].active == false
                },
    {
        self.bulk_import_request(
            WalletEndpoint::WatchOnly,
            descriptors,
            timestamp,
            "revault-deposit",
            fresh_wallet,
            false,
        )
    }

    /// The startup import of the unvault descriptors into the watch-only
    /// wallet, inactive, under the unvault label.
    pub fn startup_import_unvault_descriptors(
        &self,
        descriptors: Vec<String>,
        timestamp: u32,
        fresh_wallet: bool,
    ) -> (r: ImportRequest)
        ensures
            r.wallet == WalletEndpoint::WatchOnly,
            r.imports@.len() == descriptors@.len(),
            forall|i: int|
                0 <= i < r.imports@.len() ==> {
                    &&& (#[trigger] r.imports@[i]).descriptor == descriptors@[i]
                    &&& r.imports@[i].timestamp == (if fresh_wallet {
                        ImportTimestamp::Now
                    } else {
                        ImportTimestamp::At(timestamp)
                    })
                    &&& r.imports@[i].label@ == crate::sync::unvault_label()
                    &&& r.imports@[i].active == false
                },
    {
        self.bulk_import_request(
            WalletEndpoint::WatchOnly,
            descriptors,
            timestamp,
            "revault-unvault",
            fresh_wallet,
            false,
        )
    }

    /// The startup import of the single fee-bump descriptor into the
    /// fee-bump wallet, active, under its own label.
    pub fn startup_import_cpfp_descriptor(
        &self,
        descriptor: String,
        timestamp: u32,
        fresh_wallet: bool,
    ) -> (r: ImportRequest)
        ensures
            r.wallet == WalletEndpoint::Cpfp,
            r.imports@.len() == 1,
            r.imports@[0].descriptor == descriptor,
            r.imports@[0].timestamp == (if fresh_wallet {
                ImportTimestamp::Now
            } else {
                ImportTimestamp::At(timestamp)
            }),
            r.imports@[0].label@ == "revault-cpfp"@,
            r.imports@[0].active == true,
    {
        let mut descriptors: Vec<String> = Vec::new();
        descriptors.push(descriptor);
        self.bulk_import_request(
            WalletEndpoint::Cpfp,
            descriptors,
            timestamp,
            "revault-cpfp",
            fresh_wallet,
            true,
        )
    }

    /// Import one deposit descriptor seen for the first time while the
    /// daemon runs: as of now, into the watch-only wallet.
    pub fn import_fresh_deposit_descriptor(&self, descriptor: String) -> (r: ImportRequest)
        ensures
            r.wallet == WalletEndpoint::WatchOnly,
            r.imports@.len() == 1,
            r.imports@[0].descriptor == descriptor,
            r.imports@[0].timestamp == ImportTimestamp::Now,
            r.imports@[0].label@ == crate::sync::deposit_label(),
            r.imports@[0].active == false,
    {
        let mut descriptors: Vec<String> = Vec::new();
        descriptors.push(descriptor);
        self.bulk_import_request(
            WalletEndpoint::WatchOnly,
            descriptors,
            0,
            "revault-deposit",
            true,
            false,
        )
    }

    /// Import one unvault descriptor seen for the first time while the
    /// daemon runs: as of now, into the watch-only wallet.
    pub fn import_fresh_unvault_descriptor(&self, descriptor: String) -> (r: ImportRequest)
        ensures
            r.wallet == WalletEndpoint::WatchOnly,
            r.imports@.len() == 1,
            r.imports@[0].descriptor == descriptor,
            r.imports@[0].timestamp == ImportTimestamp::Now,
            r.imports@[0].label@ == crate::sync::unvault_label(),
            r.imports@[0].active == false,
    {
        let mut descriptors: Vec<String> = Vec::new();
        descriptors.push(descriptor);
        self.bulk_import_request(
            WalletEndpoint::WatchOnly,
            descriptors,
            0,
            "revault-unvault",
            true,
            false,
        )
    }

    /// Read an import answer: the first result slot must say success.
    /// `None` outside: no first slot; `None` inside: no success flag.
    pub fn check_import_response(&self, first_success: &Option<Option<bool>>) -> (r: Result<
        (),
        BitcoindError,
    >)
        ensures
            r is Ok <==> (first_success matches Some(s) && s matches Some(b) && *b),
            r matches Err(e) ==> e is Custom,
    {
        match first_success {
            Some(Some(true)) => Ok(()),
            _ => Err(
                BitcoindError::Custom("no success in the descriptor-import answer".to_owned()),
            ),
        }
    }

    /// Read a wallet-unload answer: the warning field is owed; an empty
    /// warning is success, any other is surfaced as the error text.
    pub fn unloadwallet(&self, warning: &Option<Option<String>>) -> (r: Result<(), BitcoindError>)
        ensures
            r is Ok <==> (warning matches Some(w) && w matches Some(t) && t@.len() == 0),
            warning matches Some(w) ==> (w matches Some(t) ==> (t@.len() != 0 ==> (r matches Err(
                e,
            ) && e matches BitcoindError::Custom(msg) && msg@ == t@))),
            r matches Err(e) ==> e is Custom,
    {
        match warning {
            Some(Some(t)) => {
                if t.as_str().is_empty() {
                    Ok(())
                } else {
                    Err(BitcoindError::Custom(crate::types::clone_string(t)))
                }
            },
            _ => Err(
                BitcoindError::Custom("no warning field in the wallet-unload answer".to_owned()),
            ),
        }
    }

    /// Read a descriptor-info answer: the checksummed descriptor string.
    pub fn addr_descriptor(&self, descriptor: &Option<String>) -> (r: Result<
        String,
        BitcoindError,
    >)
        ensures
            r is Ok <==> descriptor is Some,
            r matches Ok(d) ==> d@ == descriptor->0@,
            r matches Err(e) ==> e is Custom,
    {
        match descriptor {
            Some(d) => Ok(crate::types::clone_string(d)),
            None => Err(
                BitcoindError::Custom("no descriptor in the descriptor-info answer".to_owned()),
            ),
        }
    }
}

/// The node's synchronization state: how many headers and blocks it has,
/// whether it is still in its initial block download, and its verification
/// progress in millionths (the whole chain verified is one million).
#[derive(Clone, Copy, PartialEq, Eq, Structural, Debug)]
pub struct SyncInfo {
    pub headers: u64,
    pub blocks: u64,
    pub ibd: bool,
    pub progress_millionths: u64,
}

/// The chain-info answer, unchecked: each field `None` where absent or
/// ill-typed. The verification progress arrives scaled to millionths.
#[derive(Debug)]
pub struct BlockchainInfoRaw {
    pub headers: Option<u64>,
    pub blocks: Option<u64>,
    pub ibd: Option<bool>,
    pub progress_millionths: Option<u64>,
}

/// Read the node's chain-info answer into the synchronization state;
/// every field is owed, and any missing one is the malformed-answer
/// error.
pub fn synchronization_info(raw: &BlockchainInfoRaw) -> (r: Result<SyncInfo, BitcoindError>)
    ensures
        r is Ok <==> raw.headers is Some && raw.blocks is Some && raw.ibd is Some
            && raw.progress_millionths is Some,
        r matches Ok(si) ==> si == (SyncInfo {
            headers: raw.headers->0,
            blocks: raw.blocks->0,
            ibd: raw.ibd->0,
            progress_millionths: raw.progress_millionths->0,
        }),
        r matches Err(e) ==> e is Custom,
{
    match (&raw.headers, &raw.blocks, &raw.ibd, &raw.progress_millionths) {
        (Some(h), Some(b), Some(ibd), Some(p)) => Ok(
            SyncInfo { headers: *h, blocks: *b, ibd: *ibd, progress_millionths: *p },
        ),
        _ => Err(BitcoindError::Custom("missing field in the chain-info answer".to_owned())),
    }
}

} // verus!
