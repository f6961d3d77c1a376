//! Boot sequence of the registry actor after a code upgrade: the host reads
//! the durable image from the reserved region and decodes it; this module then
//! rebuilds the runtime state from the restored data, applies the fixed
//! post-restore amendments, and only then resets the memory manager's layout —
//! the reset is a state transition that must follow a successful restore,
//! never precede one.

use vstd::prelude::*;
use crate::memory::{reset_memory_manager, MemoryManager, BUCKET_SIZE_IN_PAGES};
use crate::types::TimestampMillis;

verus! {

#[derive(Clone, Copy, Debug, PartialEq, Eq, Structural)]
pub struct BuildVersion {
    pub major: u32,
    pub minor: u32,
    pub patch: u32,
}

pub struct Args {
    pub wasm_version: BuildVersion,
}

/// Textual identities of the four actors behind one registered token.
pub struct TokenDetails {
    pub ledger_canister_id: String,
    pub root_canister_id: String,
    pub governance_canister_id: String,
    pub index_canister_id: String,
    pub added: TimestampMillis,
}

/// The registry's aggregate data, as restored from the durable image.
pub struct Data {
    pub test_mode: bool,
    pub tokens: Vec<TokenDetails>,
}

pub struct RuntimeState {
    pub data: Data,
    pub wasm_version: BuildVersion,
}

impl Data {
    /// Registers the platform ledger token under the given actor identities.
    pub fn add_icp_token_details(
        &mut self,
        ledger_canister_id: String,
        root_canister_id: String,
        governance_canister_id: String,
        index_canister_id: String,
        now: TimestampMillis,
    )
        ensures
            final(self).test_mode == old(self).test_mode,
            final(self).tokens@.len() == old(self).tokens@.len() + 1,
            old(self).tokens@.is_prefix_of(final(self).tokens@),
            final(self).tokens@.last().ledger_canister_id == ledger_canister_id,
            final(self).tokens@.last().root_canister_id == root_canister_id,
            final(self).tokens@.last().governance_canister_id == governance_canister_id,
            final(self).tokens@.last().index_canister_id == index_canister_id,
            final(self).tokens@.last().added == now,
    {
        let ghost t = self.tokens@;
        self.tokens.push(
            TokenDetails {
                ledger_canister_id,
                root_canister_id,
                governance_canister_id,
                index_canister_id,
                added: now,
            },
        );
        proof {
            assert(self.tokens@.take(t.len() as int) =~= t);
        }
    }
}

/// Rebuilds the runtime state from the restored data: stamps the new build
/// version, registers the platform ledger token's fixed actor identities at
/// the boot timestamp, and resets the memory manager to the fixed bucket
/// layout. Runs only after the durable image was decoded successfully.
pub fn post_upgrade(data: Data, args: &Args, mgr: &mut MemoryManager, now: TimestampMillis) -> (r:
    RuntimeState)
    ensures
        r.wasm_version == args.wasm_version,
        r.data.test_mode == data.test_mode,
        r.data.tokens@.len() == data.tokens@.len() + 1,
        data.tokens@.is_prefix_of(r.data.tokens@),
        r.data.tokens@.last().ledger_canister_id@ == "ryjl3-tyaaa-aaaaa-aaaba-cai"@,
        r.data.tokens@.last().root_canister_id@ == "r7inp-6aaaa-aaaaa-aaabq-cai"@,
        r.data.tokens@.last().governance_canister_id@ == "rrkah-fqaaa-aaaaa-aaaaq-cai"@,
        r.data.tokens@.last().index_canister_id@ == "qhbym-qaaaa-aaaaa-aaafq-cai"@,
        r.data.tokens@.last().added == now,
        final(mgr).wf(),
        final(mgr).bucket_size_in_pages == BUCKET_SIZE_IN_PAGES,
        final(mgr).upgrades@ =~= Seq::<u8>::empty(),
{
    let ledger = String::from_str("ryjl3-tyaaa-aaaaa-aaaba-cai");
    let root = String::from_str("r7inp-6aaaa-aaaaa-aaabq-cai");
    let governance = String::from_str("rrkah-fqaaa-aaaaa-aaaaq-cai");
    let index = String::from_str("qhbym-qaaaa-aaaaa-aaafq-cai");

    let mut state = RuntimeState { data, wasm_version: args.wasm_version };
    state.data.add_icp_token_details(ledger, root, governance, index, now);

    reset_memory_manager(mgr);

    state
}

} // verus!
