//! The datasets that can be collected, alone or together.

use vstd::prelude::*;

use crate::bytes::views;
use crate::text::{snake_case, to_snake_case};

verus! {

/// Datatypes
#[derive(Debug, Clone, Copy, PartialEq, Eq, Hash, Structural)]
pub enum Datatype {
    /// address_appearances
    AddressAppearances,
    /// balance_diffs
    BalanceDiffs,
    /// balance_reads
    BalanceReads,
    /// balances
    Balances,
    /// blocks
    Blocks,
    /// code_diffs
    CodeDiffs,
    /// code_reads
    CodeReads,
    /// codes
    Codes,
    /// contracts
    Contracts,
    /// erc20_balances
    Erc20Balances,
    /// erc20_metadata
    Erc20Metadata,
    /// erc20_supplies
    Erc20Supplies,
    /// erc20_transfers
    Erc20Transfers,
    /// erc20_approvals
    Erc20Approvals,
    /// erc20_wrapper_events
    Erc20WrapperEvents,
    /// erc721_metadata
    Erc721Metadata,
    /// erc721_transfers
    Erc721Transfers,
    /// eth_calls
    EthCalls,
    /// four_byte_counts
    FourByteCounts,
    /// geth_calls
    GethCalls,
    /// geth_code_diffs
    GethCodeDiffs,
    /// geth_balance_diffs
    GethBalanceDiffs,
    /// geth_storage_diffs
    GethStorageDiffs,
    /// geth_nonce_diffs
    GethNonceDiffs,
    /// geth_opcodes
    GethOpcodes,
    /// javascript_traces
    JavascriptTraces,
    /// logs
    Logs,
    /// native_transfers
    NativeTransfers,
    /// nonce_diffs
    NonceDiffs,
    /// nonce_reads
    NonceReads,
    /// nonces
    Nonces,
    /// slots
    Slots,
    /// storage_diffs
    StorageDiffs,
    /// storage_reads
    StorageReads,
    /// traces
    Traces,
    /// trace_calls
    TraceCalls,
    /// transactions
    Transactions,
    /// vm_traces
    VmTraces,
}

/// Every datatype, in listing order.
pub open spec fn all_datatypes() -> Seq<Datatype> {
    seq![
        Datatype::AddressAppearances,
        Datatype::BalanceDiffs,
        Datatype::BalanceReads,
        Datatype::Balances,
        Datatype::Blocks,
        Datatype::CodeDiffs,
        Datatype::CodeReads,
        Datatype::Codes,
        Datatype::Contracts,
        Datatype::Erc20Balances,
        Datatype::Erc20Metadata,
        Datatype::Erc20Supplies,
        Datatype::Erc20Transfers,
        Datatype::Erc20Approvals,
        Datatype::Erc20WrapperEvents,
        Datatype::Erc721Metadata,
        Datatype::Erc721Transfers,
        Datatype::EthCalls,
        Datatype::FourByteCounts,
        Datatype::GethCalls,
        Datatype::GethCodeDiffs,
        Datatype::GethBalanceDiffs,
        Datatype::GethStorageDiffs,
        Datatype::GethNonceDiffs,
        Datatype::GethOpcodes,
        Datatype::JavascriptTraces,
        Datatype::Logs,
        Datatype::NativeTransfers,
        Datatype::NonceDiffs,
        Datatype::NonceReads,
        Datatype::Nonces,
        Datatype::Slots,
        Datatype::StorageDiffs,
        Datatype::StorageReads,
        Datatype::Traces,
        Datatype::TraceCalls,
        Datatype::Transactions,
        Datatype::VmTraces,
    ]
}

impl Datatype {
    /// The identifier of the datatype.
    pub open spec fn identifier_text(self) -> Seq<char> {
        match self {
            Datatype::AddressAppearances => "AddressAppearances"@,
            Datatype::BalanceDiffs => "BalanceDiffs"@,
            Datatype::BalanceReads => "BalanceReads"@,
            Datatype::Balances => "Balances"@,
            Datatype::Blocks => "Blocks"@,
            Datatype::CodeDiffs => "CodeDiffs"@,
            Datatype::CodeReads => "CodeReads"@,
            Datatype::Codes => "Codes"@,
            Datatype::Contracts => "Contracts"@,
            Datatype::Erc20Balances => "Erc20Balances"@,
            Datatype::Erc20Metadata => "Erc20Metadata"@,
            Datatype::Erc20Supplies => "Erc20Supplies"@,
            Datatype::Erc20Transfers => "Erc20Transfers"@,
            Datatype::Erc20Approvals => "Erc20Approvals"@,
            Datatype::Erc20WrapperEvents => "Erc20WrapperEvents"@,
            Datatype::Erc721Metadata => "Erc721Metadata"@,
            Datatype::Erc721Transfers => "Erc721Transfers"@,
            Datatype::EthCalls => "EthCalls"@,
            Datatype::FourByteCounts => "FourByteCounts"@,
            Datatype::GethCalls => "GethCalls"@,
            Datatype::GethCodeDiffs => "GethCodeDiffs"@,
            Datatype::GethBalanceDiffs => "GethBalanceDiffs"@,
            Datatype::GethStorageDiffs => "GethStorageDiffs"@,
            Datatype::GethNonceDiffs => "GethNonceDiffs"@,
            Datatype::GethOpcodes => "GethOpcodes"@,
            Datatype::JavascriptTraces => "JavascriptTraces"@,
            Datatype::Logs => "Logs"@,
            Datatype::NativeTransfers => "NativeTransfers"@,
            Datatype::NonceDiffs => "NonceDiffs"@,
            Datatype::NonceReads => "NonceReads"@,
            Datatype::Nonces => "Nonces"@,
            Datatype::Slots => "Slots"@,
            Datatype::StorageDiffs => "StorageDiffs"@,
            Datatype::StorageReads => "StorageReads"@,
            Datatype::Traces => "Traces"@,
            Datatype::TraceCalls => "TraceCalls"@,
            Datatype::Transactions => "Transactions"@,
            Datatype::VmTraces => "VmTraces"@,
        }
    }

    /// The other names under which the datatype can be requested.
    pub open spec fn alias_texts(self) -> Seq<Seq<char>> {
        match self {
            Datatype::Erc20WrapperEvents => seq!["wrapper_events"@, "weth_events"@],
            Datatype::FourByteCounts => seq!["4byte_counts"@],
            Datatype::JavascriptTraces => seq!["js_traces"@],
            Datatype::Logs => seq!["events"@],
            Datatype::Slots => seq!["storages"@],
            Datatype::StorageDiffs => seq!["slot_diffs"@],
            Datatype::StorageReads => seq!["slot_reads"@],
            Datatype::Transactions => seq!["txs"@],
            Datatype::VmTraces => seq!["opcode_traces"@],
            _ => Seq::empty(),
        }
    }

    /// The place of the datatype in the listing.
    pub open spec fn position(self) -> u64 {
        match self {
            Datatype::AddressAppearances => 0,
            Datatype::BalanceDiffs => 1,
            Datatype::BalanceReads => 2,
            Datatype::Balances => 3,
            Datatype::Blocks => 4,
            Datatype::CodeDiffs => 5,
            Datatype::CodeReads => 6,
            Datatype::Codes => 7,
            Datatype::Contracts => 8,
            Datatype::Erc20Balances => 9,
            Datatype::Erc20Metadata => 10,
            Datatype::Erc20Supplies => 11,
            Datatype::Erc20Transfers => 12,
            Datatype::Erc20Approvals => 13,
            Datatype::Erc20WrapperEvents => 14,
            Datatype::Erc721Metadata => 15,
            Datatype::Erc721Transfers => 16,
            Datatype::EthCalls => 17,
            Datatype::FourByteCounts => 18,
            Datatype::GethCalls => 19,
            Datatype::GethCodeDiffs => 20,
            Datatype::GethBalanceDiffs => 21,
            Datatype::GethStorageDiffs => 22,
            Datatype::GethNonceDiffs => 23,
            Datatype::GethOpcodes => 24,
            Datatype::JavascriptTraces => 25,
            Datatype::Logs => 26,
            Datatype::NativeTransfers => 27,
            Datatype::NonceDiffs => 28,
            Datatype::NonceReads => 29,
            Datatype::Nonces => 30,
            Datatype::Slots => 31,
            Datatype::StorageDiffs => 32,
            Datatype::StorageReads => 33,
            Datatype::Traces => 34,
            Datatype::TraceCalls => 35,
            Datatype::Transactions => 36,
            Datatype::VmTraces => 37,
        }
    }

    /// return Vec of all datatypes
    pub fn all() -> (datatypes: Vec<Datatype>)
        ensures
            datatypes@ == all_datatypes(),
    {
        let datatypes = vec![
            Datatype::AddressAppearances,
            Datatype::BalanceDiffs,
            Datatype::BalanceReads,
            Datatype::Balances,
            Datatype::Blocks,
            Datatype::CodeDiffs,
            Datatype::CodeReads,
            Datatype::Codes,
            Datatype::Contracts,
            Datatype::Erc20Balances,
            Datatype::Erc20Metadata,
            Datatype::Erc20Supplies,
            Datatype::Erc20Transfers,
            Datatype::Erc20Approvals,
            Datatype::Erc20WrapperEvents,
            Datatype::Erc721Metadata,
            Datatype::Erc721Transfers,
            Datatype::EthCalls,
            Datatype::FourByteCounts,
            Datatype::GethCalls,
            Datatype::GethCodeDiffs,
            Datatype::GethBalanceDiffs,
            Datatype::GethStorageDiffs,
            Datatype::GethNonceDiffs,
            Datatype::GethOpcodes,
            Datatype::JavascriptTraces,
            Datatype::Logs,
            Datatype::NativeTransfers,
            Datatype::NonceDiffs,
            Datatype::NonceReads,
            Datatype::Nonces,
            Datatype::Slots,
            Datatype::StorageDiffs,
            Datatype::StorageReads,
            Datatype::Traces,
            Datatype::TraceCalls,
            Datatype::Transactions,
            Datatype::VmTraces,
        ];
        assert(datatypes@ =~= all_datatypes());
        datatypes
    }

    fn identifier(&self) -> (text: &'static str)
        ensures
            text@ == self.identifier_text(),
    {
        match self {
            Datatype::AddressAppearances => "AddressAppearances",
            Datatype::BalanceDiffs => "BalanceDiffs",
            Datatype::BalanceReads => "BalanceReads",
            Datatype::Balances => "Balances",
            Datatype::Blocks => "Blocks",
            Datatype::CodeDiffs => "CodeDiffs",
            Datatype::CodeReads => "CodeReads",
            Datatype::Codes => "Codes",
            Datatype::Contracts => "Contracts",
            Datatype::Erc20Balances => "Erc20Balances",
            Datatype::Erc20Metadata => "Erc20Metadata",
            Datatype::Erc20Supplies => "Erc20Supplies",
            Datatype::Erc20Transfers => "Erc20Transfers",
            Datatype::Erc20Approvals => "Erc20Approvals",
            Datatype::Erc20WrapperEvents => "Erc20WrapperEvents",
            Datatype::Erc721Metadata => "Erc721Metadata",
            Datatype::Erc721Transfers => "Erc721Transfers",
            Datatype::EthCalls => "EthCalls",
            Datatype::FourByteCounts => "FourByteCounts",
            Datatype::GethCalls => "GethCalls",
            Datatype::GethCodeDiffs => "GethCodeDiffs",
            Datatype::GethBalanceDiffs => "GethBalanceDiffs",
            Datatype::GethStorageDiffs => "GethStorageDiffs",
            Datatype::GethNonceDiffs => "GethNonceDiffs",
            Datatype::GethOpcodes => "GethOpcodes",
            Datatype::JavascriptTraces => "JavascriptTraces",
            Datatype::Logs => "Logs",
            Datatype::NativeTransfers => "NativeTransfers",
            Datatype::NonceDiffs => "NonceDiffs",
            Datatype::NonceReads => "NonceReads",
            Datatype::Nonces => "Nonces",
            Datatype::Slots => "Slots",
            Datatype::StorageDiffs => "StorageDiffs",
            Datatype::StorageReads => "StorageReads",
            Datatype::Traces => "Traces",
            Datatype::TraceCalls => "TraceCalls",
            Datatype::Transactions => "Transactions",
            Datatype::VmTraces => "VmTraces",
        }
    }

    /// name of datatype
    pub fn name(&self) -> (name: String)
        ensures
            name@ == snake_case(self.identifier_text()),
    {
        to_snake_case(self.identifier())
    }

    /// other names of datatype
    pub fn aliases(&self) -> (aliases: Vec<&'static str>)
        ensures
            views(aliases@) == self.alias_texts(),
    {
        let aliases: Vec<&'static str> = match self {
            Datatype::Erc20WrapperEvents => vec!["wrapper_events", "weth_events"],
            Datatype::FourByteCounts => vec!["4byte_counts"],
            Datatype::JavascriptTraces => vec!["js_traces"],
            Datatype::Logs => vec!["events"],
            Datatype::Slots => vec!["storages"],
            Datatype::StorageDiffs => vec!["slot_diffs"],
            Datatype::StorageReads => vec!["slot_reads"],
            Datatype::Transactions => vec!["txs"],
            Datatype::VmTraces => vec!["opcode_traces"],
            _ => vec![],
        };
        assert(views(aliases@) =~= self.alias_texts());
        aliases
    }

    /// The place of the datatype in the listing.
    pub fn index(&self) -> (index: u64)
        ensures
            index == self.position(),
    {
        match self {
            Datatype::AddressAppearances => 0,
            Datatype::BalanceDiffs => 1,
            Datatype::BalanceReads => 2,
            Datatype::Balances => 3,
            Datatype::Blocks => 4,
            Datatype::CodeDiffs => 5,
            Datatype::CodeReads => 6,
            Datatype::Codes => 7,
            Datatype::Contracts => 8,
            Datatype::Erc20Balances => 9,
            Datatype::Erc20Metadata => 10,
            Datatype::Erc20Supplies => 11,
            Datatype::Erc20Transfers => 12,
            Datatype::Erc20Approvals => 13,
            Datatype::Erc20WrapperEvents => 14,
            Datatype::Erc721Metadata => 15,
            Datatype::Erc721Transfers => 16,
            Datatype::EthCalls => 17,
            Datatype::FourByteCounts => 18,
            Datatype::GethCalls => 19,
            Datatype::GethCodeDiffs => 20,
            Datatype::GethBalanceDiffs => 21,
            Datatype::GethStorageDiffs => 22,
            Datatype::GethNonceDiffs => 23,
            Datatype::GethOpcodes => 24,
            Datatype::JavascriptTraces => 25,
            Datatype::Logs => 26,
            Datatype::NativeTransfers => 27,
            Datatype::NonceDiffs => 28,
            Datatype::NonceReads => 29,
            Datatype::Nonces => 30,
            Datatype::Slots => 31,
            Datatype::StorageDiffs => 32,
            Datatype::StorageReads => 33,
            Datatype::Traces => 34,
            Datatype::TraceCalls => 35,
            Datatype::Transactions => 36,
            Datatype::VmTraces => 37,
        }
    }
}

/// The listing holds every datatype exactly once, each at its own position.
pub proof fn law_every_datatype_is_listed_once(datatype: Datatype)
    ensures
        datatype.position() < all_datatypes().len(),
        all_datatypes()[datatype.position() as int] == datatype,
        forall|i: int|
            0 <= i < all_datatypes().len() && #[trigger] all_datatypes()[i] == datatype ==> i
                == datatype.position(),
{
    lemma_position_of_listed();
}

proof fn lemma_position_of_listed()
    ensures
        forall|i: int|
            0 <= i < all_datatypes().len() ==> (#[trigger] all_datatypes()[i]).position() == i,
{
}

/// enum of possible sets of datatypes that triodion can collect
/// used when multiple datatypes are collected together
#[derive(Debug, Clone, Copy, PartialEq, Eq, Hash, Structural)]
pub enum MultiDatatype {
    /// blocks and transactions
    BlocksAndTransactions,
    /// call trace derivatives
    CallTraceDerivatives,
    /// geth debug versions of balance diffs, code diffs, nonce diffs, and storage diffs
    GethStateDiffs,
    /// log-derived datasets that share one log request per partition
    LogEvents,
    /// balance diffs, code diffs, nonce diffs, and storage diffs
    StateDiffs,
    /// balance reads, code reads, nonce reads, and storage reads
    StateReads,
}

/// Every group of datatypes.
pub open spec fn all_groups() -> Seq<MultiDatatype> {
    seq![
        MultiDatatype::BlocksAndTransactions,
        MultiDatatype::CallTraceDerivatives,
        MultiDatatype::GethStateDiffs,
        MultiDatatype::LogEvents,
        MultiDatatype::StateDiffs,
        MultiDatatype::StateReads,
    ]
}

impl MultiDatatype {
    /// The identifier of the group.
    pub open spec fn identifier_text(self) -> Seq<char> {
        match self {
            MultiDatatype::BlocksAndTransactions => "BlocksAndTransactions"@,
            MultiDatatype::CallTraceDerivatives => "CallTraceDerivatives"@,
            MultiDatatype::GethStateDiffs => "GethStateDiffs"@,
            MultiDatatype::LogEvents => "LogEvents"@,
            MultiDatatype::StateDiffs => "StateDiffs"@,
            MultiDatatype::StateReads => "StateReads"@,
        }
    }

    /// The members of the group.
    pub open spec fn members(self) -> Seq<Datatype> {
        match self {
            MultiDatatype::BlocksAndTransactions => seq![
                Datatype::Blocks,
                Datatype::Transactions,
            ],
            MultiDatatype::CallTraceDerivatives => seq![
                Datatype::Contracts,
                Datatype::NativeTransfers,
                Datatype::Traces,
            ],
            MultiDatatype::GethStateDiffs => seq![
                Datatype::GethBalanceDiffs,
                Datatype::GethCodeDiffs,
                Datatype::GethNonceDiffs,
                Datatype::GethStorageDiffs,
            ],
            MultiDatatype::LogEvents => seq![
                Datatype::Logs,
                Datatype::Erc20Transfers,
                Datatype::Erc20Approvals,
                Datatype::Erc721Transfers,
                Datatype::Erc20WrapperEvents,
            ],
            MultiDatatype::StateDiffs => seq![
                Datatype::BalanceDiffs,
                Datatype::CodeDiffs,
                Datatype::NonceDiffs,
                Datatype::StorageDiffs,
            ],
            MultiDatatype::StateReads => seq![
                Datatype::BalanceReads,
                Datatype::CodeReads,
                Datatype::NonceReads,
                Datatype::StorageReads,
            ],
        }
    }

    /// individual datatypes
    pub fn datatypes(&self) -> (datatypes: Vec<Datatype>)
        ensures
            datatypes@ == self.members(),
    {
        let datatypes = match self {
            MultiDatatype::BlocksAndTransactions => vec![
                Datatype::Blocks,
                Datatype::Transactions,
            ],
            MultiDatatype::CallTraceDerivatives => vec![
                Datatype::Contracts,
                Datatype::NativeTransfers,
                Datatype::Traces,
            ],
            MultiDatatype::GethStateDiffs => vec![
                Datatype::GethBalanceDiffs,
                Datatype::GethCodeDiffs,
                Datatype::GethNonceDiffs,
                Datatype::GethStorageDiffs,
            ],
            MultiDatatype::LogEvents => vec![
                Datatype::Logs,
                Datatype::Erc20Transfers,
                Datatype::Erc20Approvals,
                Datatype::Erc721Transfers,
                Datatype::Erc20WrapperEvents,
            ],
            MultiDatatype::StateDiffs => vec![
                Datatype::BalanceDiffs,
                Datatype::CodeDiffs,
                Datatype::NonceDiffs,
                Datatype::StorageDiffs,
            ],
            MultiDatatype::StateReads => vec![
                Datatype::BalanceReads,
                Datatype::CodeReads,
                Datatype::NonceReads,
                Datatype::StorageReads,
            ],
        };
        assert(datatypes@ =~= self.members());
        datatypes
    }

    /// return all variants of multi datatype
    pub fn variants() -> (variants: Vec<MultiDatatype>)
        ensures
            variants@ == all_groups(),
    {
        let variants = vec![
            MultiDatatype::BlocksAndTransactions,
            MultiDatatype::CallTraceDerivatives,
            MultiDatatype::GethStateDiffs,
            MultiDatatype::LogEvents,
            MultiDatatype::StateDiffs,
            MultiDatatype::StateReads,
        ];
        assert(variants@ =~= all_groups());
        variants
    }

    fn identifier(&self) -> (text: &'static str)
        ensures
            text@ == self.identifier_text(),
    {
        match self {
            MultiDatatype::BlocksAndTransactions => "BlocksAndTransactions",
            MultiDatatype::CallTraceDerivatives => "CallTraceDerivatives",
            MultiDatatype::GethStateDiffs => "GethStateDiffs",
            MultiDatatype::LogEvents => "LogEvents",
            MultiDatatype::StateDiffs => "StateDiffs",
            MultiDatatype::StateReads => "StateReads",
        }
    }

    /// name
    pub fn name(&self) -> (name: String)
        ensures
            name@ == snake_case(self.identifier_text()),
    {
        to_snake_case(self.identifier())
    }
}

/// The variants are all the groups there are, each listed once.
pub proof fn law_variants_are_complete(group: MultiDatatype)
    ensures
        all_groups().contains(group),
        all_groups().no_duplicates(),
{
    let groups = all_groups();
    let at: int = match group {
        MultiDatatype::BlocksAndTransactions => 0,
        MultiDatatype::CallTraceDerivatives => 1,
        MultiDatatype::GethStateDiffs => 2,
        MultiDatatype::LogEvents => 3,
        MultiDatatype::StateDiffs => 4,
        MultiDatatype::StateReads => 5,
    };
    assert(groups[at] == group);
}

/// A group has at least two members and none twice, and no datatype belongs to
/// two groups, so that a requested datatype is collected through at most one.
pub proof fn law_groups_are_disjoint(datatype: Datatype, one: MultiDatatype, other: MultiDatatype)
    ensures
        one.members().len() >= 2,
        one.members().no_duplicates(),
        one.members().contains(datatype) && other.members().contains(datatype) ==> one == other,
{
}

} // verus!
