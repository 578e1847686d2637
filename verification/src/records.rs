//! The data model: persisted contract metadata and the resumable checkpoint.

use vstd::prelude::*;

verus! {

/// Block position (height and in-block transaction index) at which a
/// contract was instantiated.
#[derive(Clone, Copy, PartialEq, Eq, Structural, Debug)]
pub struct AbsoluteTxPositionDef {
    pub block_height: u64,
    pub tx_index: u64,
}

/// A type-tagged opaque payload attached to a contract's metadata.
#[derive(Clone, Debug, PartialEq)]
pub struct AnyDef {
    pub type_url: String,
    pub value: Vec<u8>,
}

/// Mathematical value of an [`AnyDef`].
pub struct AnyView {
    pub type_url: Seq<char>,
    pub value: Seq<u8>,
}

impl View for AnyDef {
    type V = AnyView;

    open spec fn view(&self) -> AnyView {
        AnyView { type_url: self.type_url@, value: self.value@ }
    }
}

/// Resolved metadata for one contract, as it is persisted.
///
/// The two optional fields keep a two-level optionality: `None` means the
/// field was absent altogether, `Some(None)` that it was present but empty.
#[derive(Clone, Debug, PartialEq)]
pub struct ContractInfoDef {
    pub code_id: u64,
    pub creator: String,
    pub admin: String,
    pub label: String,
    pub created: Option<Option<AbsoluteTxPositionDef>>,
    pub ibc_port_id: String,
    pub extension: Option<Option<AnyDef>>,
}

/// Mathematical value of a [`ContractInfoDef`].
pub struct ContractInfoView {
    pub code_id: u64,
    pub creator: Seq<char>,
    pub admin: Seq<char>,
    pub label: Seq<char>,
    pub created: Option<Option<AbsoluteTxPositionDef>>,
    pub ibc_port_id: Seq<char>,
    pub extension: Option<Option<AnyView>>,
}

impl View for ContractInfoDef {
    type V = ContractInfoView;

    open spec fn view(&self) -> ContractInfoView {
        ContractInfoView {
            code_id: self.code_id,
            creator: self.creator@,
            admin: self.admin@,
            label: self.label@,
            created: self.created,
            ibc_port_id: self.ibc_port_id@,
            extension: match self.extension {
                Option::None => Option::None,
                Option::Some(Option::None) => Option::Some(Option::None),
                Option::Some(Option::Some(a)) => Option::Some(Option::Some(a@)),
            },
        }
    }
}

/// The views of a sequence of contract records.
pub open spec fn info_views(s: Seq<ContractInfoDef>) -> Seq<ContractInfoView> {
    s.map_values(|c: ContractInfoDef| c@)
}

/// The durable, resumable unit of progress: the next page to fetch and the
/// records accumulated through every completed page.
#[derive(Clone, Debug, PartialEq)]
pub struct CachedData {
    pub last_page: u64,
    pub data: Vec<ContractInfoDef>,
}

/// Mathematical value of a [`CachedData`].
pub struct CachedDataView {
    pub last_page: u64,
    pub data: Seq<ContractInfoView>,
}

impl View for CachedData {
    type V = CachedDataView;

    open spec fn view(&self) -> CachedDataView {
        CachedDataView { last_page: self.last_page, data: info_views(self.data@) }
    }
}

/// A transient mention of a contract extracted from one transaction's logs.
#[derive(Clone, Debug, PartialEq)]
pub struct ContractDetails {
    pub contract_address: String,
    pub code_id: String,
}

/// Mathematical value of a [`ContractDetails`].
pub struct ContractDetailsView {
    pub contract_address: Seq<char>,
    pub code_id: Seq<char>,
}

impl View for ContractDetails {
    type V = ContractDetailsView;

    open spec fn view(&self) -> ContractDetailsView {
        ContractDetailsView {
            contract_address: self.contract_address@,
            code_id: self.code_id@,
        }
    }
}

/// The views of a sequence of mentions.
pub open spec fn detail_views(s: Seq<ContractDetails>) -> Seq<ContractDetailsView> {
    s.map_values(|d: ContractDetails| d@)
}

/// The fresh state a run starts from when no prior checkpoint exists:
/// everything still to do, nothing accumulated.
pub fn initial_cached_data() -> (r: CachedData)
    ensures
        r.last_page == 0,
        r@.data.len() == 0,
{
    CachedData { last_page: 0, data: Vec::new() }
}

} // verus!
