use vstd::prelude::*;

verus! {

/// Account identifier; encoded on the wire as eight little-endian bytes.
pub type AccountId = u64;

/// The encoding of an account identifier: eight bytes, least significant first.
pub open spec fn encode_account_spec(a: u64) -> Seq<u8> {
    seq![
        (a % 0x100) as u8,
        ((a / 0x100) % 0x100) as u8,
        ((a / 0x1_0000) % 0x100) as u8,
        ((a / 0x100_0000) % 0x100) as u8,
        ((a / 0x1_0000_0000) % 0x100) as u8,
        ((a / 0x100_0000_0000) % 0x100) as u8,
        ((a / 0x1_0000_0000_0000) % 0x100) as u8,
        ((a / 0x100_0000_0000_0000) % 0x100) as u8,
    ]
}

/// Encodes an account identifier as eight little-endian bytes.
pub fn encode_account(a: AccountId) -> (r: Vec<u8>)
    ensures
        r@ == encode_account_spec(a),
{
    let mut r: Vec<u8> = Vec::new();
    r.push((a % 0x100) as u8);
    r.push(((a / 0x100) % 0x100) as u8);
    r.push(((a / 0x1_0000) % 0x100) as u8);
    r.push(((a / 0x100_0000) % 0x100) as u8);
    r.push(((a / 0x1_0000_0000) % 0x100) as u8);
    r.push(((a / 0x100_0000_0000) % 0x100) as u8);
    r.push(((a / 0x1_0000_0000_0000) % 0x100) as u8);
    r.push(((a / 0x100_0000_0000_0000) % 0x100) as u8);
    assert(r@ =~= encode_account_spec(a));
    r
}

/// Whether two storage keys are equal.
pub fn same_key(a: &[u8; 32], b: &[u8; 32]) -> (r: bool)
    ensures
        r == (a@ == b@),
{
    let mut i: usize = 0;
    while i < 32
        invariant
            i <= 32,
            a@.len() == 32,
            b@.len() == 32,
            forall|k: int| 0 <= k < i ==> a@[k] == b@[k],
        decreases 32 - i,
    {
        if a[i] != b[i] {
            return false;
        }
        i = i + 1;
    }
    assert(a@ =~= b@);
    true
}

/// Returns a copy of a byte vector.
pub fn copy_bytes(v: &Vec<u8>) -> (r: Vec<u8>)
    ensures
        r@ == v@,
{
    let r = v.clone();
    assert(r@ =~= v@);
    r
}

/// Returns a copy of an optional byte vector.
pub fn copy_opt_bytes(v: &Option<Vec<u8>>) -> (r: Option<Vec<u8>>)
    ensures
        opt_bytes_view(r) == opt_bytes_view(*v),
{
    match v {
        Some(b) => Some(copy_bytes(b)),
        None => None,
    }
}

/// The view of an optional byte vector.
pub open spec fn opt_bytes_view(v: Option<Vec<u8>>) -> Option<Seq<u8>> {
    match v {
        Some(b) => Some(b@),
        None => None,
    }
}

/// A transfer that would reach `to` if the trace were applied.
#[derive(Debug, Clone, PartialEq, Eq)]
pub struct TransferEntry {
    pub to: Vec<u8>,
    pub value: u64,
    pub data: Vec<u8>,
}

/// A transfer record as values.
pub struct TransferEntryView {
    pub to: Seq<u8>,
    pub value: u64,
    pub data: Seq<u8>,
}

impl View for TransferEntry {
    type V = TransferEntryView;

    open spec fn view(&self) -> TransferEntryView {
        TransferEntryView { to: self.to@, value: self.value, data: self.data@ }
    }
}

/// A storage write intercepted during speculative execution; `None` deletes.
#[derive(Debug, Clone, PartialEq, Eq)]
pub struct DeferredStorageWrite {
    pub dest: Vec<u8>,
    pub trie_id: Vec<u8>,
    pub key: [u8; 32],
    pub value: Option<Vec<u8>>,
}

/// A storage write record as values.
pub struct DeferredStorageWriteView {
    pub dest: Seq<u8>,
    pub trie_id: Seq<u8>,
    pub key: Seq<u8>,
    pub value: Option<Seq<u8>>,
}

impl View for DeferredStorageWrite {
    type V = DeferredStorageWriteView;

    open spec fn view(&self) -> DeferredStorageWriteView {
        DeferredStorageWriteView {
            dest: self.dest@,
            trie_id: self.trie_id@,
            key: self.key@,
            value: opt_bytes_view(self.value),
        }
    }
}

/// The storage root and account of a contract that a call entered.
#[derive(Debug, Clone, PartialEq, Eq)]
pub struct CallStamp {
    pub storage: Vec<u8>,
    pub dest: Vec<u8>,
}

/// A call stamp as values.
pub struct CallStampView {
    pub storage: Seq<u8>,
    pub dest: Seq<u8>,
}

impl View for CallStamp {
    type V = CallStampView;

    open spec fn view(&self) -> CallStampView {
        CallStampView { storage: self.storage@, dest: self.dest@ }
    }
}

/// The views of a sequence of transfer records.
pub open spec fn transfers_view(v: Seq<TransferEntry>) -> Seq<TransferEntryView> {
    v.map_values(|t: TransferEntry| t@)
}

/// The views of a sequence of storage write records.
pub open spec fn writes_view(v: Seq<DeferredStorageWrite>) -> Seq<DeferredStorageWriteView> {
    v.map_values(|w: DeferredStorageWrite| w@)
}

/// The views of a sequence of call stamps.
pub open spec fn stamps_view(v: Seq<CallStamp>) -> Seq<CallStampView> {
    v.map_values(|c: CallStamp| c@)
}

} // verus!
